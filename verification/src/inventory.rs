//! The emulated ISteamInventory interface: the user's items, the results
//! handed out under result handles, and the item definitions.
use crate::cbuf::{sized_c_copy, string_bytes, utf8_bytes, SizedCopy};
use crate::rng::random_u64;
use crate::strmap::StrMap;
use std::collections::HashMap;
use vstd::prelude::*;
use vstd::string::*;

verus! {

broadcast use vstd::std_specs::hash::group_hash_axioms;

#[derive(Clone, Copy)]
pub struct SteamItemDetails_t {
    pub item_id: u64,
    pub definition: i32,
    pub quantity: u16,
    pub flags: u16,
}

#[derive(Clone, Copy)]
pub struct ItemInstance {
    pub instance_id: u64,
    pub definition: i32,
    pub quantity: u16,
}

pub struct InventoryResult {
    pub handle: i32,
    pub items: Vec<SteamItemDetails_t>,
    pub status: i32,
}

pub struct ResultView {
    pub items: Seq<SteamItemDetails_t>,
    pub status: i32,
}

pub struct ItemDefinition {
    pub item_def: i32,
    pub name: String,
    pub description: String,
    pub price: String,
    pub properties: StrMap<String>,
}

/// The status of a result that came out fine.
pub const RESULT_OK: i32 = 1;

/// The price every item is offered at.
pub const ITEM_PRICE: u64 = 100;

pub open spec fn details_of_item(it: ItemInstance) -> SteamItemDetails_t {
    SteamItemDetails_t { item_id: it.instance_id, definition: it.definition, quantity: it.quantity, flags: 0 }
}

/// The details a result reports for a list of items.
pub open spec fn details_of(items: Seq<ItemInstance>) -> Seq<SteamItemDetails_t> {
    items.map_values(|it: ItemInstance| details_of_item(it))
}

pub open spec fn instance_ids(items: Seq<ItemInstance>) -> Seq<u64> {
    items.map_values(|it: ItemInstance| it.instance_id)
}

pub open spec fn definition_ids(defs: Seq<ItemDefinition>) -> Seq<i32> {
    defs.map_values(|d: ItemDefinition| d.item_def)
}

/// The items named by a list of requested instance ids, in inventory order.
pub open spec fn items_with_ids(items: Seq<ItemInstance>, ids: Seq<u64>) -> Seq<ItemInstance> {
    items.filter(|it: ItemInstance| ids.contains(it.instance_id))
}

/// The items left once every item with id `id` is gone.
pub open spec fn without_id(items: Seq<ItemInstance>, id: u64) -> Seq<ItemInstance> {
    items.filter(|it: ItemInstance| it.instance_id != id)
}

/// Taking `qty` (read as a 16-bit count) from the first item with id `id`:
/// nothing changes when there is no such item or it holds fewer; an item
/// that drops to zero takes every item with its id along.
pub open spec fn consumed(items: Seq<ItemInstance>, id: u64, qty: u32) -> Seq<ItemInstance> {
    let i = crate::lookup::first_index(instance_ids(items), id);
    if i >= 0 && items[i].quantity >= (qty as u16) {
        let left = (items[i].quantity - (qty as u16)) as u16;
        let changed = items.update(i, ItemInstance { quantity: left, ..items[i] });
        if left == 0 {
            without_id(changed, id)
        } else {
            changed
        }
    } else {
        items
    }
}

/// Whether `consumed` takes anything.
pub open spec fn can_consume(items: Seq<ItemInstance>, id: u64, qty: u32) -> bool {
    let i = crate::lookup::first_index(instance_ids(items), id);
    i >= 0 && items[i].quantity >= (qty as u16)
}

/// The items after consuming, in turn, the first `n` (id, quantity) pairs.
pub open spec fn consumed_all(items: Seq<ItemInstance>, ids: Seq<u64>, qtys: Seq<u32>, n: nat) -> Seq<ItemInstance>
    decreases n,
{
    if n == 0 {
        items
    } else {
        consumed(consumed_all(items, ids, qtys, (n - 1) as nat), ids[n - 1], qtys[n - 1])
    }
}

/// The items that generating `defs` with `qtys` adds, given their instance ids.
pub open spec fn generated(defs: Seq<i32>, qtys: Seq<u32>, ids: Seq<u64>) -> Seq<ItemInstance> {
    Seq::new(
        defs.len(),
        |i: int| ItemInstance { instance_id: ids[i], definition: defs[i], quantity: qtys[i] as u16 },
    )
}

/// The answer to a request for the items of a result.
pub enum ResultItems {
    /// No array was given: the number of items.
    Count(u32),
    /// The items that fit the array.
    Items(Vec<SteamItemDetails_t>),
}

pub struct InventoryState {
    pub results: HashMap<i32, InventoryResult>,
    pub definitions: Vec<ItemDefinition>,
    pub items: Vec<ItemInstance>,
    pub next_result_handle: i32,
}

impl InventoryState {
    pub open spec fn wf(&self) -> bool {
        &&& forall|h: i32| #[trigger]
            self.results@.contains_key(h) ==> self.results@[h].handle == h && 1 <= h
                < self.next_result_handle
        &&& self.next_result_handle >= 1
        &&& forall|i: int|
            0 <= i < self.definitions@.len() ==> #[trigger] self.definitions@[i].properties.wf()
                && utf8_bytes(self.definitions@[i].name@).len() < u32::MAX
                && utf8_bytes(self.definitions@[i].description@).len() < u32::MAX
                && utf8_bytes(self.definitions@[i].price@).len() < u32::MAX
                && forall|k: Seq<char>| #[trigger]
                self.definitions@[i].properties@.contains_key(k) ==> utf8_bytes(
                    self.definitions@[i].properties@[k]@,
                ).len() < u32::MAX
    }

    pub open spec fn results_view(&self) -> Map<i32, ResultView> {
        self.results@.map_values(|r: InventoryResult| ResultView { items: r.items@, status: r.status })
    }

    /// The first definition with id `def`.
    pub open spec fn definition(&self, def: i32) -> Option<ItemDefinition> {
        let ids = definition_ids(self.definitions@);
        if exists|i: int| 0 <= i < ids.len() && ids[i] == def {
            let i = choose|i: int|
                0 <= i < ids.len() && ids[i] == def && forall|j: int| 0 <= j < i ==> ids[j] != def;
            Some(self.definitions@[i])
        } else {
            None
        }
    }

    /// No items, no results, no definitions.
    pub fn new() -> (s: Self)
        ensures
            s.wf(),
            s.results_view() == Map::<i32, ResultView>::empty(),
            s.definitions@.len() == 0,
            s.items@.len() == 0,
            s.next_result_handle == 1,
    {
        let s = InventoryState {
            results: HashMap::new(),
            definitions: Vec::new(),
            items: Vec::new(),
            next_result_handle: 1,
        };
        assert(s.results_view() =~= Map::<i32, ResultView>::empty());
        s
    }

    /// Draws the next result handle from the counter.
    pub fn next_result_handle(&mut self) -> (h: i32)
        requires
            old(self).next_result_handle < i32::MAX,
        ensures
            h == old(self).next_result_handle,
            final(self).next_result_handle == h + 1,
            final(self).results == old(self).results,
            final(self).items == old(self).items,
            final(self).definitions == old(self).definitions,
    {
        let h = self.next_result_handle;
        self.next_result_handle = h + 1;
        h
    }

    /// Stores a result with `items` under a fresh handle.
    fn store_result(&mut self, items: Vec<SteamItemDetails_t>) -> (h: i32)
        requires
            old(self).wf(),
            old(self).next_result_handle < i32::MAX,
        ensures
            final(self).wf(),
            h == old(self).next_result_handle,
            !old(self).results_view().contains_key(h),
            final(self).next_result_handle == h + 1,
            final(self).results_view() == old(self).results_view().insert(
                h,
                ResultView { items: items@, status: RESULT_OK },
            ),
            final(self).items == old(self).items,
            final(self).definitions == old(self).definitions,
    {
        let h = self.next_result_handle();
        let ghost before = old(self).results_view();
        let ghost v = ResultView { items: items@, status: RESULT_OK };
        self.results.insert(h, InventoryResult { handle: h, items, status: RESULT_OK });
        assert(self.results_view() =~= before.insert(h, v));
        h
    }

    /// The status of result `h`; 0 when there is none.
    pub fn result_status(&self, h: i32) -> (r: i32)
        ensures
            r == (if self.results_view().contains_key(h) {
                self.results_view()[h].status
            } else {
                0
            }),
    {
        match self.results.get(&h) {
            Some(r) => r.status,
            None => 0,
        }
    }

    /// The items of result `h`: their number when no array is given, else
    /// as many as fit `available` slots.
    pub fn result_items(&self, h: i32, has_array: bool, available: u32) -> (r: Option<ResultItems>)
        ensures
            r is Some <==> self.results_view().contains_key(h),
            r is Some && !has_array ==> r == Some(
                ResultItems::Count(self.results_view()[h].items.len() as u32),
            ),
            r is Some && has_array ==> (r->Some_0 matches ResultItems::Items(v) && v@
                == self.results_view()[h].items.take(
                if (self.results_view()[h].items.len() as u32) < available {
                    (self.results_view()[h].items.len() as u32) as int
                } else {
                    available as int
                },
            )),
    {
        match self.results.get(&h) {
            Some(res) => {
                let count = res.items.len() as u32;
                if !has_array {
                    return Some(ResultItems::Count(count));
                }
                let to_copy: usize = if count < available {
                    count as usize
                } else {
                    available as usize
                };
                let mut out: Vec<SteamItemDetails_t> = Vec::new();
                let mut i: usize = 0;
                while i < to_copy
                    invariant
                        to_copy <= res.items@.len(),
                        i <= to_copy,
                        out@ == res.items@.take(i as int),
                    decreases to_copy - i,
                {
                    out.push(res.items[i]);
                    i = i + 1;
                    assert(out@ =~= res.items@.take(i as int));
                }
                Some(ResultItems::Items(out))
            },
            None => None,
        }
    }

    /// Whether result `h` exists (the answer of the steam-id check).
    pub fn has_result(&self, h: i32) -> (r: bool)
        ensures
            r == self.results_view().contains_key(h),
    {
        self.results.contains_key(&h)
    }

    pub fn destroy_result(&mut self, h: i32)
        requires
            old(self).wf(),
        ensures
            final(self).definitions == old(self).definitions,
            final(self).wf(),
            final(self).results_view() == old(self).results_view().remove(h),
            final(self).items == old(self).items,
            final(self).next_result_handle == old(self).next_result_handle,
    {
        let ghost before = self.results_view();
        self.results.remove(&h);
        assert(self.results_view() =~= before.remove(h));
    }

    /// The details of every item, as a result reports them.
    pub fn item_details(&self) -> (d: Vec<SteamItemDetails_t>)
        ensures
            d@ == details_of(self.items@),
    {
        let mut d: Vec<SteamItemDetails_t> = Vec::new();
        let mut i: usize = 0;
        while i < self.items.len()
            invariant
                i <= self.items@.len(),
                d@ == details_of(self.items@.take(i as int)),
            decreases self.items@.len() - i,
        {
            let it = self.items[i];
            d.push(SteamItemDetails_t { item_id: it.instance_id, definition: it.definition, quantity: it.quantity, flags: 0 });
            i = i + 1;
            assert(d@ =~= details_of(self.items@.take(i as int)));
        }
        assert(self.items@.take(self.items@.len() as int) =~= self.items@);
        d
    }

    /// A result listing every item.
    pub fn get_all_items(&mut self) -> (h: i32)
        requires
            old(self).wf(),
            old(self).next_result_handle < i32::MAX,
        ensures
            final(self).definitions == old(self).definitions,
            final(self).wf(),
            h == old(self).next_result_handle,
            final(self).next_result_handle == h + 1,
            final(self).results_view() == old(self).results_view().insert(
                h,
                ResultView { items: details_of(old(self).items@), status: RESULT_OK },
            ),
            final(self).items == old(self).items,
    {
        let d = self.item_details();
        self.store_result(d)
    }

    /// A result listing the items whose instance id is among `ids`.
    pub fn get_items_by_id(&mut self, ids: &[u64]) -> (h: i32)
        requires
            old(self).wf(),
            old(self).next_result_handle < i32::MAX,
        ensures
            final(self).definitions == old(self).definitions,
            final(self).wf(),
            h == old(self).next_result_handle,
            final(self).next_result_handle == h + 1,
            final(self).results_view() == old(self).results_view().insert(
                h,
                ResultView { items: details_of(items_with_ids(old(self).items@, ids@)), status: RESULT_OK },
            ),
            final(self).items == old(self).items,
    {
        let ghost p = |it: ItemInstance| ids@.contains(it.instance_id);
        let mut d: Vec<SteamItemDetails_t> = Vec::new();
        let mut i: usize = 0;
        while i < self.items.len()
            invariant
                i <= self.items@.len(),
                p == (|it: ItemInstance| ids@.contains(it.instance_id)),
                d@ == details_of(self.items@.take(i as int).filter(p)),
            decreases self.items@.len() - i,
        {
            let it = self.items[i];
            let wanted = slice_contains(ids, it.instance_id);
            proof {
                reveal_with_fuel(Seq::<_>::filter, 1);
                assert(self.items@.take(i + 1).drop_last() =~= self.items@.take(i as int));
            }
            if wanted {
                d.push(SteamItemDetails_t { item_id: it.instance_id, definition: it.definition, quantity: it.quantity, flags: 0 });
            }
            i = i + 1;
            assert(d@ =~= details_of(self.items@.take(i as int).filter(p)));
        }
        assert(self.items@.take(self.items@.len() as int) =~= self.items@);
        self.store_result(d)
    }

    /// Stores a result with the given items (those a serialized result was
    /// read back into).
    pub fn deserialize_result(&mut self, items: Vec<SteamItemDetails_t>) -> (h: i32)
        requires
            old(self).wf(),
            old(self).next_result_handle < i32::MAX,
        ensures
            final(self).definitions == old(self).definitions,
            final(self).wf(),
            h == old(self).next_result_handle,
            final(self).next_result_handle == h + 1,
            final(self).results_view() == old(self).results_view().insert(
                h,
                ResultView { items: items@, status: RESULT_OK },
            ),
            final(self).items == old(self).items,
    {
        self.store_result(items)
    }

    /// The items of result `h` (what a serialized result holds).
    pub fn result_snapshot(&self, h: i32) -> (r: Option<Vec<SteamItemDetails_t>>)
        ensures
            r is Some <==> self.results_view().contains_key(h),
            r matches Some(v) ==> v@ == self.results_view()[h].items,
    {
        match self.results.get(&h) {
            Some(res) => {
                let mut v: Vec<SteamItemDetails_t> = Vec::new();
                let mut i: usize = 0;
                while i < res.items.len()
                    invariant
                        i <= res.items@.len(),
                        v@ == res.items@.take(i as int),
                    decreases res.items@.len() - i,
                {
                    v.push(res.items[i]);
                    i = i + 1;
                    assert(v@ =~= res.items@.take(i as int));
                }
                assert(v@ =~= res.items@);
                Some(v)
            },
            None => None,
        }
    }

    /// Adds one item per (definition, quantity) pair, with the given instance
    /// ids, and stores a result listing the new items.
    pub fn generate_items_with_ids(&mut self, defs: &[i32], qtys: &[u32], ids: &[u64]) -> (h: i32)
        requires
            old(self).wf(),
            old(self).next_result_handle < i32::MAX,
            defs@.len() == qtys@.len(),
            defs@.len() == ids@.len(),
        ensures
            final(self).definitions == old(self).definitions,
            final(self).wf(),
            h == old(self).next_result_handle,
            final(self).next_result_handle == h + 1,
            final(self).items@ == old(self).items@ + generated(defs@, qtys@, ids@),
            final(self).results_view() == old(self).results_view().insert(
                h,
                ResultView { items: details_of(generated(defs@, qtys@, ids@)), status: RESULT_OK },
            ),
    {
        let mut new_items: Vec<SteamItemDetails_t> = Vec::new();
        let mut i: usize = 0;
        while i < defs.len()
            invariant
                i <= defs@.len(),
                defs@.len() == qtys@.len(),
                defs@.len() == ids@.len(),
                self.items@ == old(self).items@ + generated(defs@, qtys@, ids@).take(i as int),
                new_items@ == details_of(generated(defs@, qtys@, ids@).take(i as int)),
                self.wf(),
                self.results == old(self).results,
                self.next_result_handle == old(self).next_result_handle,
                self.definitions == old(self).definitions,
            decreases defs@.len() - i,
        {
            let it = ItemInstance { instance_id: ids[i], definition: defs[i], quantity: qtys[i] as u16 };
            self.items.push(it);
            new_items.push(SteamItemDetails_t { item_id: it.instance_id, definition: it.definition, quantity: it.quantity, flags: 0 });
            i = i + 1;
            assert(self.items@ =~= old(self).items@ + generated(defs@, qtys@, ids@).take(i as int));
            assert(new_items@ =~= details_of(generated(defs@, qtys@, ids@).take(i as int)));
        }
        assert(generated(defs@, qtys@, ids@).take(defs@.len() as int) =~= generated(defs@, qtys@, ids@));
        self.store_result(new_items)
    }

    /// Adds one item per (definition, quantity) pair, each with a random
    /// instance id, and stores a result listing the new items.
    pub fn generate_items(&mut self, defs: &[i32], qtys: &[u32]) -> (h: i32)
        requires
            old(self).wf(),
            old(self).next_result_handle < i32::MAX,
            defs@.len() == qtys@.len(),
        ensures
            final(self).definitions == old(self).definitions,
            final(self).wf(),
            h == old(self).next_result_handle,
            final(self).next_result_handle == h + 1,
            exists|ids: Seq<u64>| #![trigger generated(defs@, qtys@, ids)]
                ids.len() == defs@.len() && final(self).items@ == old(self).items@ + generated(defs@, qtys@, ids)
                    && final(self).results_view() == old(self).results_view().insert(
                    h,
                    ResultView { items: details_of(generated(defs@, qtys@, ids)), status: RESULT_OK },
                ),
    {
        let mut ids: Vec<u64> = Vec::new();
        let mut i: usize = 0;
        while i < defs.len()
            invariant
                i <= defs@.len(),
                ids@.len() == i,
            decreases defs@.len() - i,
        {
            ids.push(random_u64());
            i = i + 1;
        }
        self.generate_items_with_ids(defs, qtys, ids.as_slice())
    }

    /// Position of the first item with instance id `id`.
    fn find_item(&self, id: u64) -> (r: Option<usize>)
        ensures
            r is None <==> crate::lookup::first_index(instance_ids(self.items@), id) == -1,
            r matches Some(i) ==> i as int == crate::lookup::first_index(instance_ids(self.items@), id)
                && i < self.items@.len(),
    {
        let ghost ids = instance_ids(self.items@);
        let mut i: usize = 0;
        while i < self.items.len()
            invariant
                i <= self.items@.len(),
                ids == instance_ids(self.items@),
                forall|j: int| 0 <= j < i ==> ids[j] != id,
            decreases self.items@.len() - i,
        {
            if self.items[i].instance_id == id {
                proof {
                    assert(crate::lookup::is_first_index(ids, id, i as int));
                    crate::lookup::lemma_first_index_unique(ids, id, i as int);
                }
                return Some(i);
            }
            i = i + 1;
        }
        proof {
            crate::lookup::lemma_first_index_absent(ids, id);
        }
        None
    }

    /// Takes `qty` of the first item with id `id`, as `consumed` says;
    /// answers whether anything was taken.
    fn consume_step(&mut self, id: u64, qty: u32) -> (ok: bool)
        requires
            old(self).wf(),
        ensures
            final(self).wf(),
            ok == can_consume(old(self).items@, id, qty),
            final(self).items@ == consumed(old(self).items@, id, qty),
            final(self).results == old(self).results,
            final(self).next_result_handle == old(self).next_result_handle,
            final(self).definitions == old(self).definitions,
    {
        match self.find_item(id) {
            Some(i) => {
                let it = self.items[i];
                let q = qty as u16;
                if it.quantity >= q {
                    let left = it.quantity - q;
                    self.items.set(i, ItemInstance { quantity: left, ..it });
                    if left == 0 {
                        let ghost changed = self.items@;
                        let kept = retain_other_ids(&self.items, id);
                        self.items = kept;
                        assert(self.items@ == without_id(changed, id));
                    }
                    true
                } else {
                    false
                }
            },
            None => false,
        }
    }

    /// Consumes `qty` of item `id`; true (and the item is changed) only when
    /// it exists and holds at least that many. A result of all items is then
    /// due, which the caller draws with `get_all_items`.
    pub fn consume_item(&mut self, id: u64, qty: u32) -> (ok: bool)
        requires
            old(self).wf(),
        ensures
            final(self).definitions == old(self).definitions,
            final(self).wf(),
            ok == can_consume(old(self).items@, id, qty),
            final(self).items@ == consumed(old(self).items@, id, qty),
            final(self).results_view() == old(self).results_view(),
            final(self).next_result_handle == old(self).next_result_handle,
    {
        self.consume_step(id, qty)
    }

    /// Consumes each (id, quantity) pair of the destroy list in turn, then
    /// generates the new items with the given instance ids.
    pub fn exchange_items_with_ids(
        &mut self,
        gen_defs: &[i32],
        gen_qtys: &[u32],
        gen_ids: &[u64],
        destroy_ids: &[u64],
        destroy_qtys: &[u32],
    ) -> (h: i32)
        requires
            old(self).wf(),
            old(self).next_result_handle < i32::MAX,
            gen_defs@.len() == gen_qtys@.len(),
            gen_defs@.len() == gen_ids@.len(),
            destroy_ids@.len() == destroy_qtys@.len(),
        ensures
            final(self).definitions == old(self).definitions,
            final(self).wf(),
            h == old(self).next_result_handle,
            final(self).next_result_handle == h + 1,
            final(self).items@ == consumed_all(
                old(self).items@,
                destroy_ids@,
                destroy_qtys@,
                destroy_ids@.len(),
            ) + generated(gen_defs@, gen_qtys@, gen_ids@),
            final(self).results_view() == old(self).results_view().insert(
                h,
                ResultView { items: details_of(generated(gen_defs@, gen_qtys@, gen_ids@)), status: RESULT_OK },
            ),
    {
        let mut i: usize = 0;
        while i < destroy_ids.len()
            invariant
                i <= destroy_ids@.len(),
                destroy_ids@.len() == destroy_qtys@.len(),
                self.wf(),
                self.items@ == consumed_all(old(self).items@, destroy_ids@, destroy_qtys@, i as nat),
                self.results == old(self).results,
                self.next_result_handle == old(self).next_result_handle,
                self.definitions == old(self).definitions,
            decreases destroy_ids@.len() - i,
        {
            self.consume_step(destroy_ids[i], destroy_qtys[i]);
            i = i + 1;
        }
        self.generate_items_with_ids(gen_defs, gen_qtys, gen_ids)
    }

    /// Exchange with random instance ids for the generated items.
    pub fn exchange_items(
        &mut self,
        gen_defs: &[i32],
        gen_qtys: &[u32],
        destroy_ids: &[u64],
        destroy_qtys: &[u32],
    ) -> (h: i32)
        requires
            old(self).wf(),
            old(self).next_result_handle < i32::MAX,
            gen_defs@.len() == gen_qtys@.len(),
            destroy_ids@.len() == destroy_qtys@.len(),
        ensures
            final(self).definitions == old(self).definitions,
            final(self).wf(),
            h == old(self).next_result_handle,
            final(self).next_result_handle == h + 1,
            exists|ids: Seq<u64>| #![trigger generated(gen_defs@, gen_qtys@, ids)]
                ids.len() == gen_defs@.len() && final(self).items@ == consumed_all(
                    old(self).items@,
                    destroy_ids@,
                    destroy_qtys@,
                    destroy_ids@.len(),
                ) + generated(gen_defs@, gen_qtys@, ids) && final(self).results_view()
                    == old(self).results_view().insert(
                    h,
                    ResultView { items: details_of(generated(gen_defs@, gen_qtys@, ids)), status: RESULT_OK },
                ),
    {
        let mut ids: Vec<u64> = Vec::new();
        let mut i: usize = 0;
        while i < gen_defs.len()
            invariant
                i <= gen_defs@.len(),
                ids@.len() == i,
            decreases gen_defs@.len() - i,
        {
            ids.push(random_u64());
            i = i + 1;
        }
        self.exchange_items_with_ids(gen_defs, gen_qtys, ids.as_slice(), destroy_ids, destroy_qtys)
    }

    /// Moves `qty` (read as a 16-bit count) from item `source` to item `dest`:
    /// false, with nothing changed, when the source is missing or holds
    /// fewer; a missing destination loses the moved amount.
    pub fn transfer_item_quantity(&mut self, source: u64, qty: u32, dest: u64) -> (ok: bool)
        requires
            old(self).wf(),
            can_consume(old(self).items@, source, qty) && crate::lookup::first_index(
                instance_ids(old(self).items@),
                dest,
            ) >= 0 ==> ({
                let s = crate::lookup::first_index(instance_ids(old(self).items@), source);
                let d = crate::lookup::first_index(instance_ids(old(self).items@), dest);
                let after = (old(self).items@[s].quantity - (qty as u16)) as u16;
                let before_dest = if s == d {
                    after
                } else {
                    old(self).items@[d].quantity
                };
                before_dest + (qty as u16) <= u16::MAX
            }),
        ensures
            final(self).definitions == old(self).definitions,
            final(self).wf(),
            ok == can_consume(old(self).items@, source, qty),
            !ok ==> final(self).items@ == old(self).items@,
            ok ==> ({
                let s = crate::lookup::first_index(instance_ids(old(self).items@), source);
                let d = crate::lookup::first_index(instance_ids(old(self).items@), dest);
                let taken = old(self).items@.update(
                    s,
                    ItemInstance {
                        quantity: (old(self).items@[s].quantity - (qty as u16)) as u16,
                        ..old(self).items@[s]
                    },
                );
                final(self).items@ == if d >= 0 {
                    taken.update(
                        d,
                        ItemInstance { quantity: (taken[d].quantity + (qty as u16)) as u16, ..taken[d] },
                    )
                } else {
                    taken
                }
            }),
            final(self).results_view() == old(self).results_view(),
            final(self).next_result_handle == old(self).next_result_handle,
    {
        let q = qty as u16;
        match self.find_item(source) {
            Some(s) => {
                let it = self.items[s];
                if it.quantity < q {
                    return false;
                }
                self.items.set(s, ItemInstance { quantity: it.quantity - q, ..it });
                proof {
                    assert(instance_ids(self.items@) =~= instance_ids(old(self).items@));
                }
                match self.find_item(dest) {
                    Some(d) => {
                        let dt = self.items[d];
                        self.items.set(d, ItemInstance { quantity: dt.quantity + q, ..dt });
                    },
                    None => {},
                }
                true
            },
            None => false,
        }
    }

    /// Position of the first definition with id `def`.
    fn find_definition(&self, def: i32) -> (r: Option<usize>)
        ensures
            r is None <==> self.definition(def) is None,
            r matches Some(i) ==> i < self.definitions@.len() && self.definition(def) == Some(
                self.definitions@[i as int],
            ),
    {
        let ghost ids = definition_ids(self.definitions@);
        let mut i: usize = 0;
        while i < self.definitions.len()
            invariant
                i <= self.definitions@.len(),
                ids == definition_ids(self.definitions@),
                forall|j: int| 0 <= j < i ==> ids[j] != def,
            decreases self.definitions@.len() - i,
        {
            if self.definitions[i].item_def == def {
                proof {
                    let p = |k: int|
                        0 <= k < ids.len() && ids[k] == def && forall|j: int| 0 <= j < k ==> ids[j] != def;
                    assert(p(i as int));
                    let c = choose|k: int|
                        0 <= k < ids.len() && ids[k] == def && forall|j: int| 0 <= j < k ==> ids[j] != def;
                    assert(p(c));
                    if c < i {
                        assert(ids[c] != def);
                    }
                    if c > i {
                        assert(ids[i as int] != def);
                    }
                }
                return Some(i);
            }
            i = i + 1;
        }
        None
    }

    /// Property `name` of the definition of item number `index` of result
    /// `h`, by the size-or-copy protocol; none when any of them is missing.
    pub fn result_item_property(
        &self,
        h: i32,
        index: u32,
        name: &str,
        has_buffer: bool,
        buffer_size: u32,
    ) -> (r: Option<SizedCopy>)
        requires
            self.wf(),
        ensures
            r is Some <==> ({
                &&& self.results_view().contains_key(h)
                &&& index < self.results_view()[h].items.len()
                &&& self.definition(self.results_view()[h].items[index as int].definition) is Some
                &&& self.definition(
                    self.results_view()[h].items[index as int].definition,
                )->Some_0.properties@.contains_key(name@)
            }),
            r matches Some(c) ==> {
                let v = utf8_bytes(
                    self.definition(
                        self.results_view()[h].items[index as int].definition,
                    )->Some_0.properties@[name@]@,
                );
                &&& !has_buffer ==> c == SizedCopy::SizeReported((v.len() + 1) as u32)
                &&& has_buffer && buffer_size >= v.len() + 1 ==> (c matches SizedCopy::Copied(b, n) && b@
                    == v.push(0u8) && n == v.len() + 1)
                &&& has_buffer && buffer_size < v.len() + 1 ==> c == SizedCopy::TooSmall
            },
    {
        match self.results.get(&h) {
            Some(res) => {
                let i = index as usize;
                if i >= res.items.len() {
                    return None;
                }
                match self.find_definition(res.items[i].definition) {
                    Some(d) => {
                        let def = &self.definitions[d];
                        assert(def.properties.wf());
                        match def.properties.get(&String::from_str(name)) {
                            Some(v) => Some(sized_c_copy(string_bytes(v), has_buffer, buffer_size)),
                            None => None,
                        }
                    },
                    None => None,
                }
            },
            None => None,
        }
    }

    /// Property `name` of definition `def` ("name", "description" and
    /// "price" are the definition's own fields), by the size-or-copy protocol.
    pub fn definition_property(&self, def: i32, name: &str, has_buffer: bool, buffer_size: u32) -> (r: Option<SizedCopy>)
        requires
            self.wf(),
        ensures
            r is Some <==> (self.definition(def) is Some && (name@ == "name"@ || name@ == "description"@
                || name@ == "price"@ || self.definition(def)->Some_0.properties@.contains_key(name@))),
            r matches Some(c) ==> {
                let d = self.definition(def)->Some_0;
                let v = utf8_bytes(
                    if name@ == "name"@ {
                        d.name@
                    } else if name@ == "description"@ {
                        d.description@
                    } else if name@ == "price"@ {
                        d.price@
                    } else {
                        d.properties@[name@]@
                    },
                );
                &&& !has_buffer ==> c == SizedCopy::SizeReported((v.len() + 1) as u32)
                &&& has_buffer && buffer_size >= v.len() + 1 ==> (c matches SizedCopy::Copied(b, n) && b@
                    == v.push(0u8) && n == v.len() + 1)
                &&& has_buffer && buffer_size < v.len() + 1 ==> c == SizedCopy::TooSmall
            },
    {
        match self.find_definition(def) {
            Some(i) => {
                let d = &self.definitions[i];
                assert(d.properties.wf());
                let key = String::from_str(name);
                let name_key = String::from_str("name");
                let desc_key = String::from_str("description");
                let price_key = String::from_str("price");
                if key == name_key {
                    Some(sized_c_copy(string_bytes(&d.name), has_buffer, buffer_size))
                } else if key == desc_key {
                    Some(sized_c_copy(string_bytes(&d.description), has_buffer, buffer_size))
                } else if key == price_key {
                    Some(sized_c_copy(string_bytes(&d.price), has_buffer, buffer_size))
                } else {
                    match d.properties.get(&key) {
                        Some(v) => Some(sized_c_copy(string_bytes(v), has_buffer, buffer_size)),
                        None => None,
                    }
                }
            },
            None => None,
        }
    }

    /// The definition ids: their number when no array is given, else as many
    /// as fit `available` slots.
    pub fn definition_ids(&self, has_array: bool, available: u32) -> (r: Result<Vec<i32>, u32>)
        ensures
            !has_array ==> r == Err::<Vec<i32>, u32>(self.definitions@.len() as u32),
            has_array ==> (r matches Ok(v) && v@ == definition_ids(self.definitions@).take(
                if (self.definitions@.len() as u32) < available {
                    (self.definitions@.len() as u32) as int
                } else {
                    available as int
                },
            )),
    {
        let count = self.definitions.len() as u32;
        if !has_array {
            return Err(count);
        }
        let n: usize = if count < available {
            count as usize
        } else {
            available as usize
        };
        let mut v: Vec<i32> = Vec::new();
        let mut i: usize = 0;
        while i < n
            invariant
                n <= self.definitions@.len(),
                i <= n,
                v@ == definition_ids(self.definitions@).take(i as int),
            decreases n - i,
        {
            v.push(self.definitions[i].item_def);
            i = i + 1;
            assert(v@ =~= definition_ids(self.definitions@).take(i as int));
        }
        Ok(v)
    }

    /// The number of definitions with a price.
    pub fn num_items_with_prices(&self) -> (n: u32)
        ensures
            n == self.definitions@.len() as u32,
    {
        self.definitions.len() as u32
    }

    /// The first `array_length` definitions (or all) and their price, 100.
    pub fn items_with_prices(&self, array_length: u32) -> (r: Vec<(i32, u64, u64)>)
        ensures
            r@.len() == if self.definitions@.len() < array_length {
                self.definitions@.len()
            } else {
                array_length as nat
            },
            forall|i: int|
                0 <= i < r@.len() ==> #[trigger] r@[i] == (self.definitions@[i].item_def, ITEM_PRICE, ITEM_PRICE),
    {
        let n: usize = if self.definitions.len() < array_length as usize {
            self.definitions.len()
        } else {
            array_length as usize
        };
        let mut r: Vec<(i32, u64, u64)> = Vec::new();
        let mut i: usize = 0;
        while i < n
            invariant
                n <= self.definitions@.len(),
                n == if self.definitions@.len() < array_length {
                    self.definitions@.len()
                } else {
                    array_length as nat
                },
                i <= n,
                r@.len() == i,
                forall|j: int| 0 <= j < i ==> #[trigger] r@[j] == (self.definitions@[j].item_def, ITEM_PRICE, ITEM_PRICE),
            decreases n - i,
        {
            r.push((self.definitions[i].item_def, ITEM_PRICE, ITEM_PRICE));
            i = i + 1;
        }
        r
    }

    /// Starts a property update: its handle is drawn from the result counter.
    pub fn start_update_properties(&mut self) -> (h: u64)
        requires
            old(self).next_result_handle < i32::MAX,
        ensures
            h == old(self).next_result_handle as u64,
            final(self).next_result_handle == old(self).next_result_handle + 1,
            final(self).results == old(self).results,
            final(self).items == old(self).items,
            final(self).definitions == old(self).definitions,
    {
        let h = self.next_result_handle;
        self.next_result_handle = h + 1;
        h as u64
    }
}

/// Whether `ids` holds `id`.
pub fn slice_contains(ids: &[u64], id: u64) -> (r: bool)
    ensures
        r == ids@.contains(id),
{
    let mut i: usize = 0;
    while i < ids.len()
        invariant
            i <= ids@.len(),
            forall|j: int| 0 <= j < i ==> ids@[j] != id,
        decreases ids@.len() - i,
    {
        if ids[i] == id {
            assert(ids@[i as int] == id);
            return true;
        }
        i = i + 1;
    }
    false
}

/// The items that do not carry instance id `id`, in order.
pub fn retain_other_ids(items: &Vec<ItemInstance>, id: u64) -> (r: Vec<ItemInstance>)
    ensures
        r@ == without_id(items@, id),
{
    let ghost p = |it: ItemInstance| it.instance_id != id;
    let mut r: Vec<ItemInstance> = Vec::new();
    let mut i: usize = 0;
    while i < items.len()
        invariant
            i <= items@.len(),
            p == (|it: ItemInstance| it.instance_id != id),
            r@ == items@.take(i as int).filter(p),
        decreases items@.len() - i,
    {
        let it = items[i];
        proof {
            reveal_with_fuel(Seq::<_>::filter, 1);
            assert(items@.take(i + 1).drop_last() =~= items@.take(i as int));
        }
        if it.instance_id != id {
            r.push(it);
        }
        i = i + 1;
    }
    assert(items@.take(items@.len() as int) =~= items@);
    r
}

/// Consuming the whole quantity of an item leaves no item with its id;
/// consuming more than it holds, or an id the inventory lacks, changes
/// nothing.
pub proof fn lemma_consume_whole_quantity(items: Seq<ItemInstance>, id: u64, qty: u32)
    ensures
        ({
            let i = crate::lookup::first_index(instance_ids(items), id);
            i >= 0 && items[i].quantity == (qty as u16) ==> !instance_ids(consumed(items, id, qty)).contains(id)
        }),
        !can_consume(items, id, qty) ==> consumed(items, id, qty) == items,
{
    broadcast use vstd::seq_lib::group_filter_ensures;
    let i = crate::lookup::first_index(instance_ids(items), id);
    if i >= 0 && items[i].quantity == (qty as u16) {
        let changed = items.update(i, ItemInstance { quantity: 0u16, ..items[i] });
        let p = |it: ItemInstance| it.instance_id != id;
        let kept = changed.filter(p);
        assert(consumed(items, id, qty) == kept);
        if instance_ids(kept).contains(id) {
            let k = choose|k: int| 0 <= k < instance_ids(kept).len() && instance_ids(kept)[k] == id;
            assert(p(kept[k]));
        }
    }
}

/// What a by-id query reports: every item of the inventory whose instance id
/// was asked for appears in the result with its definition and quantity, and
/// every entry of the result is such an item, with its instance id among those
/// asked for and no flags. Membership goes by instance id.
pub proof fn lemma_items_by_id_result(items: Seq<ItemInstance>, ids: Seq<u64>)
    ensures
        ({
            let r = details_of(items_with_ids(items, ids));
            &&& forall|k: int|
                #![trigger r[k]]
                0 <= k < r.len() ==> {
                    &&& ids.contains(r[k].item_id)
                    &&& r[k].flags == 0
                    &&& exists|j: int|
                        0 <= j < items.len() && #[trigger] items[j].instance_id == r[k].item_id
                            && items[j].definition == r[k].definition && items[j].quantity
                            == r[k].quantity
                }
            &&& forall|j: int|
                #![trigger items[j]]
                0 <= j < items.len() && ids.contains(items[j].instance_id) ==> exists|k: int|
                    0 <= k < r.len() && #[trigger] r[k].item_id == items[j].instance_id
                        && r[k].definition == items[j].definition && r[k].quantity
                        == items[j].quantity
        }),
{
    broadcast use vstd::seq_lib::group_filter_ensures;
    let p = |it: ItemInstance| ids.contains(it.instance_id);
    let f = items.filter(p);
    let r = details_of(f);
    assert(f == items_with_ids(items, ids));
    assert forall|k: int| #![trigger r[k]] 0 <= k < r.len() implies {
        &&& ids.contains(r[k].item_id)
        &&& r[k].flags == 0
        &&& exists|j: int|
            0 <= j < items.len() && #[trigger] items[j].instance_id == r[k].item_id
                && items[j].definition == r[k].definition && items[j].quantity == r[k].quantity
    } by {
        assert(p(f[k]));
        assert(f.contains(f[k]));
        items.lemma_filter_contains_rev(p, f[k]);
        assert(items.contains(f[k]));
        let j = choose|j: int| 0 <= j < items.len() && items[j] == f[k];
        assert(items[j].instance_id == r[k].item_id);
    }
    assert forall|j: int| #![trigger items[j]] 0 <= j < items.len() && ids.contains(items[j].instance_id) implies exists|k: int|
        0 <= k < r.len() && #[trigger] r[k].item_id == items[j].instance_id && r[k].definition
            == items[j].definition && r[k].quantity == items[j].quantity by {
        items.lemma_filter_contains(p, j);
        assert(f.contains(items[j]));
        let k = choose|k: int| 0 <= k < f.len() && f[k] == items[j];
        assert(r[k].item_id == items[j].instance_id);
    }
}

/// Consuming part of an item lowers that item's quantity by the amount taken
/// and leaves it, and every other item, where it was; consuming all of it
/// removes every item with its id and keeps every other item.
pub proof fn lemma_consume_takes_from_one_item(items: Seq<ItemInstance>, id: u64, qty: u32)
    ensures
        ({
            let i = crate::lookup::first_index(instance_ids(items), id);
            let c = consumed(items, id, qty);
            &&& i >= 0 && items[i].quantity > (qty as u16) ==> {
                &&& c.len() == items.len()
                &&& c[i].instance_id == id
                &&& c[i].definition == items[i].definition
                &&& c[i].quantity == items[i].quantity - (qty as u16)
                &&& forall|j: int| 0 <= j < items.len() && j != i ==> #[trigger] c[j] == items[j]
            }
            &&& i >= 0 && items[i].quantity == (qty as u16) ==> forall|j: int|
                0 <= j < items.len() && #[trigger] items[j].instance_id != id ==> c.contains(items[j])
        }),
{
    broadcast use vstd::seq_lib::group_filter_ensures;
    let ids = instance_ids(items);
    let i = crate::lookup::first_index(ids, id);
    if i >= 0 {
        assert(crate::lookup::is_first_index(ids, id, i));
        assert(items[i].instance_id == id);
    }
    if i >= 0 && items[i].quantity == (qty as u16) {
        let changed = items.update(i, ItemInstance { quantity: 0u16, ..items[i] });
        let p = |it: ItemInstance| it.instance_id != id;
        assert forall|j: int| 0 <= j < items.len() && #[trigger] items[j].instance_id != id implies consumed(
            items,
            id,
            qty,
        ).contains(items[j]) by {
            assert(changed[j] == items[j]);
            changed.lemma_filter_contains(p, j);
        }
    }
}

} // verus!



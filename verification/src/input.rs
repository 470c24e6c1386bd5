//! The emulated ISteamInput interface: connected controllers and the
//! registries that give action sets and actions their handles.
use crate::strmap::StrMap;
use vstd::prelude::*;
use vstd::string::*;

verus! {

/// Names and the handles they were given: the n-th distinct name asked for
/// gets handle n.
pub struct ActionRegistry {
    pub handles: StrMap<u64>,
}

impl ActionRegistry {
    /// The handles given out are exactly 1 to the number of names, and no
    /// two names share one.
    pub open spec fn wf(&self) -> bool {
        &&& self.handles.wf()
        &&& forall|k: Seq<char>| #[trigger]
            self.handles@.contains_key(k) ==> 1 <= self.handles@[k] <= self.handles@.dom().len()
        &&& forall|a: Seq<char>, b: Seq<char>|
            self.handles@.contains_key(a) && self.handles@.contains_key(b) && a != b ==> #[trigger] self.handles@[a]
                != #[trigger] self.handles@[b]
    }

    pub open spec fn view(&self) -> Map<Seq<char>, u64> {
        self.handles@
    }

    pub fn new() -> (r: Self)
        ensures
            r.wf(),
            r@ == Map::<Seq<char>, u64>::empty(),
    {
        ActionRegistry { handles: StrMap::new() }
    }

    /// The handle of `name`: the one it already has, or else the number of
    /// names known so far plus one, which it keeps from then on.
    pub fn handle_for(&mut self, name: &str) -> (h: u64)
        requires
            old(self).wf(),
            old(self)@.dom().len() < u64::MAX,
        ensures
            final(self).wf(),
            old(self)@.contains_key(name@) ==> h == old(self)@[name@] && final(self)@ == old(self)@,
            !old(self)@.contains_key(name@) ==> h == old(self)@.dom().len() + 1 && final(self)@
                == old(self)@.insert(name@, h),
    {
        let key = String::from_str(name);
        match self.handles.get(&key) {
            Some(h) => *h,
            None => {
                let n = self.handles.len();
                let h = (n as u64) + 1;
                let ghost before = self.handles@;
                self.handles.insert(key, h);
                proof {
                    assert(self.handles@.dom() == before.dom().insert(name@));
                    assert(self.handles@.dom().len() == before.dom().len() + 1);
                    assert forall|k: Seq<char>| #[trigger]
                        self.handles@.contains_key(k) implies 1 <= self.handles@[k]
                        <= self.handles@.dom().len() by {
                        if k != name@ {
                            assert(before.contains_key(k));
                        }
                    }
                    assert forall|a: Seq<char>, b: Seq<char>|
                        self.handles@.contains_key(a) && self.handles@.contains_key(b) && a != b implies
                        #[trigger] self.handles@[a] != #[trigger] self.handles@[b] by {
                        if a != name@ && b != name@ {
                            assert(before[a] != before[b]);
                        } else if a == name@ {
                            assert(before.contains_key(b));
                            assert(before[b] <= before.dom().len());
                        } else {
                            assert(before.contains_key(a));
                            assert(before[a] <= before.dom().len());
                        }
                    }
                }
                h
            },
        }
    }
}

/// Two names known to a registry never share a handle.
pub proof fn lemma_action_handles_distinct(r: &ActionRegistry, a: Seq<char>, b: Seq<char>)
    requires
        r.wf(),
        r@.contains_key(a),
        r@.contains_key(b),
        a != b,
    ensures
        r@[a] != r@[b],
{
    assert(r.handles@[a] != r.handles@[b]);
}

pub struct InputState {
    pub controllers: Vec<u64>,
    pub action_sets: ActionRegistry,
    pub digital_actions: ActionRegistry,
    pub analog_actions: ActionRegistry,
    pub active_action_set: u64,
}

impl InputState {
    pub open spec fn wf(&self) -> bool {
        self.action_sets.wf() && self.digital_actions.wf() && self.analog_actions.wf()
    }

    /// One controller (handle 1), no actions, no active set.
    pub fn new() -> (s: Self)
        ensures
            s.wf(),
            s.controllers@ == seq![1u64],
            s.action_sets@ == Map::<Seq<char>, u64>::empty(),
            s.digital_actions@ == Map::<Seq<char>, u64>::empty(),
            s.analog_actions@ == Map::<Seq<char>, u64>::empty(),
            s.active_action_set == 0,
    {
        let mut controllers: Vec<u64> = Vec::new();
        controllers.push(1);
        assert(controllers@ =~= seq![1u64]);
        InputState {
            controllers,
            action_sets: ActionRegistry::new(),
            digital_actions: ActionRegistry::new(),
            analog_actions: ActionRegistry::new(),
            active_action_set: 0,
        }
    }

    /// Starts the input system with the one controller 1.
    pub fn init(&mut self) -> (ok: bool)
        ensures
            ok,
            final(self).controllers@ == seq![1u64],
            final(self).action_sets == old(self).action_sets,
            final(self).digital_actions == old(self).digital_actions,
            final(self).analog_actions == old(self).analog_actions,
            final(self).active_action_set == old(self).active_action_set,
    {
        let mut controllers: Vec<u64> = Vec::new();
        controllers.push(1);
        assert(controllers@ =~= seq![1u64]);
        self.controllers = controllers;
        true
    }

    /// Disconnects every controller.
    pub fn shutdown(&mut self) -> (ok: bool)
        ensures
            ok,
            final(self).controllers@ == Seq::<u64>::empty(),
            final(self).action_sets == old(self).action_sets,
            final(self).digital_actions == old(self).digital_actions,
            final(self).analog_actions == old(self).analog_actions,
            final(self).active_action_set == old(self).active_action_set,
    {
        self.controllers.clear();
        true
    }

    /// The handles of the connected controllers, in order.
    pub fn connected_controllers(&self) -> (r: Vec<u64>)
        ensures
            r@ == self.controllers@,
    {
        let mut r: Vec<u64> = Vec::new();
        let mut i: usize = 0;
        while i < self.controllers.len()
            invariant
                i <= self.controllers@.len(),
                r@ == self.controllers@.take(i as int),
            decreases self.controllers@.len() - i,
        {
            r.push(self.controllers[i]);
            i = i + 1;
            assert(r@ =~= self.controllers@.take(i as int));
        }
        assert(r@ =~= self.controllers@);
        r
    }

    /// The controller at gamepad position `index`; 0 when there is none.
    pub fn controller_for_gamepad_index(&self, index: i32) -> (h: u64)
        ensures
            h == (if (index as usize) < self.controllers@.len() {
                self.controllers@[index as usize as int]
            } else {
                0
            }),
    {
        let i = index as usize;
        if i < self.controllers.len() {
            self.controllers[i]
        } else {
            0
        }
    }

    /// The gamepad position of controller `handle`; -1 when it is not connected.
    pub fn gamepad_index_for_controller(&self, handle: u64) -> (r: i32)
        ensures
            r == (if crate::lookup::first_index(self.controllers@, handle) >= 0 {
                crate::lookup::first_index(self.controllers@, handle) as i32
            } else {
                -1i32
            }),
    {
        match crate::lookup::find_first(&self.controllers, handle) {
            Some(i) => i as i32,
            None => -1,
        }
    }

    pub fn activate_action_set(&mut self, handle: u64)
        ensures
            final(self).active_action_set == handle,
            final(self).controllers == old(self).controllers,
            final(self).action_sets == old(self).action_sets,
            final(self).digital_actions == old(self).digital_actions,
            final(self).analog_actions == old(self).analog_actions,
    {
        self.active_action_set = handle;
    }
}

/// The state of a digital action as the C API returns it.
#[derive(Clone, Copy, PartialEq, Eq, Structural)]
pub struct InputDigitalActionData_t {
    pub state: bool,
    pub active: bool,
}

/// The data of any digital action on any controller: active, not pressed.
pub fn digital_action_data(input_handle: u64, action_handle: u64) -> (d: InputDigitalActionData_t)
    ensures
        d == (InputDigitalActionData_t { state: false, active: true }),
{
    InputDigitalActionData_t { state: false, active: true }
}

} // verus!

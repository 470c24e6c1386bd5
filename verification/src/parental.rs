//! The emulated ISteamParentalSettings interface.
use vstd::prelude::*;

verus! {

pub struct ParentalSettings {
    pub enabled: bool,
    pub locked: bool,
    pub blocked_apps: Vec<u32>,
    pub blocked_features: Vec<i32>,
}

impl ParentalSettings {
    /// No parental lock, and nothing blocked.
    pub fn new() -> (s: Self)
        ensures
            !s.enabled,
            !s.locked,
            s.blocked_apps@ == Seq::<u32>::empty(),
            s.blocked_features@ == Seq::<i32>::empty(),
    {
        ParentalSettings { enabled: false, locked: false, blocked_apps: Vec::new(), blocked_features: Vec::new() }
    }

    /// Whether `app_id` is on the block list (also the answer for "in block list").
    pub fn is_app_blocked(&self, app_id: u32) -> (r: bool)
        ensures
            r == self.blocked_apps@.contains(app_id),
    {
        let mut i: usize = 0;
        while i < self.blocked_apps.len()
            invariant
                i <= self.blocked_apps@.len(),
                forall|j: int| 0 <= j < i ==> self.blocked_apps@[j] != app_id,
            decreases self.blocked_apps@.len() - i,
        {
            if self.blocked_apps[i] == app_id {
                assert(self.blocked_apps@[i as int] == app_id);
                return true;
            }
            i = i + 1;
        }
        false
    }

    /// Whether `feature` is on the block list (also the answer for "in block list").
    pub fn is_feature_blocked(&self, feature: i32) -> (r: bool)
        ensures
            r == self.blocked_features@.contains(feature),
    {
        let mut i: usize = 0;
        while i < self.blocked_features.len()
            invariant
                i <= self.blocked_features@.len(),
                forall|j: int| 0 <= j < i ==> self.blocked_features@[j] != feature,
            decreases self.blocked_features@.len() - i,
        {
            if self.blocked_features[i] == feature {
                assert(self.blocked_features@[i as int] == feature);
                return true;
            }
            i = i + 1;
        }
        false
    }
}

} // verus!

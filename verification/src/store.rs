//! The keyed store of expand states.
//!
//! One boolean per node identity says whether that node is expanded. The
//! store outlives the renders: a render creates the states of the nodes it
//! meets for the first time and reads those it finds.

use std::collections::HashMap;
use vstd::prelude::*;

verus! {

/// The state that `id` has in `states`, or `default` where it has none yet.
pub open spec fn state_or(states: Map<u64, bool>, id: u64, default: bool) -> bool {
    if states.contains_key(id) {
        states[id]
    } else {
        default
    }
}

/// The identities that count as expanded: those whose state is `true`, and,
/// where `default` is `true`, those that have no state yet.
pub open spec fn open_ids(states: Map<u64, bool>, default: bool) -> Set<u64> {
    Set::new(|id: u64| state_or(states, id, default))
}

/// `states` with a state for each of `ids`: the one it had, or `default`
/// where it had none.
pub open spec fn initialized(states: Map<u64, bool>, ids: Set<u64>, default: bool) -> Map<
    u64,
    bool,
> {
    Map::new(
        |id: u64| states.contains_key(id) || ids.contains(id),
        |id: u64| state_or(states, id, default),
    )
}

/// `states` with the state of `id` flipped; unchanged where `id` has none.
pub open spec fn toggled(states: Map<u64, bool>, id: u64) -> Map<u64, bool> {
    if states.contains_key(id) {
        states.insert(id, !states[id])
    } else {
        states
    }
}

/// Creating states destroys and changes none: every state that was there is
/// still there with its value, and the states that were added are those of
/// `ids` that had none, each the default.
pub proof fn lemma_initialized_keeps_states(states: Map<u64, bool>, ids: Set<u64>, default: bool)
    ensures
        ({
            let after = initialized(states, ids, default);
            &&& forall|id: u64|
                states.contains_key(id) ==> #[trigger] after.contains_key(id) && after[id]
                    == states[id]
            &&& forall|id: u64|
                !states.contains_key(id) && #[trigger] after.contains_key(id) ==> ids.contains(id)
                    && after[id] == default
        }),
{
}

/// A toggle flips the state of one identity and touches no other: every
/// identity has a state after it exactly if it had one before, that of `id`
/// is the opposite of what it was, and every other state is what it was.
pub proof fn lemma_toggle_flips_one(states: Map<u64, bool>, id: u64)
    ensures
        toggled(states, id).dom() == states.dom(),
        states.contains_key(id) ==> toggled(states, id)[id] == !states[id],
        forall|other: u64|
            other != id && states.contains_key(other) ==> #[trigger] toggled(states, id)[other]
                == states[other],
{
    assert(toggled(states, id).dom() =~= states.dom());
}

/// Two toggles of one identity restore the states exactly.
pub proof fn lemma_toggle_twice_restores(states: Map<u64, bool>, id: u64)
    ensures
        toggled(toggled(states, id), id) == states,
{
    assert(toggled(toggled(states, id), id) =~= states);
}

/// The expand states, keyed by node identity.
pub struct ExpandStore {
    states: HashMap<u64, bool>,
}

impl View for ExpandStore {
    type V = Map<u64, bool>;

    closed spec fn view(&self) -> Map<u64, bool> {
        self.states@
    }
}

impl ExpandStore {
    /// A store that holds no state.
    pub fn new() -> (store: ExpandStore)
        ensures
            store@ == Map::<u64, bool>::empty(),
    {
        ExpandStore { states: HashMap::new() }
    }

    /// The state of `id`, created as `default` where there was none.
    pub fn load_with_default(&mut self, id: u64, default: bool) -> (open: bool)
        ensures
            open == state_or(old(self)@, id, default),
            final(self)@ == old(self)@.insert(id, open),
    {
        let found: Option<bool> = self.is_open(id);
        match found {
            Some(open) => {
                assert(self@ =~= self@.insert(id, open));
                open
            },
            None => {
                self.states.insert(id, default);
                default
            },
        }
    }

    /// The state of `id`, if it has one.
    pub fn is_open(&self, id: u64) -> (open: Option<bool>)
        ensures
            open == (if self@.contains_key(id) {
                Some(self@[id])
            } else {
                None
            }),
    {
        match self.states.get(&id) {
            Some(open) => Some(*open),
            None => None,
        }
    }

    /// Flips the state of `id`. Every other state stays as it is, and an
    /// identity without a state gets none.
    pub fn toggle(&mut self, id: u64)
        ensures
            final(self)@ == toggled(old(self)@, id),
    {
        let found: Option<bool> = self.is_open(id);
        match found {
            Some(open) => {
                self.states.insert(id, !open);
            },
            None => {},
        }
    }
}

} // verus!

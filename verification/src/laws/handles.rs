//! Laws of the handles on a store and the sessions that they are in.

use crate::state::store::{SharedModel, StoreModel};
use vstd::prelude::*;

verus! {

/// A handle and its clones are always in the same session: where one goes, the
/// others go, and nothing that is stored changes.
pub proof fn law_clones_go_together(
    shared: SharedModel,
    store: StoreModel,
    clone: StoreModel,
    session_id: Seq<char>,
)
    requires
        shared.knows(store),
        clone.pointer == store.pointer,
    ensures
        shared.session(clone) == shared.session(store),
        ({
            let after = shared.adopted(store, session_id);
            &&& after.session(store) == session_id
            &&& after.session(clone) == session_id
            &&& after.db == shared.db
            &&& after.access == shared.access
        }),
{
}

/// A pinned handle stays in its session wherever the handle goes that it was
/// made from, and the other way round. Both work on the same tables.
pub proof fn law_pinned_handles_stay(
    shared: SharedModel,
    store: StoreModel,
    pinned: StoreModel,
    pinned_to: Seq<char>,
    session_id: Seq<char>,
)
    requires
        shared.knows(store),
        pinned.pointer == shared.entered.len(),
    ensures
        ({
            let both = shared.with_entered(pinned_to);
            &&& both.session(pinned) == pinned_to
            &&& both.session(store) == shared.session(store)
            &&& both.adopted(store, session_id).session(store) == session_id
            &&& both.adopted(store, session_id).session(pinned) == pinned_to
            &&& both.adopted(pinned, session_id).session(pinned) == session_id
            &&& both.adopted(pinned, session_id).session(store) == shared.session(store)
            &&& both.db == shared.db
            &&& both.access == shared.access
        }),
{
}

} // verus!

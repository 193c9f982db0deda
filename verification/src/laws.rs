//! Laws of the registration table, stated over the transition each operation
//! makes and proved from the operations' contracts alone.
//!
//! Each `*_step` predicate restates, as a relation between a pre-state and a
//! post-state, exactly what the `ensures` of the corresponding operation of
//! [`Registrations`] say; the proof functions below then relate several
//! operations to one another.

use crate::table::Registrations;
use vstd::prelude::*;

verus! {

/// One `register` step: `post` is the state after `register(value)` on `pre`
/// returned `id`, as the contract of [`Registrations::register`] describes it.
pub open spec fn register_step<T>(
    pre: Registrations<T>,
    post: Registrations<T>,
    id: u32,
    value: T,
) -> bool {
    &&& !pre.tracked_map().contains_key(id)
    &&& post.tracked_map() == pre.tracked_map().insert(id, value)
    &&& if pre.free_ids().len() > 0 {
        &&& id == pre.free_ids().last()
        &&& post.free_ids() == pre.free_ids().drop_last()
        &&& post.next_id() == pre.next_id()
    } else {
        &&& id as int == pre.next_id()
        &&& post.free_ids() == pre.free_ids()
        &&& post.next_id() == pre.next_id() + 1
    }
}

/// One `take` step: `post` is the state after `take(id)` on `pre` returned
/// `value`, as the contract of [`Registrations::take`] describes it.
pub open spec fn take_step<T>(
    pre: Registrations<T>,
    post: Registrations<T>,
    id: u32,
    value: T,
) -> bool {
    &&& pre.tracked_map().contains_key(id)
    &&& value == pre.tracked_map()[id]
    &&& post.tracked_map() == pre.tracked_map().remove(id)
    &&& post.free_ids() == pre.free_ids().push(id)
    &&& post.next_id() == pre.next_id()
}

/// One mutation step: `post` is the state after the caller obtained
/// `get_mut(id)` on `pre` and left `written` behind the returned reference,
/// as the contract of [`Registrations::get_mut`] describes it.
pub open spec fn mutate_step<T>(
    pre: Registrations<T>,
    post: Registrations<T>,
    id: u32,
    written: T,
) -> bool {
    &&& pre.tracked_map().contains_key(id)
    &&& post.tracked_map() == pre.tracked_map().insert(id, written)
    &&& post.free_ids() == pre.free_ids()
    &&& post.next_id() == pre.next_id()
}

/// Uniqueness: over any run of consecutive `register` steps, the identifiers
/// handed out are pairwise distinct.  `states` are the successive table
/// states, `ids[i]` and `values[i]` the identifier returned by and the value
/// stored by the step from `states[i]` to `states[i + 1]`.
pub proof fn lemma_register_ids_distinct<T>(
    states: Seq<Registrations<T>>,
    ids: Seq<u32>,
    values: Seq<T>,
)
    requires
        states.len() == ids.len() + 1,
        values.len() == ids.len(),
        forall|i: int|
            0 <= i < ids.len() ==> #[trigger] register_step(
                states[i],
                states[i + 1],
                ids[i],
                values[i],
            ),
    ensures
        forall|i: int, j: int| 0 <= i < j < ids.len() ==> ids[i] != ids[j],
{
    assert forall|i: int, j: int| 0 <= i < j < ids.len() implies ids[i] != ids[j] by {
        lemma_registered_id_stays_tracked(states, ids, values, i, j);
        assert(register_step(states[j], states[j + 1], ids[j], values[j]));
    }
}

/// Once `register` has handed out an identifier, every later state of a
/// register-only run still tracks it.
proof fn lemma_registered_id_stays_tracked<T>(
    states: Seq<Registrations<T>>,
    ids: Seq<u32>,
    values: Seq<T>,
    i: int,
    k: int,
)
    requires
        states.len() == ids.len() + 1,
        values.len() == ids.len(),
        forall|m: int|
            0 <= m < ids.len() ==> #[trigger] register_step(
                states[m],
                states[m + 1],
                ids[m],
                values[m],
            ),
        0 <= i < k <= ids.len(),
    ensures
        states[k].tracked_map().contains_key(ids[i]),
    decreases k - i,
{
    if k == i + 1 {
        assert(register_step(states[i], states[i + 1], ids[i], values[i]));
    } else {
        lemma_registered_id_stays_tracked(states, ids, values, i, k - 1);
        let m = k - 1;
        assert(register_step(states[m], states[m + 1], ids[m], values[m]));
    }
}

/// Round trip: registering a value and at once taking the returned identifier
/// hands the same value back, and the tracked map is as it was before.
pub proof fn lemma_round_trip<T>(
    s0: Registrations<T>,
    s1: Registrations<T>,
    s2: Registrations<T>,
    id: u32,
    registered: T,
    returned: T,
)
    requires
        register_step(s0, s1, id, registered),
        take_step(s1, s2, id, returned),
    ensures
        returned == registered,
        s2.tracked_map() == s0.tracked_map(),
{
    assert(s2.tracked_map() =~= s0.tracked_map());
}

/// Reuse: immediately after `take(id)`, the next `register` reissues `id`
/// itself, and the table then holds the newly registered value under it,
/// never the one that was taken out.
pub proof fn lemma_reuse_gets_new_value<T>(
    s0: Registrations<T>,
    s1: Registrations<T>,
    s2: Registrations<T>,
    id: u32,
    taken: T,
    reissued: u32,
    value: T,
)
    requires
        take_step(s0, s1, id, taken),
        register_step(s1, s2, reissued, value),
    ensures
        reissued == id,
        s2.tracked_map().contains_key(id),
        s2.tracked_map()[id] == value,
{
    assert(s1.free_ids().last() == id);
}

/// Mutation visibility: a value written through `get_mut(id)` is what the
/// table holds under `id` afterwards, and what a subsequent `take(id)`
/// returns.
pub proof fn lemma_mutation_visible<T>(
    s0: Registrations<T>,
    s1: Registrations<T>,
    s2: Registrations<T>,
    id: u32,
    written: T,
    returned: T,
)
    requires
        mutate_step(s0, s1, id, written),
        take_step(s1, s2, id, returned),
    ensures
        s1.tracked_map()[id] == written,
        returned == written,
{
}

} // verus!

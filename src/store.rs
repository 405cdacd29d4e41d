use vstd::prelude::*;

use crate::model::{User, WorkoutPlan};
use crate::table::Table;

verus! {

/// `k` holds a plan of user `user_id`, and no plan of that user has a lower key.
pub open spec fn is_first_plan_of(plans: Map<u64, WorkoutPlan>, user_id: u64, k: u64) -> bool {
    &&& plans.contains_key(k)
    &&& plans[k].user_id == user_id
    &&& forall|k2: u64|
        plans.contains_key(k2) && #[trigger] plans[k2].user_id == user_id ==> k <= k2
}

/// Some stored plan belongs to user `user_id`.
pub open spec fn has_plan(plans: Map<u64, WorkoutPlan>, user_id: u64) -> bool {
    exists|k: u64| plans.contains_key(k) && #[trigger] plans[k].user_id == user_id
}

/// The plan of user `user_id` with the lowest key, with that key.
pub open spec fn first_plan_of(plans: Map<u64, WorkoutPlan>, user_id: u64) -> Option<(u64, WorkoutPlan)> {
    if exists|k: u64| is_first_plan_of(plans, user_id, k) {
        let k = choose|k: u64| is_first_plan_of(plans, user_id, k);
        Some((k, plans[k]))
    } else {
        None
    }
}

/// The user stored under `id`, if any.
pub open spec fn user_at(users: Map<u64, User>, id: u64) -> Option<User> {
    if users.contains_key(id) {
        Some(users[id])
    } else {
        None
    }
}

/// At most one key is the first plan of a user.
pub proof fn lemma_first_plan_unique(plans: Map<u64, WorkoutPlan>, user_id: u64, k1: u64, k2: u64)
    requires
        is_first_plan_of(plans, user_id, k1),
        is_first_plan_of(plans, user_id, k2),
    ensures
        k1 == k2,
{
    assert(plans[k2].user_id == user_id);
    assert(plans[k1].user_id == user_id);
}

/// A key that is the first plan of a user is what `first_plan_of` picks.
pub proof fn lemma_first_plan_of(plans: Map<u64, WorkoutPlan>, user_id: u64, k: u64)
    requires
        is_first_plan_of(plans, user_id, k),
    ensures
        first_plan_of(plans, user_id) == Some((k, plans[k])),
        has_plan(plans, user_id),
{
    let c = choose|c: u64| is_first_plan_of(plans, user_id, c);
    lemma_first_plan_unique(plans, user_id, c, k);
}

/// Where no plan belongs to the user, `first_plan_of` finds none.
pub proof fn lemma_no_plan(plans: Map<u64, WorkoutPlan>, user_id: u64)
    requires
        !has_plan(plans, user_id),
    ensures
        first_plan_of(plans, user_id) == None::<(u64, WorkoutPlan)>,
{
    if exists|k: u64| is_first_plan_of(plans, user_id, k) {
        let k = choose|k: u64| is_first_plan_of(plans, user_id, k);
        assert(plans.contains_key(k) && plans[k].user_id == user_id);
    }
}

/// Where no key is the first plan of the user, no plan belongs to the user.
pub proof fn lemma_first_plan_exists(plans: Map<u64, WorkoutPlan>, user_id: u64)
    requires
        first_plan_of(plans, user_id) == None::<(u64, WorkoutPlan)>,
        forall|k1: u64, k2: u64|
            plans.contains_key(k1) && plans.contains_key(k2) && #[trigger] plans[k1].user_id
                == #[trigger] plans[k2].user_id ==> k1 == k2,
    ensures
        !has_plan(plans, user_id),
{
    if has_plan(plans, user_id) {
        let k = choose|k: u64| plans.contains_key(k) && #[trigger] plans[k].user_id == user_id;
        assert forall|k2: u64| plans.contains_key(k2) && #[trigger] plans[k2].user_id == user_id implies k <= k2 by {
            assert(k == k2);
        }
        assert(is_first_plan_of(plans, user_id, k));
    }
}

/// Scans the plans in ascending key order for the first one of user `user_id`.
pub fn _get_workout(plans: &Table<WorkoutPlan>, user_id: &u64) -> (r: Option<(u64, WorkoutPlan)>)
    requires
        plans.wf(),
    ensures
        r == first_plan_of(plans@, *user_id),
        r.is_some() == has_plan(plans@, *user_id),
{
    let mut i: usize = 0;
    while i < plans.len()
        invariant
            plans.wf(),
            i <= plans.entry_seq().len(),
            forall|j: int| 0 <= j < i ==> #[trigger] plans.entry_seq()[j].1.user_id != *user_id,
        decreases plans.entry_seq().len() - i,
    {
        let e = plans.entry(i);
        if e.1.user_id == *user_id {
            proof {
                assert(plans@.contains_key(plans.entry_seq()[i as int].0));
                assert forall|k2: u64| plans@.contains_key(k2) && #[trigger] plans@[k2].user_id == *user_id implies e.0 <= k2 by {
                    let j = choose|j: int| 0 <= j < plans.entry_seq().len() && #[trigger] plans.entry_seq()[j].0 == k2;
                    assert(plans@.contains_key(plans.entry_seq()[j].0));
                    if j < i {
                        assert(plans.entry_seq()[j].1.user_id != *user_id);
                    } else if j > i {
                        assert(plans.entry_seq()[i as int].0 < plans.entry_seq()[j].0);
                    }
                }
                lemma_first_plan_of(plans@, *user_id, e.0);
            }
            return Some((e.0, e.1));
        }
        i = i + 1;
    }
    proof {
        assert forall|k: u64| plans@.contains_key(k) implies #[trigger] plans@[k].user_id != *user_id by {
            let j = choose|j: int| 0 <= j < plans.entry_seq().len() && #[trigger] plans.entry_seq()[j].0 == k;
            assert(plans@.contains_key(plans.entry_seq()[j].0));
            assert(plans.entry_seq()[j].1.user_id != *user_id);
        }
        lemma_no_plan(plans@, *user_id);
    }
    None
}

/// Whether user `user_id` has a stored plan.
pub fn check_user_wp(plans: &Table<WorkoutPlan>, user_id: u64) -> (r: bool)
    requires
        plans.wf(),
    ensures
        r == has_plan(plans@, user_id),
{
    match _get_workout(plans, &user_id) {
        Some((_i, _wp)) => true,
        None => false,
    }
}

/// A copy of the user stored under `id`, if any.
pub fn _get_user(users: &Table<User>, id: &u64) -> (r: Option<User>)
    requires
        users.wf(),
    ensures
        r == user_at(users@, *id),
{
    match users.get(*id) {
        Some(u) => Some(u.duplicate()),
        None => None,
    }
}

/// Stores `user` under its own id.
pub fn do_insert_user(users: &mut Table<User>, user: &User)
    requires
        old(users).wf(),
    ensures
        final(users).wf(),
        final(users)@ == old(users)@.insert(user.id, *user),
{
    users.insert(user.id, user.duplicate());
}

/// Stores `wp` under its own id.
pub fn do_insert_wp(plans: &mut Table<WorkoutPlan>, wp: &WorkoutPlan)
    requires
        old(plans).wf(),
    ensures
        final(plans).wf(),
        final(plans)@ == old(plans)@.insert(wp.id, *wp),
{
    plans.insert(wp.id, *wp);
}

} // verus!

use vstd::prelude::*;

use crate::model::{
    Entity, Error, User, UserPayload, UserUpdatePayload, WorkoutPlan, WorkoutPlanUpdatePayload,
};
use crate::service::{
    add_user_spec, delete_plan_spec, delete_user_spec, generate_spec, get_plan_spec,
    get_user_spec, keyed_plans, keyed_users, lists_user, plans_in_order, update_plan_spec,
    update_user_spec, users_in_order, valid_snapshot, StateView,
};
use crate::store::{first_plan_of, has_plan, is_first_plan_of, lemma_first_plan_exists, lemma_first_plan_of, lemma_no_plan};

verus! {

/// A new user's id is above every id handed out before: above the user
/// counter, which no stored user id exceeds, and so above every stored id;
/// the counter then stands at the new id.
pub proof fn lemma_add_user_fresh_id(s: StateView, caller: String, payload: UserPayload, now: u64)
    requires
        s.wf(),
        s.user_counter < u64::MAX,
    ensures
        add_user_spec(s, caller, payload, now).1.id > s.user_counter,
        forall|k: u64| s.users.contains_key(k) ==> k < add_user_spec(s, caller, payload, now).1.id,
        add_user_spec(s, caller, payload, now).0.user_counter == add_user_spec(s, caller, payload, now).1.id,
        add_user_spec(s, caller, payload, now).0.wf(),
{
    let (s2, u) = add_user_spec(s, caller, payload, now);
    assert forall|k: u64| #[trigger] s2.plans.contains_key(k) implies s2.users.contains_key(s2.plans[k].user_id) by {
        assert(s.plans.contains_key(k));
    }
}

/// An update changes only the fields its payload holds (and the update
/// stamp); the id, owner and creation time stay.
pub proof fn lemma_update_keeps_unspecified(s: StateView, caller: Seq<char>, id: u64, p: UserUpdatePayload, now: u64)
    requires
        s.wf(),
    ensures
        update_user_spec(s, caller, id, p, now).1 matches Ok(u) ==> {
            &&& u.id == s.users[id].id
            &&& u.user_principal == s.users[id].user_principal
            &&& u.created_at == s.users[id].created_at
            &&& p.name is None ==> u.name == s.users[id].name
            &&& p.weight is None ==> u.weight == s.users[id].weight
            &&& p.height is None ==> u.height == s.users[id].height
            &&& p.age is None ==> u.age == s.users[id].age
        },
{
}

/// Generating a plan twice: the second attempt is refused with `Exists` and
/// changes nothing, and the plan then looked up for the user is the one the
/// first attempt returned.
pub proof fn lemma_generate_twice(s: StateView, caller: Seq<char>, user_id: u64, t1: u64, t2: u64)
    requires
        s.wf(),
    ensures
        generate_spec(s, caller, user_id, t1).1 is Ok ==> {
            let s1 = generate_spec(s, caller, user_id, t1).0;
            &&& generate_spec(s1, caller, user_id, t2) == (s1, Err::<WorkoutPlan, Error>(Error::Exists { user_id }))
            &&& get_plan_spec(s1, user_id) == generate_spec(s, caller, user_id, t1).1
        },
{
    let (s1, r1) = generate_spec(s, caller, user_id, t1);
    if r1 is Ok {
        let wp = r1.unwrap();
        assert(!has_plan(s.plans, user_id));
        assert(s1.plans.contains_key(wp.id) && s1.plans[wp.id].user_id == user_id);
        assert forall|k2: u64| s1.plans.contains_key(k2) && #[trigger] s1.plans[k2].user_id == user_id implies wp.id <= k2 by {
            if k2 != wp.id {
                assert(s.plans.contains_key(k2) && s.plans[k2].user_id == user_id);
            }
        }
        assert(is_first_plan_of(s1.plans, user_id, wp.id));
        lemma_first_plan_of(s1.plans, user_id, wp.id);
    }
}

/// Deleting a user also deletes its plan: afterwards neither the user nor a
/// plan of the user is found.
pub proof fn lemma_delete_user_cascades(s: StateView, caller: Seq<char>, id: u64)
    requires
        s.wf(),
    ensures
        delete_user_spec(s, caller, id).1 is Ok ==> {
            let s2 = delete_user_spec(s, caller, id).0;
            &&& get_plan_spec(s2, id) == Err::<WorkoutPlan, Error>(Error::NotFound { entity: Entity::WorkoutPlan, id })
            &&& get_user_spec(s2, id) == Err::<User, Error>(Error::NotFound { entity: Entity::User, id })
        },
{
    let (s2, r) = delete_user_spec(s, caller, id);
    if r is Ok {
        assert forall|k: u64| s2.plans.contains_key(k) implies #[trigger] s2.plans[k].user_id != id by {
            if let Some((k0, _wp)) = first_plan_of(s.plans, id) {
                assert(s.plans.contains_key(k0) && s.plans[k0].user_id == id);
                assert(s.plans.contains_key(k));
            } else {
                lemma_first_plan_exists(s.plans, id);
                assert(s.plans.contains_key(k));
            }
        }
        lemma_no_plan(s2.plans, id);
    }
}

/// A caller who does not own user `id` is refused with `Forbidden` by every
/// change to that user or its plan, and nothing changes.
pub proof fn lemma_foreign_caller_forbidden(
    s: StateView,
    caller: Seq<char>,
    id: u64,
    p: UserUpdatePayload,
    now: u64,
)
    requires
        s.wf(),
        s.users.contains_key(id),
        s.users[id].user_principal@ != caller,
    ensures
        update_user_spec(s, caller, id, p, now) == (s, Err::<User, Error>(Error::Forbidden { user_id: id })),
        delete_user_spec(s, caller, id) == (s, Err::<User, Error>(Error::Forbidden { user_id: id })),
        generate_spec(s, caller, id, now) == (s, Err::<WorkoutPlan, Error>(Error::Forbidden { user_id: id })),
{
}

/// A caller who does not own the user of plan `plan_id` is refused with
/// `Forbidden` by an update or a deletion of that plan, and nothing changes.
pub proof fn lemma_foreign_caller_forbidden_plan(
    s: StateView,
    caller: Seq<char>,
    plan_id: u64,
    p: WorkoutPlanUpdatePayload,
    now: u64,
)
    requires
        s.wf(),
        s.plans.contains_key(plan_id),
        s.users[s.plans[plan_id].user_id].user_principal@ != caller,
    ensures
        update_plan_spec(s, caller, plan_id, p, now) == (s, Err::<WorkoutPlan, Error>(Error::Forbidden { user_id: s.plans[plan_id].user_id })),
        delete_plan_spec(s, caller, plan_id) == (s, Err::<WorkoutPlan, Error>(Error::Forbidden { user_id: s.plans[plan_id].user_id })),
{
    assert(s.users.contains_key(s.plans[plan_id].user_id));
}

/// The records of a store, listed in id order with its counters, can be
/// restored, and a restore from them holds the same tables.
pub proof fn lemma_snapshot_round_trip(s: StateView, us: Seq<User>, ps: Seq<WorkoutPlan>, users: Map<u64, User>, plans: Map<u64, WorkoutPlan>)
    requires
        s.wf(),
        users_in_order(s.users, us),
        plans_in_order(s.plans, ps),
        keyed_users(users, us),
        keyed_plans(plans, ps),
    ensures
        valid_snapshot(us, ps, s.user_counter, s.plan_counter),
        users == s.users,
        plans == s.plans,
{
    assert forall|i: int| 0 <= i < us.len() implies #[trigger] us[i].id <= s.user_counter by {
        assert(s.users.contains_key(us[i].id));
    }
    assert forall|i: int| 0 <= i < ps.len() implies #[trigger] ps[i].id <= s.plan_counter by {
        assert(s.plans.contains_key(ps[i].id));
    }
    assert forall|i: int| 0 <= i < ps.len() implies lists_user(us, #[trigger] ps[i].user_id) by {
        assert(s.plans.contains_key(ps[i].id));
        assert(s.users.contains_key(s.plans[ps[i].id].user_id));
    }
    assert forall|i: int, j: int| 0 <= i < j < ps.len() implies #[trigger] ps[i].user_id != #[trigger] ps[j].user_id by {
        assert(s.plans.contains_key(ps[i].id));
        assert(s.plans.contains_key(ps[j].id));
    }
    assert forall|k: u64| #[trigger] users.contains_key(k) == s.users.contains_key(k) by {
    }
    assert forall|k: u64| users.contains_key(k) implies #[trigger] users[k] == s.users[k] by {
        let i = choose|i: int| 0 <= i < us.len() && #[trigger] us[i].id == k;
    }
    assert(users =~= s.users);
    assert forall|k: u64| #[trigger] plans.contains_key(k) == s.plans.contains_key(k) by {
    }
    assert forall|k: u64| plans.contains_key(k) implies #[trigger] plans[k] == s.plans[k] by {
        let i = choose|i: int| 0 <= i < ps.len() && #[trigger] ps[i].id == k;
    }
    assert(plans =~= s.plans);
}

/// Only `add_user` moves the user counter, and it moves it up to the id it
/// hands out; every other operation leaves it where it was. So once a user
/// has been given id `n`, every later user gets an id above `n`, whether or
/// not the first user still exists.
pub proof fn lemma_user_counter_only_rises(
    s: StateView,
    owner: String,
    caller: Seq<char>,
    user_id: u64,
    plan_id: u64,
    payload: UserPayload,
    up: UserUpdatePayload,
    pp: WorkoutPlanUpdatePayload,
    now: u64,
)
    requires
        s.wf(),
    ensures
        update_user_spec(s, caller, user_id, up, now).0.user_counter == s.user_counter,
        delete_user_spec(s, caller, user_id).0.user_counter == s.user_counter,
        generate_spec(s, caller, user_id, now).0.user_counter == s.user_counter,
        update_plan_spec(s, caller, plan_id, pp, now).0.user_counter == s.user_counter,
        delete_plan_spec(s, caller, plan_id).0.user_counter == s.user_counter,
        s.user_counter < u64::MAX ==> {
            &&& add_user_spec(s, owner, payload, now).0.user_counter == add_user_spec(s, owner, payload, now).1.id
            &&& add_user_spec(s, owner, payload, now).1.id > s.user_counter
        },
{
}

} // verus!

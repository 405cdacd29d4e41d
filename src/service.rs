use vstd::prelude::*;

use crate::counter::Counter;
use crate::model::{
    Entity, Error, User, UserPayload, UserUpdatePayload, WorkoutPlan, WorkoutPlanUpdatePayload,
};
use crate::plan::{_gen_wp, derived_payload};
use crate::store::{
    _get_user, _get_workout, check_user_wp, do_insert_user, do_insert_wp, first_plan_of, has_plan,
    lemma_first_plan_exists, lemma_no_plan,
};
use crate::table::Table;

verus! {

/// The abstract state of the store: both tables and the last identifier each
/// counter handed out.
pub struct StateView {
    pub users: Map<u64, User>,
    pub plans: Map<u64, WorkoutPlan>,
    pub user_counter: u64,
    pub plan_counter: u64,
}

impl StateView {
    /// Each record is stored under its own id, no id is above its counter,
    /// each plan belongs to a stored user, and no user has two plans.
    pub open spec fn wf(self) -> bool {
        &&& forall|k: u64| #[trigger]
            self.users.contains_key(k) ==> self.users[k].id == k && k <= self.user_counter
        &&& forall|k: u64| #[trigger]
            self.plans.contains_key(k) ==> {
                &&& self.plans[k].id == k
                &&& k <= self.plan_counter
                &&& self.users.contains_key(self.plans[k].user_id)
            }
        &&& forall|k1: u64, k2: u64|
            self.plans.contains_key(k1) && self.plans.contains_key(k2) && #[trigger] self.plans[k1].user_id
                == #[trigger] self.plans[k2].user_id ==> k1 == k2
    }

    /// This state with the user table replaced.
    pub open spec fn with_users(self, users: Map<u64, User>) -> StateView {
        StateView { users, plans: self.plans, user_counter: self.user_counter, plan_counter: self.plan_counter }
    }

    /// This state with the plan table replaced.
    pub open spec fn with_plans(self, plans: Map<u64, WorkoutPlan>) -> StateView {
        StateView { users: self.users, plans, user_counter: self.user_counter, plan_counter: self.plan_counter }
    }
}

/// Whether `caller` may act for user `user_id`.
pub open spec fn caller_check(s: StateView, caller: Seq<char>, user_id: u64) -> Result<(), Error> {
    if !s.users.contains_key(user_id) {
        Err(Error::NotFound { entity: Entity::User, id: user_id })
    } else if s.users[user_id].user_principal@ != caller {
        Err(Error::Forbidden { user_id })
    } else {
        Ok(())
    }
}

/// What `get_user` returns.
pub open spec fn get_user_spec(s: StateView, id: u64) -> Result<User, Error> {
    if s.users.contains_key(id) {
        Ok(s.users[id])
    } else {
        Err(Error::NotFound { entity: Entity::User, id })
    }
}

/// The user that `add_user` creates: the next id, owned by the caller.
pub open spec fn new_user(s: StateView, caller: String, payload: UserPayload, now: u64) -> User {
    User {
        id: (s.user_counter + 1) as u64,
        user_principal: caller,
        name: payload.name,
        weight: payload.weight,
        height: payload.height,
        age: payload.age,
        created_at: now,
        updated_at: None,
    }
}

/// The state after `add_user`, and the user it creates.
pub open spec fn add_user_spec(s: StateView, caller: String, payload: UserPayload, now: u64) -> (StateView, User) {
    let u = new_user(s, caller, payload, now);
    (
        StateView {
            users: s.users.insert(u.id, u),
            plans: s.plans,
            user_counter: u.id,
            plan_counter: s.plan_counter,
        },
        u,
    )
}

/// `u` with the fields present in `p` replaced, stamped as updated at `now`.
pub open spec fn updated_user(u: User, p: UserUpdatePayload, now: u64) -> User {
    User {
        id: u.id,
        user_principal: u.user_principal,
        name: match p.name {
            Some(n) => n,
            None => u.name,
        },
        weight: match p.weight {
            Some(w) => w,
            None => u.weight,
        },
        height: match p.height {
            Some(h) => h,
            None => u.height,
        },
        age: match p.age {
            Some(a) => a,
            None => u.age,
        },
        created_at: u.created_at,
        updated_at: Some(now),
    }
}

/// The state after `update_user`, and what it returns.
pub open spec fn update_user_spec(
    s: StateView,
    caller: Seq<char>,
    id: u64,
    p: UserUpdatePayload,
    now: u64,
) -> (StateView, Result<User, Error>) {
    match caller_check(s, caller, id) {
        Err(e) => (s, Err(e)),
        Ok(_) => {
            let u = updated_user(s.users[id], p, now);
            (s.with_users(s.users.insert(id, u)), Ok(u))
        },
    }
}

/// Deleting a user also deletes the user's plan.
pub open spec fn delete_user_spec(s: StateView, caller: Seq<char>, id: u64) -> (StateView, Result<User, Error>) {
    match caller_check(s, caller, id) {
        Err(e) => (s, Err(e)),
        Ok(_) => {
            let plans = match first_plan_of(s.plans, id) {
                Some((k, _wp)) => s.plans.remove(k),
                None => s.plans,
            };
            (
                StateView {
                    users: s.users.remove(id),
                    plans,
                    user_counter: s.user_counter,
                    plan_counter: s.plan_counter,
                },
                Ok(s.users[id]),
            )
        },
    }
}

/// The plan that generation stores for user `user_id` under the next plan id.
pub open spec fn new_plan(s: StateView, user_id: u64, now: u64) -> WorkoutPlan {
    let d = derived_payload(s.users[user_id]);
    WorkoutPlan {
        id: (s.plan_counter + 1) as u64,
        user_id,
        push_ups: d.push_ups,
        sit_ups: d.sit_ups,
        running_time: d.running_time,
        created_at: now,
        updated_at: None,
    }
}

/// Whether `generate_workout_plan` gets as far as taking a new plan id: the
/// caller owns the user and the user has no plan.
pub open spec fn allocates_plan(s: StateView, caller: Seq<char>, user_id: u64) -> bool {
    caller_check(s, caller, user_id) is Ok && !has_plan(s.plans, user_id)
}

/// The state after `generate_workout_plan`, and what it returns: the
/// ownership check comes first, then the check for an existing plan.
pub open spec fn generate_spec(s: StateView, caller: Seq<char>, user_id: u64, now: u64) -> (StateView, Result<WorkoutPlan, Error>) {
    match caller_check(s, caller, user_id) {
        Err(e) => (s, Err(e)),
        Ok(_) => if has_plan(s.plans, user_id) {
            (s, Err(Error::Exists { user_id }))
        } else {
            let wp = new_plan(s, user_id, now);
            (
                StateView {
                    users: s.users,
                    plans: s.plans.insert(wp.id, wp),
                    user_counter: s.user_counter,
                    plan_counter: wp.id,
                },
                Ok(wp),
            )
        },
    }
}

/// What `get_user_workout_plan` returns: the user's plan with the lowest key.
pub open spec fn get_plan_spec(s: StateView, user_id: u64) -> Result<WorkoutPlan, Error> {
    match first_plan_of(s.plans, user_id) {
        Some((_k, wp)) => Ok(wp),
        None => Err(Error::NotFound { entity: Entity::WorkoutPlan, id: user_id }),
    }
}

/// `wp` with the intensity fields present in `p` replaced, stamped as
/// updated at `now`.
pub open spec fn updated_plan(wp: WorkoutPlan, p: WorkoutPlanUpdatePayload, now: u64) -> WorkoutPlan {
    WorkoutPlan {
        id: wp.id,
        user_id: wp.user_id,
        push_ups: match p.push_ups {
            Some(v) => v,
            None => wp.push_ups,
        },
        sit_ups: match p.sit_ups {
            Some(v) => v,
            None => wp.sit_ups,
        },
        running_time: match p.running_time {
            Some(v) => v,
            None => wp.running_time,
        },
        created_at: wp.created_at,
        updated_at: Some(now),
    }
}

/// The state after `update_user_workout_plan`, and what it returns.
pub open spec fn update_plan_spec(
    s: StateView,
    caller: Seq<char>,
    plan_id: u64,
    p: WorkoutPlanUpdatePayload,
    now: u64,
) -> (StateView, Result<WorkoutPlan, Error>) {
    if !s.plans.contains_key(plan_id) {
        (s, Err(Error::NotFound { entity: Entity::WorkoutPlan, id: plan_id }))
    } else {
        match caller_check(s, caller, s.plans[plan_id].user_id) {
            Err(e) => (s, Err(e)),
            Ok(_) => {
                let wp = updated_plan(s.plans[plan_id], p, now);
                (s.with_plans(s.plans.insert(plan_id, wp)), Ok(wp))
            },
        }
    }
}

/// The state after `delete_user_workout_plan`, and what it returns.
pub open spec fn delete_plan_spec(s: StateView, caller: Seq<char>, plan_id: u64) -> (StateView, Result<WorkoutPlan, Error>) {
    if !s.plans.contains_key(plan_id) {
        (s, Err(Error::NotFound { entity: Entity::WorkoutPlan, id: plan_id }))
    } else {
        match caller_check(s, caller, s.plans[plan_id].user_id) {
            Err(e) => (s, Err(e)),
            Ok(_) => (s.with_plans(s.plans.remove(plan_id)), Ok(s.plans[plan_id])),
        }
    }
}

/// Records that can be restored: ids within their counters, no id twice, each
/// plan's user among the users, and no user with two plans.
pub open spec fn valid_snapshot(users: Seq<User>, plans: Seq<WorkoutPlan>, user_counter: u64, plan_counter: u64) -> bool {
    &&& forall|i: int| 0 <= i < users.len() ==> #[trigger] users[i].id <= user_counter
    &&& forall|i: int, j: int| 0 <= i < j < users.len() ==> #[trigger] users[i].id != #[trigger] users[j].id
    &&& forall|i: int| 0 <= i < plans.len() ==> #[trigger] plans[i].id <= plan_counter
    &&& forall|i: int| 0 <= i < plans.len() ==> lists_user(users, #[trigger] plans[i].user_id)
    &&& forall|i: int, j: int| 0 <= i < j < plans.len() ==> #[trigger] plans[i].id != #[trigger] plans[j].id
    &&& forall|i: int, j: int| 0 <= i < j < plans.len() ==> #[trigger] plans[i].user_id != #[trigger] plans[j].user_id
}

/// Some user in `users` has id `id`.
pub open spec fn lists_user(users: Seq<User>, id: u64) -> bool {
    exists|j: int| 0 <= j < users.len() && #[trigger] users[j].id == id
}

/// `m` maps exactly the ids of `users` to those users.
pub open spec fn keyed_users(m: Map<u64, User>, users: Seq<User>) -> bool {
    &&& forall|k: u64| #[trigger] m.contains_key(k) <==> exists|i: int| 0 <= i < users.len() && #[trigger] users[i].id == k
    &&& forall|i: int| 0 <= i < users.len() ==> #[trigger] m[users[i].id] == users[i]
}

/// `m` maps exactly the ids of `plans` to those plans.
pub open spec fn keyed_plans(m: Map<u64, WorkoutPlan>, plans: Seq<WorkoutPlan>) -> bool {
    &&& forall|k: u64| #[trigger] m.contains_key(k) <==> exists|i: int| 0 <= i < plans.len() && #[trigger] plans[i].id == k
    &&& forall|i: int| 0 <= i < plans.len() ==> #[trigger] m[plans[i].id] == plans[i]
}

/// The users of `m`, each once, in ascending id order.
pub open spec fn users_in_order(m: Map<u64, User>, r: Seq<User>) -> bool {
    &&& keyed_users(m, r)
    &&& forall|i: int, j: int| 0 <= i < j < r.len() ==> #[trigger] r[i].id < #[trigger] r[j].id
}

/// The plans of `m`, each once, in ascending id order.
pub open spec fn plans_in_order(m: Map<u64, WorkoutPlan>, r: Seq<WorkoutPlan>) -> bool {
    &&& keyed_plans(m, r)
    &&& forall|i: int, j: int| 0 <= i < j < r.len() ==> #[trigger] r[i].id < #[trigger] r[j].id
}

/// The user and workout-plan tables with their identifier counters.
pub struct AppState {
    users: Table<User>,
    plans: Table<WorkoutPlan>,
    user_id_counter: Counter,
    plan_id_counter: Counter,
}

impl View for AppState {
    type V = StateView;

    closed spec fn view(&self) -> StateView {
        StateView {
            users: self.users@,
            plans: self.plans@,
            user_counter: self.user_id_counter@,
            plan_counter: self.plan_id_counter@,
        }
    }
}

impl AppState {
    /// Both tables are well formed.
    pub closed spec fn tables_wf(&self) -> bool {
        self.users.wf() && self.plans.wf()
    }

    /// The tables are well formed and the abstract state keeps its invariant.
    pub open spec fn wf(&self) -> bool {
        self.tables_wf() && self@.wf()
    }

    /// An empty store whose counters have handed out nothing.
    pub fn new() -> (r: AppState)
        ensures
            r.wf(),
            r@.users == Map::<u64, User>::empty(),
            r@.plans == Map::<u64, WorkoutPlan>::empty(),
            r@.user_counter == 0,
            r@.plan_counter == 0,
    {
        AppState {
            users: Table::new(),
            plans: Table::new(),
            user_id_counter: Counter::new(),
            plan_id_counter: Counter::new(),
        }
    }

    /// The last user id handed out.
    pub fn user_counter(&self) -> (r: u64)
        ensures
            r == self@.user_counter,
    {
        self.user_id_counter.get()
    }

    /// The last plan id handed out.
    pub fn plan_counter(&self) -> (r: u64)
        ensures
            r == self@.plan_counter,
    {
        self.plan_id_counter.get()
    }

    /// Checks that user `user_id` exists and that `caller` owns it.
    pub fn _is_caller_user(&self, caller: &String, user_id: &u64) -> (r: Result<(), Error>)
        requires
            self.wf(),
        ensures
            r == caller_check(self@, caller@, *user_id),
    {
        match self.users.get(*user_id) {
            None => Err(Error::NotFound { entity: Entity::User, id: *user_id }),
            Some(user) => {
                if user.user_principal == *caller {
                    Ok(())
                } else {
                    Err(Error::Forbidden { user_id: *user_id })
                }
            },
        }
    }

    /// The user stored under `id`.
    pub fn get_user(&self, id: u64) -> (r: Result<User, Error>)
        requires
            self.wf(),
        ensures
            r == get_user_spec(self@, id),
    {
        match _get_user(&self.users, &id) {
            Some(user) => Ok(user),
            None => Err(Error::NotFound { entity: Entity::User, id }),
        }
    }

    /// Creates a user owned by `caller` under the next user id.
    pub fn add_user(&mut self, caller: String, user: UserPayload, now: u64) -> (r: Option<User>)
        requires
            old(self).wf(),
            old(self)@.user_counter < u64::MAX,
        ensures
            final(self).wf(),
            r == Some(add_user_spec(old(self)@, caller, user, now).1),
            final(self)@ == add_user_spec(old(self)@, caller, user, now).0,
            r.unwrap().id > old(self)@.user_counter,
            forall|k: u64| old(self)@.users.contains_key(k) ==> k < r.unwrap().id,
    {
        let ghost s = self@;
        let id = self.user_id_counter.next();
        let user = User {
            id,
            user_principal: caller,
            name: user.name,
            weight: user.weight,
            height: user.height,
            age: user.age,
            created_at: now,
            updated_at: None,
        };
        do_insert_user(&mut self.users, &user);
        proof {
            assert(self@.users =~= s.users.insert(id, user));
            assert forall|k: u64| #[trigger] self@.plans.contains_key(k) implies self@.users.contains_key(self@.plans[k].user_id) by {
                assert(s.plans.contains_key(k));
            }
        }
        Some(user)
    }

    /// Applies the fields present in `payload` to user `id`, if `caller`
    /// owns it.
    pub fn update_user(&mut self, caller: &String, id: u64, payload: UserUpdatePayload, now: u64) -> (r: Result<User, Error>)
        requires
            old(self).wf(),
        ensures
            final(self).wf(),
            (final(self)@, r) == update_user_spec(old(self)@, caller@, id, payload, now),
    {
        let ghost s = self@;
        match _get_user(&self.users, &id) {
            Some(mut user) => {
                let can_update = self._is_caller_user(caller, &id);
                match can_update {
                    Err(e) => {
                        return Err(e);
                    },
                    Ok(_) => {},
                }
                match payload.name {
                    Some(name) => user.name = name,
                    None => {},
                }
                match payload.weight {
                    Some(weight) => user.weight = weight,
                    None => {},
                }
                match payload.height {
                    Some(height) => user.height = height,
                    None => {},
                }
                match payload.age {
                    Some(age) => user.age = age,
                    None => {},
                }
                user.updated_at = Some(now);
                do_insert_user(&mut self.users, &user);
                proof {
                    assert(user == updated_user(s.users[id], payload, now));
                    assert forall|k: u64| #[trigger] self@.plans.contains_key(k) implies self@.users.contains_key(self@.plans[k].user_id) by {
                        assert(s.plans.contains_key(k));
                    }
                }
                Ok(user)
            },
            None => Err(Error::NotFound { entity: Entity::User, id }),
        }
    }

    /// The plan of user `user_id`.
    pub fn get_user_workout_plan(&self, user_id: u64) -> (r: Result<WorkoutPlan, Error>)
        requires
            self.wf(),
        ensures
            r == get_plan_spec(self@, user_id),
    {
        match _get_workout(&self.plans, &user_id) {
            Some((_i, wp)) => Ok(wp),
            None => Err(Error::NotFound { entity: Entity::WorkoutPlan, id: user_id }),
        }
    }

    /// Applies the intensity fields present in `payload` to plan `wp_id`, if
    /// `caller` owns the plan's user.
    pub fn update_user_workout_plan(&mut self, caller: &String, wp_id: u64, payload: WorkoutPlanUpdatePayload, now: u64) -> (r: Result<WorkoutPlan, Error>)
        requires
            old(self).wf(),
        ensures
            final(self).wf(),
            (final(self)@, r) == update_plan_spec(old(self)@, caller@, wp_id, payload, now),
    {
        let ghost s = self@;
        match self.plans.get(wp_id) {
            Some(found) => {
                let mut work_p = *found;
                let can_update = self._is_caller_user(caller, &work_p.user_id);
                match can_update {
                    Err(e) => {
                        return Err(e);
                    },
                    Ok(_) => {},
                }
                match payload.push_ups {
                    Some(push_ups) => work_p.push_ups = push_ups,
                    None => {},
                }
                match payload.sit_ups {
                    Some(sit_ups) => work_p.sit_ups = sit_ups,
                    None => {},
                }
                match payload.running_time {
                    Some(running_time) => work_p.running_time = running_time,
                    None => {},
                }
                work_p.updated_at = Some(now);
                do_insert_wp(&mut self.plans, &work_p);
                proof {
                    assert(work_p == updated_plan(s.plans[wp_id], payload, now));
                    assert(self@.plans =~= s.plans.insert(wp_id, work_p));
                    assert forall|k1: u64, k2: u64|
                        self@.plans.contains_key(k1) && self@.plans.contains_key(k2) && #[trigger] self@.plans[k1].user_id
                            == #[trigger] self@.plans[k2].user_id implies k1 == k2 by {
                        assert(s.plans.contains_key(k1) && s.plans.contains_key(k2));
                        assert(self@.plans[k1].user_id == s.plans[k1].user_id);
                        assert(self@.plans[k2].user_id == s.plans[k2].user_id);
                    }
                }
                Ok(work_p)
            },
            None => Err(Error::NotFound { entity: Entity::WorkoutPlan, id: wp_id }),
        }
    }

    /// Removes plan `wp_id` and returns it, if `caller` owns the plan's user.
    pub fn delete_user_workout_plan(&mut self, caller: &String, wp_id: u64) -> (r: Result<WorkoutPlan, Error>)
        requires
            old(self).wf(),
        ensures
            final(self).wf(),
            (final(self)@, r) == delete_plan_spec(old(self)@, caller@, wp_id),
    {
        let ghost s = self@;
        match self.plans.get(wp_id) {
            Some(found) => {
                let wp = *found;
                let can_delete = self._is_caller_user(caller, &wp.user_id);
                match can_delete {
                    Err(e) => {
                        return Err(e);
                    },
                    Ok(_) => {},
                }
                match self.plans.remove(wp.id) {
                    Some(workout_plan) => {
                        proof {
                            assert(self@ == s.with_plans(s.plans.remove(wp_id)));
                        }
                        Ok(workout_plan)
                    },
                    None => Err(Error::ServerError { plan_id: wp.id }),
                }
            },
            None => Err(Error::NotFound { entity: Entity::WorkoutPlan, id: wp_id }),
        }
    }

    /// Removes user `id` and returns it, if `caller` owns it; the user's plan
    /// is deleted first, and a failure there is returned as it is.
    pub fn delete_user(&mut self, caller: &String, id: u64) -> (r: Result<User, Error>)
        requires
            old(self).wf(),
        ensures
            final(self).wf(),
            (final(self)@, r) == delete_user_spec(old(self)@, caller@, id),
    {
        let ghost s = self@;
        let can_delete = self._is_caller_user(caller, &id);
        match can_delete {
            Err(e) => {
                return Err(e);
            },
            Ok(_) => {},
        }
        let workout = _get_workout(&self.plans, &id);
        match workout {
            Some((_i, wp)) => {
                let deleted = self.delete_user_workout_plan(caller, wp.id);
                match deleted {
                    Err(e) => {
                        return Err(e);
                    },
                    Ok(_) => {},
                }
            },
            None => {},
        }
        let ghost mid = self@;
        proof {
            assert forall|k: u64| #[trigger] mid.plans.contains_key(k) implies mid.plans[k].user_id != id by {
                if let Some((k0, _wp)) = first_plan_of(s.plans, id) {
                    assert(s.plans.contains_key(k0) && s.plans[k0].user_id == id);
                    assert(s.plans.contains_key(k));
                } else {
                    lemma_first_plan_exists(s.plans, id);
                }
            }
        }
        match self.users.remove(id) {
            Some(user) => {
                proof {
                    assert forall|k: u64| #[trigger] self@.plans.contains_key(k) implies self@.users.contains_key(self@.plans[k].user_id) by {
                        assert(mid.plans.contains_key(k));
                        assert(s.plans.contains_key(k));
                    }
                }
                Ok(user)
            },
            None => Err(Error::NotFound { entity: Entity::User, id }),
        }
    }

    /// Generates, stores and returns the plan of user `user_id`, if `caller`
    /// owns the user and the user has no plan yet.
    pub fn generate_workout_plan(&mut self, caller: &String, user_id: u64, now: u64) -> (r: Result<WorkoutPlan, Error>)
        requires
            old(self).wf(),
            allocates_plan(old(self)@, caller@, user_id) ==> old(self)@.plan_counter < u64::MAX,
        ensures
            final(self).wf(),
            (final(self)@, r) == generate_spec(old(self)@, caller@, user_id, now),
    {
        let ghost s = self@;
        let user = _get_user(&self.users, &user_id);
        let can_generate = self._is_caller_user(caller, &user_id);
        match can_generate {
            Err(e) => {
                return Err(e);
            },
            Ok(_) => {},
        }
        if check_user_wp(&self.plans, user_id) {
            return Err(Error::Exists { user_id });
        }
        let id = self.plan_id_counter.next();
        match user {
            Some(_user) => {
                proof {
                    lemma_no_plan(s.plans, user_id);
                }
                let mut cache = _gen_wp(&user_id);
                let wp = cache.workout_plan(&self.users, &self.plans, user_id);
                match wp {
                    Some(my_wp) => {
                        let workp = WorkoutPlan {
                            id: id,
                            user_id: user_id,
                            push_ups: my_wp.push_ups,
                            sit_ups: my_wp.sit_ups,
                            running_time: my_wp.running_time,
                            created_at: now,
                            updated_at: None,
                        };
                        do_insert_wp(&mut self.plans, &workp);
                        proof {
                            assert(workp == new_plan(s, user_id, now));
                            assert forall|k1: u64, k2: u64|
                                self@.plans.contains_key(k1) && self@.plans.contains_key(k2) && #[trigger] self@.plans[k1].user_id
                                    == #[trigger] self@.plans[k2].user_id implies k1 == k2 by {
                                if k1 != id {
                                    assert(s.plans.contains_key(k1));
                                }
                                if k2 != id {
                                    assert(s.plans.contains_key(k2));
                                }
                            }
                        }
                        Ok(workp)
                    },
                    None => Err(Error::NotFound { entity: Entity::User, id: user_id }),
                }
            },
            None => Err(Error::NotFound { entity: Entity::User, id: user_id }),
        }
    }

    /// The stored users in ascending id order.
    pub fn user_records(&self) -> (r: Vec<User>)
        requires
            self.wf(),
        ensures
            users_in_order(self@.users, r@),
    {
        let mut r: Vec<User> = Vec::new();
        let mut i: usize = 0;
        while i < self.users.len()
            invariant
                self.wf(),
                i <= self.users.entry_seq().len(),
                r@.len() == i,
                forall|j: int| 0 <= j < i ==> #[trigger] r@[j] == self.users.entry_seq()[j].1,
            decreases self.users.entry_seq().len() - i,
        {
            r.push(self.users.entry(i).1.duplicate());
            i = i + 1;
        }
        proof {
            let es = self.users.entry_seq();
            let m = self@.users;
            assert forall|j: int| 0 <= j < r@.len() implies #[trigger] r@[j].id == es[j].0 && m[es[j].0] == r@[j] by {
                assert(m.contains_key(es[j].0));
            }
            assert forall|k: u64| #[trigger] m.contains_key(k) <==> exists|j: int| 0 <= j < r@.len() && #[trigger] r@[j].id == k by {
                if m.contains_key(k) {
                    let j = choose|j: int| 0 <= j < es.len() && #[trigger] es[j].0 == k;
                    assert(r@[j].id == k);
                }
                if exists|j: int| 0 <= j < r@.len() && #[trigger] r@[j].id == k {
                    let j = choose|j: int| 0 <= j < r@.len() && #[trigger] r@[j].id == k;
                    assert(m.contains_key(es[j].0));
                }
            }
            assert forall|a: int, b: int| 0 <= a < b < r@.len() implies #[trigger] r@[a].id < #[trigger] r@[b].id by {
                assert(r@[a].id == es[a].0 && r@[b].id == es[b].0);
            }
        }
        r
    }

    /// The stored plans in ascending id order.
    pub fn plan_records(&self) -> (r: Vec<WorkoutPlan>)
        requires
            self.wf(),
        ensures
            plans_in_order(self@.plans, r@),
    {
        let mut r: Vec<WorkoutPlan> = Vec::new();
        let mut i: usize = 0;
        while i < self.plans.len()
            invariant
                self.wf(),
                i <= self.plans.entry_seq().len(),
                r@.len() == i,
                forall|j: int| 0 <= j < i ==> #[trigger] r@[j] == self.plans.entry_seq()[j].1,
            decreases self.plans.entry_seq().len() - i,
        {
            r.push(self.plans.entry(i).1);
            i = i + 1;
        }
        proof {
            let es = self.plans.entry_seq();
            let m = self@.plans;
            assert forall|j: int| 0 <= j < r@.len() implies #[trigger] r@[j].id == es[j].0 && m[es[j].0] == r@[j] by {
                assert(m.contains_key(es[j].0));
            }
            assert forall|k: u64| #[trigger] m.contains_key(k) <==> exists|j: int| 0 <= j < r@.len() && #[trigger] r@[j].id == k by {
                if m.contains_key(k) {
                    let j = choose|j: int| 0 <= j < es.len() && #[trigger] es[j].0 == k;
                    assert(r@[j].id == k);
                }
                if exists|j: int| 0 <= j < r@.len() && #[trigger] r@[j].id == k {
                    let j = choose|j: int| 0 <= j < r@.len() && #[trigger] r@[j].id == k;
                    assert(m.contains_key(es[j].0));
                }
            }
            assert forall|a: int, b: int| 0 <= a < b < r@.len() implies #[trigger] r@[a].id < #[trigger] r@[b].id by {
                assert(r@[a].id == es[a].0 && r@[b].id == es[b].0);
            }
        }
        r
    }

    /// Rebuilds a store from saved records and counters, or returns `None`
    /// where the records could not have come from a store.
    pub fn restore(users: Vec<User>, plans: Vec<WorkoutPlan>, user_counter: u64, plan_counter: u64) -> (r: Option<AppState>)
        ensures
            r is Some <==> valid_snapshot(users@, plans@, user_counter, plan_counter),
            r matches Some(st) ==> {
                &&& st.wf()
                &&& keyed_users(st@.users, users@)
                &&& keyed_plans(st@.plans, plans@)
                &&& st@.user_counter == user_counter
                &&& st@.plan_counter == plan_counter
            },
    {
        let mut st = AppState {
            users: Table::new(),
            plans: Table::new(),
            user_id_counter: Counter::with_value(user_counter),
            plan_id_counter: Counter::with_value(plan_counter),
        };
        let mut i: usize = 0;
        while i < users.len()
            invariant
                st.wf(),
                st@.plans == Map::<u64, WorkoutPlan>::empty(),
                st@.user_counter == user_counter,
                st@.plan_counter == plan_counter,
                i <= users@.len(),
                forall|k: u64| #[trigger] st@.users.contains_key(k) <==> exists|a: int| 0 <= a < i && #[trigger] users@[a].id == k,
                forall|a: int| 0 <= a < i ==> #[trigger] st@.users[users@[a].id] == users@[a],
                forall|a: int| 0 <= a < i ==> #[trigger] users@[a].id <= user_counter,
                forall|a: int, b: int| 0 <= a < b < i ==> #[trigger] users@[a].id != #[trigger] users@[b].id,
            decreases users@.len() - i,
        {
            let u = &users[i];
            if u.id > user_counter {
                proof {
                    assert(users@[i as int].id > user_counter);
                }
                return None;
            }
            match st.users.get(u.id) {
                Some(_) => {
                    proof {
                        let a = choose|a: int| 0 <= a < i && #[trigger] users@[a].id == users@[i as int].id;
                        assert(users@[a].id == users@[i as int].id);
                    }
                    return None;
                },
                None => {},
            }
            let ghost before = st@;
            st.users.insert(u.id, u.duplicate());
            proof {
                assert forall|k: u64| #[trigger] st@.users.contains_key(k) <==> exists|a: int| 0 <= a < i + 1 && #[trigger] users@[a].id == k by {
                    if k == users@[i as int].id {
                        assert(users@[i as int].id == k);
                    } else if st@.users.contains_key(k) {
                        assert(before.users.contains_key(k));
                    } else if exists|a: int| 0 <= a < i + 1 && #[trigger] users@[a].id == k {
                        let a = choose|a: int| 0 <= a < i + 1 && #[trigger] users@[a].id == k;
                        assert(before.users.contains_key(users@[a].id));
                    }
                }
                assert forall|a: int| 0 <= a < i + 1 implies #[trigger] st@.users[users@[a].id] == users@[a] by {
                    if a < i {
                        assert(before.users.contains_key(users@[a].id));
                    }
                }
                assert forall|k: u64| #[trigger] st@.users.contains_key(k) implies st@.users[k].id == k && k <= st@.user_counter by {
                    if k != users@[i as int].id {
                        assert(before.users.contains_key(k));
                    }
                }
            }
            i = i + 1;
        }
        let mut i: usize = 0;
        while i < plans.len()
            invariant
                st.wf(),
                st@.user_counter == user_counter,
                st@.plan_counter == plan_counter,
                keyed_users(st@.users, users@),
                forall|a: int| 0 <= a < users@.len() ==> #[trigger] users@[a].id <= user_counter,
                forall|a: int, b: int| 0 <= a < b < users@.len() ==> #[trigger] users@[a].id != #[trigger] users@[b].id,
                i <= plans@.len(),
                forall|k: u64| #[trigger] st@.plans.contains_key(k) <==> exists|a: int| 0 <= a < i && #[trigger] plans@[a].id == k,
                forall|a: int| 0 <= a < i ==> #[trigger] st@.plans[plans@[a].id] == plans@[a],
                forall|a: int| 0 <= a < i ==> #[trigger] plans@[a].id <= plan_counter,
                forall|a: int| 0 <= a < i ==> st@.users.contains_key(#[trigger] plans@[a].user_id),
                forall|a: int, b: int| 0 <= a < b < i ==> #[trigger] plans@[a].id != #[trigger] plans@[b].id,
                forall|a: int, b: int| 0 <= a < b < i ==> #[trigger] plans@[a].user_id != #[trigger] plans@[b].user_id,
            decreases plans@.len() - i,
        {
            let wp = plans[i];
            if wp.id > plan_counter {
                proof {
                    assert(plans@[i as int].id > plan_counter);
                }
                return None;
            }
            match st.plans.get(wp.id) {
                Some(_) => {
                    proof {
                        let a = choose|a: int| 0 <= a < i && #[trigger] plans@[a].id == plans@[i as int].id;
                        assert(plans@[a].id == plans@[i as int].id);
                    }
                    return None;
                },
                None => {},
            }
            match st.users.get(wp.user_id) {
                None => {
                    proof {
                        if lists_user(users@, plans@[i as int].user_id) {
                            let j = choose|j: int| 0 <= j < users@.len() && #[trigger] users@[j].id == plans@[i as int].user_id;
                            assert(st@.users.contains_key(users@[j].id));
                        }
                    }
                    return None;
                },
                Some(_) => {},
            }
            if check_user_wp(&st.plans, wp.user_id) {
                proof {
                    let k = choose|k: u64| st@.plans.contains_key(k) && #[trigger] st@.plans[k].user_id == wp.user_id;
                    let a = choose|a: int| 0 <= a < i && #[trigger] plans@[a].id == k;
                    assert(st@.plans[plans@[a].id] == plans@[a]);
                    assert(plans@[a].user_id == plans@[i as int].user_id);
                }
                return None;
            }
            let ghost before = st@;
            st.plans.insert(wp.id, wp);
            proof {
                assert(!has_plan(before.plans, wp.user_id));
                assert forall|k: u64| #[trigger] st@.plans.contains_key(k) <==> exists|a: int| 0 <= a < i + 1 && #[trigger] plans@[a].id == k by {
                    if k == plans@[i as int].id {
                        assert(plans@[i as int].id == k);
                    } else if st@.plans.contains_key(k) {
                        assert(before.plans.contains_key(k));
                    } else if exists|a: int| 0 <= a < i + 1 && #[trigger] plans@[a].id == k {
                        let a = choose|a: int| 0 <= a < i + 1 && #[trigger] plans@[a].id == k;
                        assert(before.plans.contains_key(plans@[a].id));
                    }
                }
                assert forall|a: int| 0 <= a < i + 1 implies #[trigger] st@.plans[plans@[a].id] == plans@[a] by {
                    if a < i {
                        assert(before.plans.contains_key(plans@[a].id));
                    }
                }
                assert(st@.users.contains_key(wp.user_id));
                assert forall|a: int, b: int| 0 <= a < b < i + 1 implies #[trigger] plans@[a].user_id != #[trigger] plans@[b].user_id by {
                    if b == i {
                        assert(before.plans.contains_key(plans@[a].id));
                        assert(before.plans[plans@[a].id].user_id == plans@[a].user_id);
                    }
                }
                assert forall|a: int, b: int| 0 <= a < b < i + 1 implies #[trigger] plans@[a].id != #[trigger] plans@[b].id by {
                    if b == i {
                        assert(before.plans.contains_key(plans@[a].id));
                    }
                }
                assert forall|k: u64| #[trigger] st@.plans.contains_key(k) implies {
                    &&& st@.plans[k].id == k
                    &&& k <= st@.plan_counter
                    &&& st@.users.contains_key(st@.plans[k].user_id)
                } by {
                    if k != wp.id {
                        assert(before.plans.contains_key(k));
                    }
                }
                assert forall|k1: u64, k2: u64|
                    st@.plans.contains_key(k1) && st@.plans.contains_key(k2) && #[trigger] st@.plans[k1].user_id
                        == #[trigger] st@.plans[k2].user_id implies k1 == k2 by {
                    if k1 != wp.id {
                        assert(before.plans.contains_key(k1));
                    }
                    if k2 != wp.id {
                        assert(before.plans.contains_key(k2));
                    }
                }
            }
            i = i + 1;
        }
        proof {
            assert forall|a: int| 0 <= a < plans@.len() implies lists_user(users@, #[trigger] plans@[a].user_id) by {
                assert(st@.users.contains_key(plans@[a].user_id));
            }
            assert forall|a: int, b: int| 0 <= a < b < plans@.len() implies #[trigger] plans@[a].id != #[trigger] plans@[b].id by {
                assert(b < i);
            }
            assert forall|a: int, b: int| 0 <= a < b < plans@.len() implies #[trigger] plans@[a].user_id != #[trigger] plans@[b].user_id by {
                assert(b < i);
            }
            assert forall|a: int| 0 <= a < plans@.len() implies #[trigger] plans@[a].id <= plan_counter by {
                assert(a < i);
            }
        }
        Some(st)
    }
}

} // verus!

use vstd::prelude::*;

use crate::model::{User, WorkoutPlan, WorkoutPlanPayload};
use crate::store::{_get_user, _get_workout, first_plan_of, user_at};
use crate::table::Table;

verus! {

/// One intensity tier of the plan table.
#[derive(Clone, Copy, Debug, PartialEq, Eq, Structural)]
pub struct WpSelectorPayload {
    pub push_ups: u64,
    pub sit_ups: u64,
    pub running_time: u64,
}

/// `(old_value * 10) / old_max`, where the product saturates at `u64::MAX`.
pub open spec fn scaled(old_max: int, old_value: int) -> int {
    let p = old_value * 10;
    (if p > u64::MAX { u64::MAX as int } else { p }) / old_max
}

/// The tier number selected for the given attributes: each attribute is
/// scaled onto 0..=10 (age over 100, height over 7, weight over 150), the
/// sum is scaled onto 0..=10 over 30, and a result past the last tier number,
/// 10, selects tier 10.
pub open spec fn intensity_spec(age: u64, height: u64, weight: u64) -> int {
    let total = scaled(100, age as int) + scaled(7, height as int) + scaled(150, weight as int);
    let idx = scaled(30, total);
    if idx > 10 {
        10
    } else {
        idx
    }
}

/// Where tier number `n` stands in `tier_table`. Tiers are numbered from 1,
/// so tier `n` is entry `n - 1`: tier 6 is entry 5, push-ups 7, sit-ups 10,
/// running 30. A score of 0 has no tier of its own and selects tier 1, the
/// most intense.
pub open spec fn tier_position(n: int) -> int {
    if n == 0 {
        0
    } else {
        n - 1
    }
}

/// The ten tiers, numbered 1 to 10 from the most intense to the least.
pub open spec fn tier_table() -> Seq<WpSelectorPayload> {
    seq![
        WpSelectorPayload { push_ups: 15, sit_ups: 20, running_time: 60 },
        WpSelectorPayload { push_ups: 13, sit_ups: 18, running_time: 50 },
        WpSelectorPayload { push_ups: 11, sit_ups: 16, running_time: 45 },
        WpSelectorPayload { push_ups: 10, sit_ups: 14, running_time: 40 },
        WpSelectorPayload { push_ups: 8, sit_ups: 12, running_time: 35 },
        WpSelectorPayload { push_ups: 7, sit_ups: 10, running_time: 30 },
        WpSelectorPayload { push_ups: 5, sit_ups: 8, running_time: 25 },
        WpSelectorPayload { push_ups: 5, sit_ups: 6, running_time: 20 },
        WpSelectorPayload { push_ups: 5, sit_ups: 5, running_time: 20 },
        WpSelectorPayload { push_ups: 5, sit_ups: 5, running_time: 15 },
    ]
}

/// The tier that the attributes select.
pub open spec fn plan_tier(age: u64, height: u64, weight: u64) -> WpSelectorPayload {
    tier_table()[tier_position(intensity_spec(age, height, weight))]
}

/// The plan derived for user `u` from its attributes.
pub open spec fn derived_payload(u: User) -> WorkoutPlanPayload {
    let t = plan_tier(u.age, u.height, u.weight);
    WorkoutPlanPayload {
        user_id: u.id,
        push_ups: t.push_ups,
        sit_ups: t.sit_ups,
        running_time: t.running_time,
    }
}

/// The intensity of a stored plan, as a payload of user `user_id`.
pub open spec fn stored_payload(user_id: u64, wp: WorkoutPlan) -> WorkoutPlanPayload {
    WorkoutPlanPayload {
        user_id,
        push_ups: wp.push_ups,
        sit_ups: wp.sit_ups,
        running_time: wp.running_time,
    }
}

/// What a generation with nothing cached yields for user `user_id`: the
/// intensity of the user's stored plan if there is one, else the plan derived
/// from the user's attributes, and nothing if the user does not exist.
pub open spec fn fresh_plan(users: Map<u64, User>, plans: Map<u64, WorkoutPlan>, user_id: u64) -> Option<WorkoutPlanPayload> {
    match first_plan_of(plans, user_id) {
        Some((_k, wp)) => Some(stored_payload(user_id, wp)),
        None => match user_at(users, user_id) {
            Some(u) => Some(derived_payload(u)),
            None => None,
        },
    }
}

proof fn lemma_scaled_bound(d: int, v: int)
    requires
        d > 0,
        v >= 0,
    ensures
        0 <= scaled(d, v) <= (u64::MAX as int) / d,
{
    let p = v * 10;
    let c = if p > u64::MAX { u64::MAX as int } else { p };
    vstd::arithmetic::div_mod::lemma_div_is_ordered(c, u64::MAX as int, d);
    vstd::arithmetic::div_mod::lemma_div_pos_is_pos(c, d);
}

/// Rescales a value onto the range 0..=10 by integer scaling, saturating
/// where the scaled value would not fit.
pub fn range_ten(old_max: u64, old_value: u64) -> (r: u64)
    requires
        old_max > 0,
    ensures
        r == scaled(old_max as int, old_value as int),
{
    let p: u64 = if old_value > u64::MAX / 10 {
        u64::MAX
    } else {
        old_value * 10
    };
    p / old_max
}

/// The number of the tier that the attributes select, from 0 to 10.
pub fn intensity_index(age: u64, height: u64, weight: u64) -> (r: usize)
    ensures
        r == intensity_spec(age, height, weight),
        r <= 10,
{
    proof {
        lemma_scaled_bound(100, age as int);
        lemma_scaled_bound(7, height as int);
        lemma_scaled_bound(150, weight as int);
    }
    let total = range_ten(100, age) + range_ten(7, height) + range_ten(150, weight);
    let intensity = range_ten(30, total);
    if intensity > 10 {
        10
    } else {
        intensity as usize
    }
}

/// Derives plans from user attributes through a fixed table of tiers.
pub struct PlanGenerator {
    workout_plans: Vec<WpSelectorPayload>,
}

impl PlanGenerator {
    /// The tiers this generator selects from.
    pub closed spec fn tiers(&self) -> Seq<WpSelectorPayload> {
        self.workout_plans@
    }

    /// The generator holds the fixed tier table.
    pub open spec fn wf(&self) -> bool {
        self.tiers() == tier_table()
    }

    /// A generator over the fixed tier table.
    pub fn new() -> (r: PlanGenerator)
        ensures
            r.wf(),
    {
        let mut v: Vec<WpSelectorPayload> = Vec::new();
        v.push(WpSelectorPayload { push_ups: 15, sit_ups: 20, running_time: 60 });
        v.push(WpSelectorPayload { push_ups: 13, sit_ups: 18, running_time: 50 });
        v.push(WpSelectorPayload { push_ups: 11, sit_ups: 16, running_time: 45 });
        v.push(WpSelectorPayload { push_ups: 10, sit_ups: 14, running_time: 40 });
        v.push(WpSelectorPayload { push_ups: 8, sit_ups: 12, running_time: 35 });
        v.push(WpSelectorPayload { push_ups: 7, sit_ups: 10, running_time: 30 });
        v.push(WpSelectorPayload { push_ups: 5, sit_ups: 8, running_time: 25 });
        v.push(WpSelectorPayload { push_ups: 5, sit_ups: 6, running_time: 20 });
        v.push(WpSelectorPayload { push_ups: 5, sit_ups: 5, running_time: 20 });
        v.push(WpSelectorPayload { push_ups: 5, sit_ups: 5, running_time: 15 });
        assert(v@ =~= tier_table());
        PlanGenerator { workout_plans: v }
    }

    /// The tier selected by the attributes; a function of them alone.
    pub fn derive(&self, age: u64, height: u64, weight: u64) -> (r: WpSelectorPayload)
        requires
            self.wf(),
        ensures
            r == plan_tier(age, height, weight),
    {
        let intensity = intensity_index(age, height, weight);
        let position: usize = if intensity == 0 {
            0
        } else {
            intensity - 1
        };
        self.workout_plans[position]
    }
}

/// Generates at most one plan per use: the first request computes (or finds)
/// the plan and keeps it, later requests return the kept plan.
pub struct Cache {
    pub generate_workout: PlanGenerator,
    pub workout_plan: Option<WorkoutPlanPayload>,
}

impl Cache {
    /// A cache over `generate_workout` that holds no plan yet.
    pub fn new(generate_workout: PlanGenerator) -> (r: Cache)
        ensures
            r.generate_workout == generate_workout,
            r.workout_plan == None::<WorkoutPlanPayload>,
    {
        Cache { generate_workout, workout_plan: None }
    }

    /// The kept plan if there is one; else the user's stored plan if there is
    /// one, else a plan derived from the user's attributes, which is then kept.
    pub fn workout_plan(&mut self, users: &Table<User>, plans: &Table<WorkoutPlan>, user_id: u64) -> (r: Option<WorkoutPlanPayload>)
        requires
            old(self).generate_workout.wf(),
            users.wf(),
            plans.wf(),
        ensures
            final(self).generate_workout == old(self).generate_workout,
            final(self).workout_plan == r,
            r == match old(self).workout_plan {
                Some(v) => Some(v),
                None => fresh_plan(users@, plans@, user_id),
            },
    {
        match &self.workout_plan {
            Some(v) => Some(*v),
            None => {
                match _get_workout(plans, &user_id) {
                    Some((_i, wp)) => {
                        self.workout_plan = Some(WorkoutPlanPayload {
                            user_id: user_id,
                            push_ups: wp.push_ups,
                            sit_ups: wp.sit_ups,
                            running_time: wp.running_time,
                        });
                        self.workout_plan
                    },
                    None => {
                        let wp = self.generate(users, user_id);
                        self.workout_plan = wp;
                        wp
                    },
                }
            },
        }
    }

    /// Derives the plan of user `user_id` from its stored attributes.
    fn generate(&self, users: &Table<User>, user_id: u64) -> (r: Option<WorkoutPlanPayload>)
        requires
            self.generate_workout.wf(),
            users.wf(),
        ensures
            r == match user_at(users@, user_id) {
                Some(u) => Some(derived_payload(u)),
                None => None,
            },
    {
        match _get_user(users, &user_id) {
            Some(user) => {
                let t = self.generate_workout.derive(user.age, user.height, user.weight);
                Some(WorkoutPlanPayload {
                    user_id: user.id,
                    push_ups: t.push_ups,
                    sit_ups: t.sit_ups,
                    running_time: t.running_time,
                })
            },
            None => None,
        }
    }
}

/// A fresh cache over the fixed tier table.
pub fn _gen_wp(_user_id: &u64) -> (r: Cache)
    ensures
        r.generate_workout.wf(),
        r.workout_plan == None::<WorkoutPlanPayload>,
{
    Cache::new(PlanGenerator::new())
}

/// Equal attributes select equal tiers, whoever holds them.
pub proof fn lemma_derivation_deterministic(a: User, b: User)
    requires
        a.age == b.age,
        a.height == b.height,
        a.weight == b.weight,
    ensures
        derived_payload(a).push_ups == derived_payload(b).push_ups,
        derived_payload(a).sit_ups == derived_payload(b).sit_ups,
        derived_payload(a).running_time == derived_payload(b).running_time,
{
}

} // verus!

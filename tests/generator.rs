use daily_workout_plan_backend::model::{User, WorkoutPlan};
use daily_workout_plan_backend::plan::{
    _gen_wp, intensity_index, range_ten, Cache, PlanGenerator, WpSelectorPayload,
};
use daily_workout_plan_backend::table::Table;

fn user(id: u64, age: u64, height: u64, weight: u64) -> User {
    User {
        id,
        user_principal: "aaaaa-aa".to_string(),
        name: "ann".to_string(),
        weight,
        height,
        age,
        created_at: 1,
        updated_at: None,
    }
}

#[test]
fn range_ten_scales_each_attribute() {
    assert_eq!(range_ten(100, 60), 6);
    assert_eq!(range_ten(7, 6), 8);
    assert_eq!(range_ten(150, 70), 4);
    assert_eq!(range_ten(30, 18), 6);
    assert_eq!(range_ten(30, 0), 0);
}

#[test]
fn range_ten_saturates_on_large_values() {
    assert_eq!(range_ten(7, u64::MAX), u64::MAX / 7);
    assert_eq!(range_ten(1, u64::MAX / 10 + 1), u64::MAX);
    assert_eq!(range_ten(1, u64::MAX / 10), (u64::MAX / 10) * 10);
}

#[test]
fn sample_user_selects_tier_six() {
    assert_eq!(intensity_index(60, 6, 70), 6);
    let g = PlanGenerator::new();
    assert_eq!(
        g.derive(60, 6, 70),
        WpSelectorPayload { push_ups: 7, sit_ups: 10, running_time: 30 }
    );
}

#[test]
fn tier_numbers_count_from_one() {
    let g = PlanGenerator::new();
    // scores 0 and 1 both select tier 1
    assert_eq!(intensity_index(20, 0, 0), 0);
    assert_eq!(intensity_index(30, 0, 0), 1);
    assert_eq!(
        g.derive(30, 0, 0),
        WpSelectorPayload { push_ups: 15, sit_ups: 20, running_time: 60 }
    );
    // score 2 selects tier 2
    assert_eq!(intensity_index(60, 0, 0), 2);
    assert_eq!(
        g.derive(60, 0, 0),
        WpSelectorPayload { push_ups: 13, sit_ups: 18, running_time: 50 }
    );
    // score 10: every attribute at its scale's top
    assert_eq!(intensity_index(100, 7, 150), 10);
    assert_eq!(
        g.derive(100, 7, 150),
        WpSelectorPayload { push_ups: 5, sit_ups: 5, running_time: 15 }
    );
    // score 9
    assert_eq!(intensity_index(100, 7, 120), 9);
    assert_eq!(
        g.derive(100, 7, 120),
        WpSelectorPayload { push_ups: 5, sit_ups: 5, running_time: 20 }
    );
}

#[test]
fn zero_attributes_select_first_tier() {
    assert_eq!(intensity_index(0, 0, 0), 0);
    let g = PlanGenerator::new();
    assert_eq!(
        g.derive(0, 0, 0),
        WpSelectorPayload { push_ups: 15, sit_ups: 20, running_time: 60 }
    );
}

#[test]
fn large_attributes_clamp_to_last_tier() {
    assert_eq!(intensity_index(u64::MAX, u64::MAX, u64::MAX), 10);
    assert_eq!(intensity_index(1000, 70, 1500), 10);
    let g = PlanGenerator::new();
    assert_eq!(
        g.derive(u64::MAX, u64::MAX, u64::MAX),
        WpSelectorPayload { push_ups: 5, sit_ups: 5, running_time: 15 }
    );
}

#[test]
fn derivation_is_deterministic() {
    let g = PlanGenerator::new();
    let a = g.derive(35, 5, 90);
    let b = g.derive(35, 5, 90);
    let c = PlanGenerator::new().derive(35, 5, 90);
    assert_eq!(a, b);
    assert_eq!(a, c);
}

#[test]
fn cache_derives_from_user_attributes() {
    let mut users: Table<User> = Table::new();
    users.insert(3, user(3, 60, 6, 70));
    let plans: Table<WorkoutPlan> = Table::new();
    let mut cache = _gen_wp(&3);
    assert!(cache.workout_plan.is_none());
    let p = cache.workout_plan(&users, &plans, 3).unwrap();
    assert_eq!((p.user_id, p.push_ups, p.sit_ups, p.running_time), (3, 7, 10, 30));
    assert_eq!(cache.workout_plan, Some(p));
}

#[test]
fn cache_prefers_stored_plan() {
    let mut users: Table<User> = Table::new();
    users.insert(3, user(3, 60, 6, 70));
    let mut plans: Table<WorkoutPlan> = Table::new();
    plans.insert(
        9,
        WorkoutPlan {
            id: 9,
            user_id: 3,
            push_ups: 1,
            sit_ups: 2,
            running_time: 3,
            created_at: 4,
            updated_at: None,
        },
    );
    let mut cache = Cache::new(PlanGenerator::new());
    let p = cache.workout_plan(&users, &plans, 3).unwrap();
    assert_eq!((p.user_id, p.push_ups, p.sit_ups, p.running_time), (3, 1, 2, 3));
}

#[test]
fn cache_keeps_first_result() {
    let mut users: Table<User> = Table::new();
    users.insert(3, user(3, 60, 6, 70));
    users.insert(4, user(4, 0, 0, 0));
    let plans: Table<WorkoutPlan> = Table::new();
    let mut cache = _gen_wp(&3);
    let first = cache.workout_plan(&users, &plans, 3);
    let second = cache.workout_plan(&users, &plans, 4);
    assert_eq!(first, second);
}

#[test]
fn cache_yields_nothing_for_missing_user() {
    let users: Table<User> = Table::new();
    let plans: Table<WorkoutPlan> = Table::new();
    let mut cache = _gen_wp(&5);
    assert_eq!(cache.workout_plan(&users, &plans, 5), None);
    assert_eq!(cache.workout_plan, None);
}

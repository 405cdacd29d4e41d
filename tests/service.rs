use daily_workout_plan_backend::model::{
    Entity, Error, UserPayload, UserUpdatePayload, WorkoutPlanUpdatePayload,
};
use daily_workout_plan_backend::service::AppState;

fn payload(name: &str, weight: u64, height: u64, age: u64) -> UserPayload {
    UserPayload { name: name.to_string(), weight, height, age }
}

fn no_change() -> UserUpdatePayload {
    UserUpdatePayload { name: None, weight: None, height: None, age: None }
}

fn owner() -> String {
    "owner-principal".to_string()
}

fn stranger() -> String {
    "other-principal".to_string()
}

#[test]
fn add_user_assigns_increasing_ids_from_one() {
    let mut s = AppState::new();
    let a = s.add_user(owner(), payload("a", 70, 6, 60), 100).unwrap();
    let b = s.add_user(owner(), payload("b", 70, 6, 60), 101).unwrap();
    assert_eq!(a.id, 1);
    assert_eq!(b.id, 2);
    assert_eq!(a.user_principal, "owner-principal");
    assert_eq!((a.created_at, a.updated_at), (100, None));
    assert_eq!(s.user_counter(), 2);
}

#[test]
fn ids_are_not_reused_after_delete() {
    let mut s = AppState::new();
    let a = s.add_user(owner(), payload("a", 1, 1, 1), 1).unwrap();
    let b = s.add_user(owner(), payload("b", 1, 1, 1), 2).unwrap();
    s.delete_user(&owner(), b.id).unwrap();
    let c = s.add_user(owner(), payload("c", 1, 1, 1), 3).unwrap();
    assert!(c.id > a.id && c.id > b.id);
    assert_eq!(c.id, 3);
}

#[test]
fn get_user_found_and_missing() {
    let mut s = AppState::new();
    let a = s.add_user(owner(), payload("ann", 70, 6, 60), 5).unwrap();
    let got = s.get_user(a.id).unwrap();
    assert_eq!(got.name, "ann");
    assert_eq!((got.weight, got.height, got.age), (70, 6, 60));
    assert_eq!(
        s.get_user(42).unwrap_err(),
        Error::NotFound { entity: Entity::User, id: 42 }
    );
}

#[test]
fn update_name_only_keeps_other_fields() {
    let mut s = AppState::new();
    let a = s.add_user(owner(), payload("ann", 70, 6, 60), 5).unwrap();
    let p = UserUpdatePayload { name: Some("anna".to_string()), ..no_change() };
    let u = s.update_user(&owner(), a.id, p, 9).unwrap();
    assert_eq!(u.name, "anna");
    assert_eq!((u.weight, u.height, u.age), (70, 6, 60));
    assert_eq!((u.created_at, u.updated_at), (5, Some(9)));
    let stored = s.get_user(a.id).unwrap();
    assert_eq!(stored.name, "anna");
    assert_eq!((stored.weight, stored.height, stored.age), (70, 6, 60));
}

#[test]
fn update_applies_present_numbers() {
    let mut s = AppState::new();
    let a = s.add_user(owner(), payload("ann", 70, 6, 60), 5).unwrap();
    let p = UserUpdatePayload { weight: Some(75), age: Some(61), ..no_change() };
    let u = s.update_user(&owner(), a.id, p, 9).unwrap();
    assert_eq!(u.name, "ann");
    assert_eq!((u.weight, u.height, u.age), (75, 6, 61));
}

#[test]
fn update_missing_user_is_not_found() {
    let mut s = AppState::new();
    assert_eq!(
        s.update_user(&owner(), 7, no_change(), 1).unwrap_err(),
        Error::NotFound { entity: Entity::User, id: 7 }
    );
}

#[test]
fn generate_twice_conflicts_and_get_returns_first() {
    let mut s = AppState::new();
    let a = s.add_user(owner(), payload("ann", 70, 6, 60), 5).unwrap();
    let wp = s.generate_workout_plan(&owner(), a.id, 10).unwrap();
    assert_eq!((wp.id, wp.user_id), (1, a.id));
    assert_eq!((wp.push_ups, wp.sit_ups, wp.running_time), (7, 10, 30));
    assert_eq!((wp.created_at, wp.updated_at), (10, None));
    assert_eq!(
        s.generate_workout_plan(&owner(), a.id, 11).unwrap_err(),
        Error::Exists { user_id: a.id }
    );
    assert_eq!(s.get_user_workout_plan(a.id).unwrap(), wp);
    assert_eq!(s.plan_counter(), 1);
}

#[test]
fn generate_for_missing_user_is_not_found() {
    let mut s = AppState::new();
    assert_eq!(
        s.generate_workout_plan(&owner(), 3, 1).unwrap_err(),
        Error::NotFound { entity: Entity::User, id: 3 }
    );
    assert_eq!(s.plan_counter(), 0);
}

#[test]
fn get_plan_of_user_without_plan_is_not_found() {
    let mut s = AppState::new();
    let a = s.add_user(owner(), payload("ann", 70, 6, 60), 5).unwrap();
    assert_eq!(
        s.get_user_workout_plan(a.id).unwrap_err(),
        Error::NotFound { entity: Entity::WorkoutPlan, id: a.id }
    );
}

#[test]
fn delete_user_removes_user_and_plan() {
    let mut s = AppState::new();
    let a = s.add_user(owner(), payload("ann", 70, 6, 60), 5).unwrap();
    let b = s.add_user(owner(), payload("bob", 90, 5, 30), 6).unwrap();
    s.generate_workout_plan(&owner(), a.id, 10).unwrap();
    let wb = s.generate_workout_plan(&owner(), b.id, 11).unwrap();
    let gone = s.delete_user(&owner(), a.id).unwrap();
    assert_eq!(gone.name, "ann");
    assert_eq!(
        s.get_user_workout_plan(a.id).unwrap_err(),
        Error::NotFound { entity: Entity::WorkoutPlan, id: a.id }
    );
    assert_eq!(
        s.get_user(a.id).unwrap_err(),
        Error::NotFound { entity: Entity::User, id: a.id }
    );
    assert_eq!(s.get_user_workout_plan(b.id).unwrap(), wb);
}

#[test]
fn delete_missing_user_is_not_found() {
    let mut s = AppState::new();
    assert_eq!(
        s.delete_user(&owner(), 4).unwrap_err(),
        Error::NotFound { entity: Entity::User, id: 4 }
    );
}

#[test]
fn update_plan_applies_present_fields() {
    let mut s = AppState::new();
    let a = s.add_user(owner(), payload("ann", 70, 6, 60), 5).unwrap();
    let wp = s.generate_workout_plan(&owner(), a.id, 10).unwrap();
    let p = WorkoutPlanUpdatePayload {
        user_id: Some(99),
        push_ups: Some(20),
        sit_ups: None,
        running_time: Some(45),
    };
    let u = s.update_user_workout_plan(&owner(), wp.id, p, 12).unwrap();
    assert_eq!((u.id, u.user_id), (wp.id, a.id));
    assert_eq!((u.push_ups, u.sit_ups, u.running_time), (20, 10, 45));
    assert_eq!((u.created_at, u.updated_at), (10, Some(12)));
    assert_eq!(s.get_user_workout_plan(a.id).unwrap(), u);
}

#[test]
fn update_missing_plan_is_not_found() {
    let mut s = AppState::new();
    let p = WorkoutPlanUpdatePayload { user_id: None, push_ups: Some(1), sit_ups: None, running_time: None };
    assert_eq!(
        s.update_user_workout_plan(&owner(), 8, p, 1).unwrap_err(),
        Error::NotFound { entity: Entity::WorkoutPlan, id: 8 }
    );
}

#[test]
fn delete_plan_then_generate_again() {
    let mut s = AppState::new();
    let a = s.add_user(owner(), payload("ann", 70, 6, 60), 5).unwrap();
    let wp = s.generate_workout_plan(&owner(), a.id, 10).unwrap();
    assert_eq!(s.delete_user_workout_plan(&owner(), wp.id).unwrap(), wp);
    assert_eq!(
        s.delete_user_workout_plan(&owner(), wp.id).unwrap_err(),
        Error::NotFound { entity: Entity::WorkoutPlan, id: wp.id }
    );
    let again = s.generate_workout_plan(&owner(), a.id, 20).unwrap();
    assert_eq!(again.id, 2);
}

#[test]
fn stranger_is_forbidden_and_nothing_changes() {
    let mut s = AppState::new();
    let a = s.add_user(owner(), payload("ann", 70, 6, 60), 5).unwrap();
    let forbidden = Error::Forbidden { user_id: a.id };
    assert_eq!(
        s.generate_workout_plan(&stranger(), a.id, 7).unwrap_err(),
        forbidden
    );
    assert_eq!(s.plan_counter(), 0);
    let wp = s.generate_workout_plan(&owner(), a.id, 8).unwrap();
    let p = UserUpdatePayload { name: Some("x".to_string()), weight: Some(1), ..no_change() };
    assert_eq!(s.update_user(&stranger(), a.id, p, 9).unwrap_err(), forbidden);
    assert_eq!(s.delete_user(&stranger(), a.id).unwrap_err(), forbidden);
    let pp = WorkoutPlanUpdatePayload { user_id: None, push_ups: Some(1), sit_ups: None, running_time: None };
    assert_eq!(s.update_user_workout_plan(&stranger(), wp.id, pp, 9).unwrap_err(), forbidden);
    assert_eq!(s.delete_user_workout_plan(&stranger(), wp.id).unwrap_err(), forbidden);
    let u = s.get_user(a.id).unwrap();
    assert_eq!(u.name, "ann");
    assert_eq!((u.weight, u.updated_at), (70, None));
    assert_eq!(s.get_user_workout_plan(a.id).unwrap(), wp);
}

#[test]
fn caller_check_reports_each_outcome() {
    let mut s = AppState::new();
    let a = s.add_user(owner(), payload("ann", 70, 6, 60), 5).unwrap();
    assert_eq!(s._is_caller_user(&owner(), &a.id), Ok(()));
    assert_eq!(s._is_caller_user(&stranger(), &a.id), Err(Error::Forbidden { user_id: a.id }));
    assert_eq!(
        s._is_caller_user(&owner(), &9),
        Err(Error::NotFound { entity: Entity::User, id: 9 })
    );
}

#[test]
fn records_come_out_in_id_order() {
    let mut s = AppState::new();
    let a = s.add_user(owner(), payload("ann", 70, 6, 60), 5).unwrap();
    let b = s.add_user(owner(), payload("bob", 90, 5, 30), 6).unwrap();
    let wb = s.generate_workout_plan(&owner(), b.id, 7).unwrap();
    let wa = s.generate_workout_plan(&owner(), a.id, 8).unwrap();
    let users = s.user_records();
    assert_eq!(users.iter().map(|u| u.id).collect::<Vec<u64>>(), vec![a.id, b.id]);
    assert_eq!(users[1].name, "bob");
    assert_eq!(s.plan_records(), vec![wb, wa]);
}

#[test]
fn restore_round_trips_a_store() {
    let mut s = AppState::new();
    let a = s.add_user(owner(), payload("ann", 70, 6, 60), 5).unwrap();
    let b = s.add_user(owner(), payload("bob", 90, 5, 30), 6).unwrap();
    s.delete_user(&owner(), b.id).unwrap();
    let wa = s.generate_workout_plan(&owner(), a.id, 8).unwrap();
    let mut r = AppState::restore(s.user_records(), s.plan_records(), s.user_counter(), s.plan_counter())
        .unwrap();
    assert_eq!(r.user_counter(), 2);
    assert_eq!(r.plan_counter(), 1);
    assert_eq!(r.get_user(a.id).unwrap().name, "ann");
    assert_eq!(r.get_user_workout_plan(a.id).unwrap(), wa);
    let c = r.add_user(owner(), payload("cy", 1, 1, 1), 9).unwrap();
    assert_eq!(c.id, 3);
}

#[test]
fn restore_refuses_inconsistent_records() {
    let mut s = AppState::new();
    let a = s.add_user(owner(), payload("ann", 70, 6, 60), 5).unwrap();
    let wa = s.generate_workout_plan(&owner(), a.id, 8).unwrap();
    // a user id above its counter
    assert!(AppState::restore(s.user_records(), vec![], 0, 0).is_none());
    // the same user twice
    let twice = vec![s.user_records().remove(0), s.user_records().remove(0)];
    assert!(AppState::restore(twice, vec![], 1, 0).is_none());
    // a plan whose user is missing
    assert!(AppState::restore(vec![], vec![wa], 1, 1).is_none());
    // two plans of one user
    let mut other = wa;
    other.id = 2;
    assert!(AppState::restore(s.user_records(), vec![wa, other], 1, 2).is_none());
    // a plan id above its counter
    assert!(AppState::restore(s.user_records(), vec![wa], 1, 0).is_none());
    assert!(AppState::restore(s.user_records(), vec![wa], 1, 1).is_some());
}

#[test]
fn refusals_need_no_free_plan_id() {
    let mut s = AppState::new();
    let a = s.add_user(owner(), payload("ann", 70, 6, 60), 5).unwrap();
    let mut full = AppState::restore(s.user_records(), vec![], s.user_counter(), u64::MAX).unwrap();
    assert_eq!(
        full.generate_workout_plan(&stranger(), a.id, 6).unwrap_err(),
        Error::Forbidden { user_id: a.id }
    );
    assert_eq!(
        full.generate_workout_plan(&owner(), 77, 6).unwrap_err(),
        Error::NotFound { entity: Entity::User, id: 77 }
    );
    assert_eq!(full.plan_counter(), u64::MAX);
}

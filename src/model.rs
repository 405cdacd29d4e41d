use vstd::prelude::*;

verus! {

/// A registered user and the profile attributes that plans are derived from.
#[derive(Debug)]
pub struct User {
    pub id: u64,
    /// Textual form of the identity that may change or delete this user.
    pub user_principal: String,
    pub name: String,
    pub weight: u64,
    pub height: u64,
    pub age: u64,
    pub created_at: u64,
    pub updated_at: Option<u64>,
}

impl User {
    /// A field-by-field copy of this user.
    pub fn duplicate(&self) -> (r: User)
        ensures
            r == *self,
    {
        User {
            id: self.id,
            user_principal: self.user_principal.clone(),
            name: self.name.clone(),
            weight: self.weight,
            height: self.height,
            age: self.age,
            created_at: self.created_at,
            updated_at: self.updated_at,
        }
    }
}

/// A stored workout plan, linked to its user by `user_id`.
#[derive(Clone, Copy, Debug, PartialEq, Eq, Structural)]
pub struct WorkoutPlan {
    pub id: u64,
    pub user_id: u64,
    pub push_ups: u64,
    pub sit_ups: u64,
    /// Minutes of running.
    pub running_time: u64,
    pub created_at: u64,
    pub updated_at: Option<u64>,
}

/// The attributes of a new user.
#[derive(Debug)]
pub struct UserPayload {
    pub name: String,
    pub weight: u64,
    pub height: u64,
    pub age: u64,
}

/// A partial change to a user: only the fields that are present are applied.
#[derive(Debug)]
pub struct UserUpdatePayload {
    pub name: Option<String>,
    pub weight: Option<u64>,
    pub height: Option<u64>,
    pub age: Option<u64>,
}

/// The intensity of a plan for one user, before it is stored.
#[derive(Clone, Copy, Debug, PartialEq, Eq, Structural)]
pub struct WorkoutPlanPayload {
    pub user_id: u64,
    pub push_ups: u64,
    pub sit_ups: u64,
    pub running_time: u64,
}

/// A partial change to a plan: only the intensity fields that are present are
/// applied; a plan never moves to another user, so `user_id` is not applied.
#[derive(Clone, Copy, Debug, PartialEq, Eq, Structural)]
pub struct WorkoutPlanUpdatePayload {
    pub user_id: Option<u64>,
    pub push_ups: Option<u64>,
    pub sit_ups: Option<u64>,
    pub running_time: Option<u64>,
}

/// The kind of record that an error refers to.
#[derive(Clone, Copy, Debug, PartialEq, Eq, Structural)]
pub enum Entity {
    User,
    WorkoutPlan,
}

/// The ways an operation can fail.
#[derive(Clone, Copy, Debug, PartialEq, Eq, Structural)]
pub enum Error {
    /// No record of kind `entity` was found under the key `id` that the
    /// lookup used (a user id when plans are looked up by user).
    NotFound { entity: Entity, id: u64 },
    /// The caller is not the identity that owns user `user_id`.
    Forbidden { user_id: u64 },
    /// User `user_id` already has a workout plan.
    Exists { user_id: u64 },
    /// Plan `plan_id` was expected in storage but was not there.
    ServerError { plan_id: u64 },
}

} // verus!

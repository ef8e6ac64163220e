//! The messages of the `scim` control RPC service. Absent text fields are empty strings, as
//! in protocol buffers.
use vstd::prelude::*;

verus! {

/// An e-mail address.
#[derive(Debug)]
pub struct Email {
    pub value: String,
    pub email_type: String,
    pub primary: bool,
}

/// Name parts.
#[derive(Debug)]
pub struct Name {
    pub formatted: String,
    pub family_name: String,
    pub given_name: String,
}

/// A user.
#[derive(Debug)]
pub struct User {
    pub id: String,
    pub external_id: String,
    pub user_name: String,
    pub name: Option<Name>,
    pub display_name: String,
    pub emails: Vec<Email>,
    pub active: bool,
}

/// A member of a group.
#[derive(Debug)]
pub struct GroupMember {
    pub value: String,
    pub reference: String,
    pub display: String,
}

/// A group.
#[derive(Debug)]
pub struct Group {
    pub id: String,
    pub display_name: String,
    pub members: Vec<GroupMember>,
}

/// Request to create a user.
#[derive(Debug)]
pub struct CreateUserRequest {
    pub user_name: String,
    pub emails: Vec<Email>,
    pub display_name: String,
    pub active: bool,
    pub external_id: String,
    pub name: Option<Name>,
}

/// Request to replace a user.
#[derive(Debug)]
pub struct UpdateUserRequest {
    pub id: String,
    pub user_name: String,
    pub emails: Vec<Email>,
    pub display_name: String,
    pub active: bool,
    pub external_id: String,
    pub name: Option<Name>,
}

/// Request for one user.
#[derive(Debug)]
pub struct GetUserRequest {
    pub id: String,
}

/// Request to remove a user.
#[derive(Debug)]
pub struct DeleteUserRequest {
    pub id: String,
}

/// A user in a reply.
#[derive(Debug)]
pub struct UserResponse {
    pub user: Option<User>,
}

/// Reply to a removal.
#[derive(Debug)]
pub struct DeleteResponse {
    pub success: bool,
    pub message: String,
}

/// Request for a page of users.
#[derive(Debug)]
pub struct ListUsersRequest {
    pub filter: String,
    pub start_index: i32,
    pub count: i32,
}

/// A page of users.
#[derive(Debug)]
pub struct ListUsersResponse {
    pub users: Vec<User>,
    pub total_results: i32,
    pub items_per_page: i32,
    pub start_index: i32,
}

/// Request to create a group.
#[derive(Debug)]
pub struct CreateGroupRequest {
    pub display_name: String,
    pub members: Vec<GroupMember>,
}

/// Request to replace a group.
#[derive(Debug)]
pub struct UpdateGroupRequest {
    pub id: String,
    pub display_name: String,
    pub members: Vec<GroupMember>,
}

/// Request for one group.
#[derive(Debug)]
pub struct GetGroupRequest {
    pub id: String,
}

/// Request to remove a group.
#[derive(Debug)]
pub struct DeleteGroupRequest {
    pub id: String,
}

/// A group in a reply.
#[derive(Debug)]
pub struct GroupResponse {
    pub group: Option<Group>,
}

/// Request for a page of groups.
#[derive(Debug)]
pub struct ListGroupsRequest {
    pub filter: String,
    pub start_index: i32,
    pub count: i32,
}

/// A page of groups.
#[derive(Debug)]
pub struct ListGroupsResponse {
    pub groups: Vec<Group>,
    pub total_results: i32,
    pub items_per_page: i32,
    pub start_index: i32,
}

/// Request for the store's counts.
#[derive(Debug)]
pub struct StatsRequest {}

/// The store's counts.
#[derive(Debug)]
pub struct StatsResponse {
    pub total_users: i32,
    pub total_groups: i32,
}

/// Request to empty the store.
#[derive(Debug)]
pub struct ClearAllRequest {}

/// Reply to emptying the store.
#[derive(Debug)]
pub struct ClearAllResponse {
    pub success: bool,
}

/// The kind of a refused call.
#[derive(Debug, PartialEq, Eq, Structural)]
pub enum Code {
    NotFound,
    AlreadyExists,
}

/// A refused call: its kind and a message.
#[derive(Debug)]
pub struct Status {
    pub code: Code,
    pub message: String,
}

} // verus!

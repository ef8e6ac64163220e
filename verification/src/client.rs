//! The command-line control client: which request each command sends.
use vstd::prelude::*;
use crate::proto::{
    ClearAllRequest, CreateGroupRequest, CreateUserRequest, DeleteGroupRequest, DeleteUserRequest,
    Email, GetGroupRequest, GetUserRequest, GroupMember, ListGroupsRequest, ListUsersRequest, Name,
    StatsRequest, UpdateGroupRequest, UpdateUserRequest,
};
use crate::text::{join2, owned};

verus! {

broadcast use vstd::string::group_string_axioms;

/// A command of the control client.
#[derive(Debug)]
pub enum ClientCommand {
    /// Create a new SCIM User
    CreateUser {
        username: String,
        email: Vec<String>,
        display_name: Option<String>,
        active: bool,
        external_id: Option<String>,
        given_name: Option<String>,
        family_name: Option<String>,
    },
    /// Retrieve a SCIM User by ID
    GetUser { id: String },
    /// Update an existing SCIM User
    UpdateUser {
        id: String,
        username: String,
        email: Vec<String>,
        display_name: Option<String>,
        active: bool,
        external_id: Option<String>,
        given_name: Option<String>,
        family_name: Option<String>,
    },
    /// Delete a SCIM User by ID
    DeleteUser { id: String },
    /// List SCIM Users
    ListUsers { filter: Option<String>, start_index: i32, count: i32 },
    /// Create a new SCIM Group
    CreateGroup { name: String, member: Vec<String> },
    /// Retrieve a SCIM Group by ID
    GetGroup { id: String },
    /// Update an existing SCIM Group
    UpdateGroup { id: String, name: String, member: Vec<String> },
    /// Delete a SCIM Group by ID
    DeleteGroup { id: String },
    /// List SCIM Groups
    ListGroups { filter: Option<String>, start_index: i32, count: i32 },
    /// Fetch SCIM Server database statistics
    Stats,
    /// Clear all users and groups in the database
    ClearAll,
}

/// A request of the control service.
#[derive(Debug)]
pub enum ControlRequest {
    CreateUser(CreateUserRequest),
    GetUser(GetUserRequest),
    UpdateUser(UpdateUserRequest),
    DeleteUser(DeleteUserRequest),
    ListUsers(ListUsersRequest),
    CreateGroup(CreateGroupRequest),
    GetGroup(GetGroupRequest),
    UpdateGroup(UpdateGroupRequest),
    DeleteGroup(DeleteGroupRequest),
    ListGroups(ListGroupsRequest),
    Stats(StatsRequest),
    ClearAll(ClearAllRequest),
}

/// The formatted name for the given and family names: both joined by a space, either
/// alone, or empty.
pub open spec fn formatted_name_of(given: Option<String>, family: Option<String>) -> Seq<char> {
    match (given, family) {
        (Some(g), Some(f)) => g@ + " "@ + f@,
        (Some(g), None) => g@,
        (None, Some(f)) => f@,
        (None, None) => seq![],
    }
}

/// The text of an optional string, empty when absent.
pub open spec fn text_or_empty(o: Option<String>) -> Seq<char> {
    match o {
        Some(s) => s@,
        None => seq![],
    }
}

/// `es` are the work addresses `vals`, none primary.
pub open spec fn are_work_emails(es: Seq<Email>, vals: Seq<String>) -> bool {
    &&& es.len() == vals.len()
    &&& forall|i: int|
        0 <= i < es.len() ==> {
            &&& (#[trigger] es[i]).value@ == vals[i]@
            &&& es[i].email_type@ == "work"@
            &&& !es[i].primary
        }
}

/// `ms` are members referring to the user ids `ids`, with no reference and no shown name.
pub open spec fn are_bare_members(ms: Seq<GroupMember>, ids: Seq<String>) -> bool {
    &&& ms.len() == ids.len()
    &&& forall|i: int|
        0 <= i < ms.len() ==> {
            &&& (#[trigger] ms[i]).value@ == ids[i]@
            &&& ms[i].reference@ == Seq::<char>::empty()
            &&& ms[i].display@ == Seq::<char>::empty()
        }
}

fn text_of(o: Option<String>) -> (r: String)
    ensures
        r@ == text_or_empty(o),
{
    match o {
        Some(s) => s,
        None => String::new(),
    }
}

fn formatted_name(given: &Option<String>, family: &Option<String>) -> (r: String)
    ensures
        r@ == formatted_name_of(*given, *family),
{
    match (given, family) {
        (Some(g), Some(f)) => {
            let mut r = join2(g.as_str(), " ");
            r.append(f.as_str());
            r
        },
        (Some(g), None) => g.clone(),
        (None, Some(f)) => f.clone(),
        (None, None) => String::new(),
    }
}

fn work_emails(vals: Vec<String>) -> (r: Vec<Email>)
    ensures
        are_work_emails(r@, vals@),
{
    let mut out: Vec<Email> = Vec::new();
    let mut i: usize = 0;
    while i < vals.len()
        invariant
            i <= vals.len(),
            out@.len() == i,
            forall|j: int|
                0 <= j < i ==> {
                    &&& (#[trigger] out@[j]).value@ == vals@[j]@
                    &&& out@[j].email_type@ == "work"@
                    &&& !out@[j].primary
                },
        decreases vals.len() - i,
    {
        out.push(Email { value: vals[i].clone(), email_type: owned("work"), primary: false });
        i = i + 1;
    }
    out
}

fn bare_members(ids: Vec<String>) -> (r: Vec<GroupMember>)
    ensures
        are_bare_members(r@, ids@),
{
    let mut out: Vec<GroupMember> = Vec::new();
    let mut i: usize = 0;
    while i < ids.len()
        invariant
            i <= ids.len(),
            out@.len() == i,
            forall|j: int|
                0 <= j < i ==> {
                    &&& (#[trigger] out@[j]).value@ == ids@[j]@
                    &&& out@[j].reference@ == Seq::<char>::empty()
                    &&& out@[j].display@ == Seq::<char>::empty()
                },
        decreases ids.len() - i,
    {
        out.push(GroupMember { value: ids[i].clone(), reference: String::new(), display: String::new() });
        i = i + 1;
    }
    out
}

/// `r` is the request that command `cmd` sends.
pub open spec fn is_request_for(r: ControlRequest, cmd: ClientCommand) -> bool {
    match cmd {
        ClientCommand::CreateUser {
            username,
            email,
            display_name,
            active,
            external_id,
            given_name,
            family_name,
        } => r matches ControlRequest::CreateUser(q) && q.user_name == username && are_work_emails(
            q.emails@,
            email@,
        ) && q.display_name@ == text_or_empty(display_name) && q.active == active
            && q.external_id@ == text_or_empty(external_id) && (q.name matches Some(n)
            && n.formatted@ == formatted_name_of(given_name, family_name) && n.family_name@
            == text_or_empty(family_name) && n.given_name@ == text_or_empty(given_name)),
        ClientCommand::GetUser { id } => r matches ControlRequest::GetUser(q) && q.id == id,
        ClientCommand::UpdateUser {
            id,
            username,
            email,
            display_name,
            active,
            external_id,
            given_name,
            family_name,
        } => r matches ControlRequest::UpdateUser(q) && q.id == id && q.user_name == username
            && are_work_emails(q.emails@, email@) && q.display_name@ == text_or_empty(display_name)
            && q.active == active && q.external_id@ == text_or_empty(external_id) && (q.name matches Some(
            n,
        ) && n.formatted@ == formatted_name_of(given_name, family_name) && n.family_name@
            == text_or_empty(family_name) && n.given_name@ == text_or_empty(given_name)),
        ClientCommand::DeleteUser { id } => r matches ControlRequest::DeleteUser(q) && q.id == id,
        ClientCommand::ListUsers { filter, start_index, count } => r matches ControlRequest::ListUsers(
            q,
        ) && q.filter@ == text_or_empty(filter) && q.start_index == start_index && q.count == count,
        ClientCommand::CreateGroup { name, member } => r matches ControlRequest::CreateGroup(q)
            && q.display_name == name && are_bare_members(q.members@, member@),
        ClientCommand::GetGroup { id } => r matches ControlRequest::GetGroup(q) && q.id == id,
        ClientCommand::UpdateGroup { id, name, member } => r matches ControlRequest::UpdateGroup(q)
            && q.id == id && q.display_name == name && are_bare_members(q.members@, member@),
        ClientCommand::DeleteGroup { id } => r matches ControlRequest::DeleteGroup(q) && q.id == id,
        ClientCommand::ListGroups { filter, start_index, count } => r matches ControlRequest::ListGroups(
            q,
        ) && q.filter@ == text_or_empty(filter) && q.start_index == start_index && q.count == count,
        ClientCommand::Stats => r matches ControlRequest::Stats(_),
        ClientCommand::ClearAll => r matches ControlRequest::ClearAll(_),
    }
}

/// The request that a client command sends.
pub fn client_request(cmd: ClientCommand) -> (r: ControlRequest)
    ensures
        is_request_for(r, cmd),
{
    match cmd {
        ClientCommand::CreateUser {
            username,
            email,
            display_name,
            active,
            external_id,
            given_name,
            family_name,
        } => {
            let emails = work_emails(email);
            let formatted = formatted_name(&given_name, &family_name);
            ControlRequest::CreateUser(
                CreateUserRequest {
                    user_name: username,
                    emails,
                    display_name: text_of(display_name),
                    active,
                    external_id: text_of(external_id),
                    name: Some(
                        Name {
                            formatted,
                            family_name: text_of(family_name),
                            given_name: text_of(given_name),
                        },
                    ),
                },
            )
        },
        ClientCommand::GetUser { id } => ControlRequest::GetUser(GetUserRequest { id }),
        ClientCommand::UpdateUser {
            id,
            username,
            email,
            display_name,
            active,
            external_id,
            given_name,
            family_name,
        } => {
            let emails = work_emails(email);
            let formatted = formatted_name(&given_name, &family_name);
            ControlRequest::UpdateUser(
                UpdateUserRequest {
                    id,
                    user_name: username,
                    emails,
                    display_name: text_of(display_name),
                    active,
                    external_id: text_of(external_id),
                    name: Some(
                        Name {
                            formatted,
                            family_name: text_of(family_name),
                            given_name: text_of(given_name),
                        },
                    ),
                },
            )
        },
        ClientCommand::DeleteUser { id } => ControlRequest::DeleteUser(DeleteUserRequest { id }),
        ClientCommand::ListUsers { filter, start_index, count } => ControlRequest::ListUsers(
            ListUsersRequest { filter: text_of(filter), start_index, count },
        ),
        ClientCommand::CreateGroup { name, member } => ControlRequest::CreateGroup(
            CreateGroupRequest { display_name: name, members: bare_members(member) },
        ),
        ClientCommand::GetGroup { id } => ControlRequest::GetGroup(GetGroupRequest { id }),
        ClientCommand::UpdateGroup { id, name, member } => ControlRequest::UpdateGroup(
            UpdateGroupRequest { id, display_name: name, members: bare_members(member) },
        ),
        ClientCommand::DeleteGroup { id } => ControlRequest::DeleteGroup(DeleteGroupRequest { id }),
        ClientCommand::ListGroups { filter, start_index, count } => ControlRequest::ListGroups(
            ListGroupsRequest { filter: text_of(filter), start_index, count },
        ),
        ClientCommand::Stats => ControlRequest::Stats(StatsRequest {  }),
        ClientCommand::ClearAll => ControlRequest::ClearAll(ClearAllRequest {  }),
    }
}

} // verus!

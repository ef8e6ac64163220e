//! The control RPC service over the store: each call as a function from a request to a
//! reply or a refusal.
use vstd::prelude::*;
use crate::database::{
    clone_opt_string, group_name_taken, group_name_taken_by_other, groups_view, hydrate_members,
    is_group_listing, is_user_listing, page, user_name_taken, user_name_taken_by_other, users_view,
    Database, DbEmail, DbError, DbGroup, DbGroupMember, DbUser, EmailView, GroupView, MemberView,
    UserView,
};
use crate::filter::{filter_of, group_passes, user_passes};
use crate::proto::{
    ClearAllRequest, ClearAllResponse, Code, CreateGroupRequest, CreateUserRequest,
    DeleteGroupRequest, DeleteResponse, DeleteUserRequest, Email, GetGroupRequest, GetUserRequest,
    Group, GroupMember, GroupResponse, ListGroupsRequest, ListGroupsResponse, ListUsersRequest,
    ListUsersResponse, Name, StatsRequest, StatsResponse, Status, UpdateGroupRequest,
    UpdateUserRequest, User, UserResponse,
};
use crate::text::{eq_ignore_ascii_case, join2, owned};

verus! {

broadcast use vstd::string::group_string_axioms;

/// The text of an optional string, empty when absent.
pub open spec fn or_empty(o: Option<Seq<char>>) -> Seq<char> {
    match o {
        Some(s) => s,
        None => seq![],
    }
}

/// No text for the empty string.
pub open spec fn none_if_empty(s: Seq<char>) -> Option<Seq<char>> {
    if s.len() == 0 {
        None
    } else {
        Some(s)
    }
}

/// The kind and message of the refusal for a store error.
pub open spec fn status_code_for(e: DbError) -> Code {
    match e {
        DbError::UserNotFound(_) => Code::NotFound,
        DbError::GroupNotFound(_) => Code::NotFound,
        DbError::UserAlreadyExists(_) => Code::AlreadyExists,
        DbError::GroupAlreadyExists(_) => Code::AlreadyExists,
    }
}

/// The message of the refusal for a store error.
pub open spec fn status_message_for(e: DbError) -> Seq<char> {
    match e {
        DbError::UserNotFound(id) => "User not found: "@ + id@,
        DbError::GroupNotFound(id) => "Group not found: "@ + id@,
        DbError::UserAlreadyExists(name) => "User with username '"@ + name@ + "' already exists"@,
        DbError::GroupAlreadyExists(name) => "Group with displayName '"@ + name@
            + "' already exists"@,
    }
}

/// `s` is the refusal for the store error `e`.
pub open spec fn is_status_for(s: Status, e: DbError) -> bool {
    s.code == status_code_for(e) && s.message@ == status_message_for(e)
}

/// The refusal for a store error.
pub fn map_db_error(err: DbError) -> (r: Status)
    ensures
        is_status_for(r, err),
{
    match err {
        DbError::UserNotFound(id) => Status {
            code: Code::NotFound,
            message: join2("User not found: ", id.as_str()),
        },
        DbError::GroupNotFound(id) => Status {
            code: Code::NotFound,
            message: join2("Group not found: ", id.as_str()),
        },
        DbError::UserAlreadyExists(username) => {
            let mut m = join2("User with username '", username.as_str());
            m.append("' already exists");
            Status { code: Code::AlreadyExists, message: m }
        },
        DbError::GroupAlreadyExists(name) => {
            let mut m = join2("Group with displayName '", name.as_str());
            m.append("' already exists");
            Status { code: Code::AlreadyExists, message: m }
        },
    }
}

/// `p` is the message form of user `u`: absent texts become empty strings.
pub open spec fn is_proto_user_of(p: User, u: UserView) -> bool {
    &&& p.id@ == u.id
    &&& p.external_id@ == or_empty(u.external_id)
    &&& p.user_name@ == u.user_name
    &&& p.name matches Some(n) && n.formatted@ == or_empty(u.formatted_name)
        && n.family_name@ == or_empty(u.family_name) && n.given_name@ == or_empty(u.given_name)
    &&& p.display_name@ == or_empty(u.display_name)
    &&& p.emails@.len() == u.emails.len()
    &&& forall|i: int|
        0 <= i < p.emails@.len() ==> {
            &&& (#[trigger] p.emails@[i]).value@ == u.emails[i].value
            &&& p.emails@[i].email_type@ == or_empty(u.emails[i].email_type)
            &&& p.emails@[i].primary == u.emails[i].primary
        }
    &&& p.active == u.active
}

/// `p` is the message form of group `g`: members carry no reference and an empty shown name
/// when they have none.
pub open spec fn is_proto_group_of(p: Group, g: GroupView) -> bool {
    &&& p.id@ == g.id
    &&& p.display_name@ == g.display_name
    &&& p.members@.len() == g.members.len()
    &&& forall|i: int|
        0 <= i < p.members@.len() ==> {
            &&& (#[trigger] p.members@[i]).value@ == g.members[i].value
            &&& p.members@[i].reference@ == Seq::<char>::empty()
            &&& p.members@[i].display@ == or_empty(g.members[i].display)
        }
}

/// The text of an optional string, empty when absent.
fn unwrap_or_empty(o: Option<String>) -> (r: String)
    ensures
        r@ == or_empty(opt_text(o)),
{
    match o {
        Some(s) => s,
        None => String::new(),
    }
}

/// The characters of an optional string.
pub open spec fn opt_text(o: Option<String>) -> Option<Seq<char>> {
    crate::database::opt_view(o)
}

/// The message form of a stored user.
pub fn db_user_to_proto(u: DbUser) -> (r: User)
    ensures
        is_proto_user_of(r, u@),
{
    let ghost uv = u@;
    let mut emails: Vec<Email> = Vec::new();
    let mut i: usize = 0;
    while i < u.emails.len()
        invariant
            i <= u.emails.len(),
            uv == u@,
            emails@.len() == i,
            forall|j: int|
                0 <= j < i ==> {
                    &&& (#[trigger] emails@[j]).value@ == uv.emails[j].value
                    &&& emails@[j].email_type@ == or_empty(uv.emails[j].email_type)
                    &&& emails@[j].primary == uv.emails[j].primary
                },
        decreases u.emails.len() - i,
    {
        let e = &u.emails[i];
        emails.push(
            Email {
                value: e.value.clone(),
                email_type: unwrap_or_empty(clone_opt_string(&e.email_type)),
                primary: e.primary,
            },
        );
        i = i + 1;
    }
    User {
        id: u.id,
        external_id: unwrap_or_empty(u.external_id),
        user_name: u.user_name,
        name: Some(
            Name {
                formatted: unwrap_or_empty(u.formatted_name),
                family_name: unwrap_or_empty(u.family_name),
                given_name: unwrap_or_empty(u.given_name),
            },
        ),
        display_name: unwrap_or_empty(u.display_name),
        emails,
        active: u.active,
    }
}

/// The message form of a stored group.
pub fn db_group_to_proto(g: DbGroup) -> (r: Group)
    ensures
        is_proto_group_of(r, g@),
{
    let ghost gv = g@;
    let mut members: Vec<GroupMember> = Vec::new();
    let mut i: usize = 0;
    while i < g.members.len()
        invariant
            i <= g.members.len(),
            gv == g@,
            members@.len() == i,
            forall|j: int|
                0 <= j < i ==> {
                    &&& (#[trigger] members@[j]).value@ == gv.members[j].value
                    &&& members@[j].reference@ == Seq::<char>::empty()
                    &&& members@[j].display@ == or_empty(gv.members[j].display)
                },
        decreases g.members.len() - i,
    {
        let m = &g.members[i];
        members.push(
            GroupMember {
                value: m.value.clone(),
                reference: String::new(),
                display: unwrap_or_empty(clone_opt_string(&m.display)),
            },
        );
        i = i + 1;
    }
    Group { id: g.id, display_name: g.display_name, members }
}

/// The e-mail addresses of a request, each with its type given.
pub open spec fn request_emails(es: Seq<Email>) -> Seq<EmailView> {
    es.map_values(
        |e: Email| EmailView { value: e.value@, email_type: Some(e.email_type@), primary: e.primary },
    )
}

/// The user a create or update request describes, with the given id and times: empty
/// external id and display name count as absent, name parts are present (empty when the
/// request has no name).
pub open spec fn request_user(
    external_id: String,
    user_name: String,
    name: Option<Name>,
    display_name: String,
    emails: Seq<Email>,
    active: bool,
    id: Seq<char>,
    created: crate::clock::Timestamp,
    last_modified: crate::clock::Timestamp,
) -> UserView {
    UserView {
        id,
        external_id: none_if_empty(external_id@),
        user_name: user_name@,
        formatted_name: Some(
            match name {
                Some(n) => n.formatted@,
                None => seq![],
            },
        ),
        family_name: Some(
            match name {
                Some(n) => n.family_name@,
                None => seq![],
            },
        ),
        given_name: Some(
            match name {
                Some(n) => n.given_name@,
                None => seq![],
            },
        ),
        display_name: none_if_empty(display_name@),
        emails: request_emails(emails),
        active,
        created,
        last_modified,
    }
}

/// The members of a request: an empty shown name counts as absent.
pub open spec fn request_members(ms: Seq<GroupMember>) -> Seq<MemberView> {
    ms.map_values(|m: GroupMember| MemberView { value: m.value@, display: none_if_empty(m.display@) })
}

/// No string for the empty one.
fn optional_text(s: String) -> (r: Option<String>)
    ensures
        opt_text(r) == none_if_empty(s@),
{
    if s.as_str().is_empty() {
        None
    } else {
        Some(s)
    }
}

/// The store's e-mail addresses for those of a request.
fn request_to_db_emails(es: Vec<Email>) -> (r: Vec<DbEmail>)
    ensures
        r@.map_values(|e: DbEmail| e@) == request_emails(es@),
{
    let ghost target = request_emails(es@);
    let mut out: Vec<DbEmail> = Vec::new();
    let mut i: usize = 0;
    while i < es.len()
        invariant
            i <= es.len(),
            target == request_emails(es@),
            out@.len() == i,
            out@.map_values(|e: DbEmail| e@) =~= target.take(i as int),
        decreases es.len() - i,
    {
        let e = &es[i];
        let d = DbEmail {
            value: e.value.clone(),
            email_type: Some(e.email_type.clone()),
            primary: e.primary,
        };
        out.push(d);
        assert(out@.map_values(|e: DbEmail| e@) =~= target.take(i + 1)) by {
            assert(out@[i as int]@ == target[i as int]);
        }
        i = i + 1;
    }
    assert(target.take(es.len() as int) =~= target);
    out
}

/// The store's members for those of a request.
fn request_to_db_members(ms: Vec<GroupMember>) -> (r: Vec<DbGroupMember>)
    ensures
        crate::database::members_view(r@) == request_members(ms@),
{
    let ghost target = request_members(ms@);
    let mut out: Vec<DbGroupMember> = Vec::new();
    let mut i: usize = 0;
    while i < ms.len()
        invariant
            i <= ms.len(),
            target == request_members(ms@),
            out@.len() == i,
            crate::database::members_view(out@) =~= target.take(i as int),
        decreases ms.len() - i,
    {
        let m = &ms[i];
        let d = DbGroupMember { value: m.value.clone(), display: optional_text(m.display.clone()) };
        out.push(d);
        assert(crate::database::members_view(out@) =~= target.take(i + 1)) by {
            assert(out@[i as int]@ == target[i as int]);
        }
        i = i + 1;
    }
    assert(target.take(ms.len() as int) =~= target);
    out
}

/// The first position of a list request (1 for zero or less).
pub open spec fn rpc_start(start_index: i32) -> usize {
    if start_index <= 0 {
        1
    } else {
        start_index as usize
    }
}

/// The page size of a list request (20 for zero or less).
pub open spec fn rpc_count(count: i32) -> usize {
    if count <= 0 {
        20
    } else {
        count as usize
    }
}

/// The filter text of a list request; the empty string means none.
pub open spec fn rpc_filter(filter: String) -> Option<String> {
    if filter@.len() == 0 {
        None
    } else {
        Some(filter)
    }
}

/// The control service: each call reads or changes the store it holds.
pub struct ScimControlService {
    pub db: Database,
}

impl ScimControlService {
    /// A service over `db`.
    pub fn new(db: Database) -> (r: ScimControlService)
        ensures
            r.db == db,
    {
        ScimControlService { db }
    }

    /// Creates a user from a request.
    pub fn create_user(&mut self, req: CreateUserRequest) -> (r: Result<UserResponse, Status>)
        requires
            old(self).db.wf(),
        ensures
            final(self).db.wf(),
            r is Err <==> user_name_taken(old(self).db.users(), req.user_name@),
            r matches Err(s) ==> is_status_for(s, DbError::UserAlreadyExists(req.user_name))
                && final(self).db == old(self).db,
            r matches Ok(resp) ==> exists|u: UserView|
                #![trigger old(self).db.users().insert(u.id, u)]
                final(self).db.users() == old(self).db.users().insert(u.id, u) && u
                    == request_user(
                    req.external_id,
                    req.user_name,
                    req.name,
                    req.display_name,
                    req.emails@,
                    req.active,
                    u.id,
                    u.created,
                    u.created,
                ) && (match req.name {
                    Some(n) => u.given_name == Some(n.given_name@) && u.family_name == Some(
                        n.family_name@,
                    ),
                    None => u.given_name == Some(Seq::<char>::empty()) && u.family_name == Some(
                        Seq::<char>::empty(),
                    ),
                }) && final(self).db.groups() == old(self).db.groups() && (resp.user matches Some(
                    p,
                ) && is_proto_user_of(p, u)),
    {
        let ghost rq = req;
        let emails = request_to_db_emails(req.emails);
        let (formatted, family, given) = match req.name {
            Some(n) => (n.formatted, n.family_name, n.given_name),
            None => (String::new(), String::new(), String::new()),
        };
        let external_id = optional_text(req.external_id);
        let display_name = optional_text(req.display_name);
        match self.db.create_user(
            external_id,
            req.user_name,
            Some(formatted),
            Some(family),
            Some(given),
            display_name,
            emails,
            req.active,
        ) {
            Ok(user) => {
                let ghost u = user@;
                assert(u =~= request_user(
                    rq.external_id,
                    rq.user_name,
                    rq.name,
                    rq.display_name,
                    rq.emails@,
                    rq.active,
                    u.id,
                    u.created,
                    u.created,
                ));
                Ok(UserResponse { user: Some(db_user_to_proto(user)) })
            },
            Err(e) => Err(map_db_error(e)),
        }
    }

    /// The user a request names.
    pub fn get_user(&self, req: GetUserRequest) -> (r: Result<UserResponse, Status>)
        requires
            self.db.wf(),
        ensures
            r is Ok <==> self.db.users().contains_key(req.id@),
            r matches Ok(resp) ==> resp.user matches Some(p) && is_proto_user_of(
                p,
                self.db.users()[req.id@],
            ),
            r matches Err(s) ==> is_status_for(s, DbError::UserNotFound(req.id)),
    {
        match self.db.get_user(req.id.as_str()) {
            Some(user) => Ok(UserResponse { user: Some(db_user_to_proto(user)) }),
            None => Err(map_db_error(DbError::UserNotFound(req.id))),
        }
    }

    /// Replaces a user from a request.
    pub fn update_user(&mut self, req: UpdateUserRequest) -> (r: Result<UserResponse, Status>)
        requires
            old(self).db.wf(),
        ensures
            final(self).db.wf(),
            !old(self).db.users().contains_key(req.id@) ==> (r matches Err(s) && is_status_for(
                s,
                DbError::UserNotFound(req.id),
            ) && final(self).db == old(self).db),
            old(self).db.users().contains_key(req.id@) && !eq_ignore_ascii_case(
                old(self).db.users()[req.id@].user_name,
                req.user_name@,
            ) && user_name_taken_by_other(old(self).db.users(), req.user_name@, Some(req.id@))
                ==> (r matches Err(s) && is_status_for(s, DbError::UserAlreadyExists(req.user_name))
                && final(self).db == old(self).db),
            r is Ok <==> old(self).db.users().contains_key(req.id@) && !(!eq_ignore_ascii_case(
                old(self).db.users()[req.id@].user_name,
                req.user_name@,
            ) && user_name_taken_by_other(old(self).db.users(), req.user_name@, Some(req.id@))),
            r matches Ok(resp) ==> final(self).db.users().contains_key(req.id@) && final(self).db.users() == old(self).db.users().insert(req.id@, final(self).db.users()[req.id@])
                && final(self).db.users()[req.id@] == request_user(
                req.external_id,
                req.user_name,
                req.name,
                req.display_name,
                req.emails@,
                req.active,
                req.id@,
                old(self).db.users()[req.id@].created,
                final(self).db.users()[req.id@].last_modified,
            ) && (match req.name {
                Some(n) => final(self).db.users()[req.id@].given_name == Some(n.given_name@)
                    && final(self).db.users()[req.id@].family_name == Some(n.family_name@),
                None => final(self).db.users()[req.id@].given_name == Some(Seq::<char>::empty())
                    && final(self).db.users()[req.id@].family_name == Some(Seq::<char>::empty()),
            }) && (resp.user matches Some(p) && is_proto_user_of(
                p,
                final(self).db.users()[req.id@],
            )) && final(self).db.groups() == old(self).db.groups().map_values(
                |g: GroupView| crate::database::refresh_member_names(
                    g,
                    req.id@,
                    crate::database::member_display_of(final(self).db.users()[req.id@]),
                ),
            ),
    {
        let ghost rq = req;
        let emails = request_to_db_emails(req.emails);
        let (formatted, family, given) = match req.name {
            Some(n) => (n.formatted, n.family_name, n.given_name),
            None => (String::new(), String::new(), String::new()),
        };
        let external_id = optional_text(req.external_id);
        let display_name = optional_text(req.display_name);
        match self.db.update_user(
            req.id.as_str(),
            external_id,
            req.user_name,
            Some(formatted),
            Some(family),
            Some(given),
            display_name,
            emails,
            req.active,
        ) {
            Ok(user) => {
                let ghost u = user@;
                assert(u =~= request_user(
                    rq.external_id,
                    rq.user_name,
                    rq.name,
                    rq.display_name,
                    rq.emails@,
                    rq.active,
                    rq.id@,
                    old(self).db.users()[rq.id@].created,
                    u.last_modified,
                ));
                Ok(UserResponse { user: Some(db_user_to_proto(user)) })
            },
            Err(e) => Err(map_db_error(e)),
        }
    }

    /// Removes the user a request names.
    pub fn delete_user(&mut self, req: DeleteUserRequest) -> (r: Result<DeleteResponse, Status>)
        requires
            old(self).db.wf(),
        ensures
            final(self).db.wf(),
            r is Ok <==> old(self).db.users().contains_key(req.id@),
            r matches Ok(resp) ==> resp.success && resp.message@ == "User deleted successfully"@
                && final(self).db.users() == old(self).db.users().remove(req.id@)
                && final(self).db.groups().dom() == old(self).db.groups().dom() && forall|
                k: Seq<char>,
            |
                #[trigger] old(self).db.groups().contains_key(k) ==> final(self).db.groups()[k]
                    == crate::database::group_without_member(
                    old(self).db.groups()[k],
                    req.id@,
                    final(self).db.groups()[k].last_modified,
                ),
            r matches Err(s) ==> is_status_for(s, DbError::UserNotFound(req.id)) && final(self).db
                == old(self).db,
    {
        match self.db.delete_user(req.id.as_str()) {
            Ok(()) => Ok(
                DeleteResponse { success: true, message: owned("User deleted successfully") },
            ),
            Err(e) => Err(map_db_error(e)),
        }
    }

    /// A page of users.
    pub fn list_users(&self, req: ListUsersRequest) -> (r: Result<ListUsersResponse, Status>)
        requires
            self.db.wf(),
        ensures
            r matches Ok(resp) && resp.items_per_page == rpc_count(req.count) as i32
                && resp.start_index == rpc_start(req.start_index) as i32 && exists|
                all: Seq<UserView>,
            |
                #![trigger is_user_listing(self.db.ordered_users(), all)]
                is_user_listing(self.db.ordered_users(), all) && {
                    let sel = all.filter(
                        |u: UserView| user_passes(filter_of(rpc_filter(req.filter)), u),
                    );
                    let pg = page(sel, rpc_start(req.start_index), rpc_count(req.count));
                    &&& resp.total_results == sel.len() as i32
                    &&& resp.users@.len() == pg.len()
                    &&& forall|i: int|
                        0 <= i < pg.len() ==> is_proto_user_of(#[trigger] resp.users@[i], pg[i])
                },
    {
        let ghost f = rpc_filter(req.filter);
        let filter = optional_text(req.filter);
        assert(crate::database::opt_view(filter) == crate::database::opt_view(f));
        let start_index: usize = if req.start_index <= 0 {
            1
        } else {
            req.start_index as usize
        };
        let count: usize = if req.count <= 0 {
            20
        } else {
            req.count as usize
        };
        let ghost fl = filter;
        let (users, total) = self.db.list_users(filter, start_index, count);
        assert(filter_of(fl) == filter_of(f));
        let ghost pg = users_view(users@);
        let mut out: Vec<User> = Vec::new();
        let mut i: usize = 0;
        while i < users.len()
            invariant
                i <= users.len(),
                pg == users_view(users@),
                out@.len() == i,
                forall|j: int| 0 <= j < i ==> is_proto_user_of(#[trigger] out@[j], pg[j]),
            decreases users.len() - i,
        {
            out.push(db_user_to_proto(users[i].clone()));
            i = i + 1;
        }
        Ok(
            ListUsersResponse {
                users: out,
                total_results: total as i32,
                items_per_page: count as i32,
                start_index: start_index as i32,
            },
        )
    }

    /// Creates a group from a request.
    pub fn create_group(&mut self, req: CreateGroupRequest) -> (r: Result<GroupResponse, Status>)
        requires
            old(self).db.wf(),
        ensures
            final(self).db.wf(),
            r is Err <==> group_name_taken(old(self).db.groups(), req.display_name@),
            r matches Err(s) ==> is_status_for(s, DbError::GroupAlreadyExists(req.display_name))
                && final(self).db == old(self).db,
            r matches Ok(resp) ==> exists|g: GroupView|
                #![trigger old(self).db.groups().insert(g.id, g)]
                final(self).db.groups() == old(self).db.groups().insert(g.id, g) && g == (
                GroupView {
                    id: g.id,
                    display_name: req.display_name@,
                    members: hydrate_members(request_members(req.members@), old(self).db.users()),
                    created: g.created,
                    last_modified: g.created,
                }) && final(self).db.users() == old(self).db.users() && (resp.group matches Some(
                    p,
                ) && is_proto_group_of(p, g)),
    {
        let members = request_to_db_members(req.members);
        match self.db.create_group(req.display_name, members) {
            Ok(group) => Ok(GroupResponse { group: Some(db_group_to_proto(group)) }),
            Err(e) => Err(map_db_error(e)),
        }
    }

    /// The group a request names.
    pub fn get_group(&self, req: GetGroupRequest) -> (r: Result<GroupResponse, Status>)
        requires
            self.db.wf(),
        ensures
            r is Ok <==> self.db.groups().contains_key(req.id@),
            r matches Ok(resp) ==> resp.group matches Some(p) && is_proto_group_of(
                p,
                self.db.groups()[req.id@],
            ),
            r matches Err(s) ==> is_status_for(s, DbError::GroupNotFound(req.id)),
    {
        match self.db.get_group(req.id.as_str()) {
            Some(group) => Ok(GroupResponse { group: Some(db_group_to_proto(group)) }),
            None => Err(map_db_error(DbError::GroupNotFound(req.id))),
        }
    }

    /// Replaces a group from a request.
    pub fn update_group(&mut self, req: UpdateGroupRequest) -> (r: Result<GroupResponse, Status>)
        requires
            old(self).db.wf(),
        ensures
            final(self).db.wf(),
            !old(self).db.groups().contains_key(req.id@) ==> (r matches Err(s) && is_status_for(
                s,
                DbError::GroupNotFound(req.id),
            ) && final(self).db == old(self).db),
            old(self).db.groups().contains_key(req.id@) && !eq_ignore_ascii_case(
                old(self).db.groups()[req.id@].display_name,
                req.display_name@,
            ) && group_name_taken_by_other(
                old(self).db.groups(),
                req.display_name@,
                Some(req.id@),
            ) ==> (r matches Err(s) && is_status_for(
                s,
                DbError::GroupAlreadyExists(req.display_name),
            ) && final(self).db == old(self).db),
            r is Ok <==> old(self).db.groups().contains_key(req.id@) && !(!eq_ignore_ascii_case(
                old(self).db.groups()[req.id@].display_name,
                req.display_name@,
            ) && group_name_taken_by_other(
                old(self).db.groups(),
                req.display_name@,
                Some(req.id@),
            )),
            r matches Ok(resp) ==> final(self).db.users() == old(self).db.users() && final(self).db.groups().contains_key(req.id@) && final(self).db.groups() == old(self).db.groups().insert(
                req.id@,
                final(self).db.groups()[req.id@],
            ) && final(self).db.groups()[req.id@] == (GroupView {
                id: req.id@,
                display_name: req.display_name@,
                members: hydrate_members(request_members(req.members@), old(self).db.users()),
                created: old(self).db.groups()[req.id@].created,
                last_modified: final(self).db.groups()[req.id@].last_modified,
            }) && (resp.group matches Some(p) && is_proto_group_of(
                p,
                final(self).db.groups()[req.id@],
            )),
    {
        let members = request_to_db_members(req.members);
        match self.db.update_group(req.id.as_str(), req.display_name, members) {
            Ok(group) => Ok(GroupResponse { group: Some(db_group_to_proto(group)) }),
            Err(e) => Err(map_db_error(e)),
        }
    }

    /// Removes the group a request names.
    pub fn delete_group(&mut self, req: DeleteGroupRequest) -> (r: Result<DeleteResponse, Status>)
        requires
            old(self).db.wf(),
        ensures
            final(self).db.wf(),
            r is Ok <==> old(self).db.groups().contains_key(req.id@),
            r matches Ok(resp) ==> resp.success && resp.message@ == "Group deleted successfully"@
                && final(self).db.groups() == old(self).db.groups().remove(req.id@)
                && final(self).db.users() == old(self).db.users(),
            r matches Err(s) ==> is_status_for(s, DbError::GroupNotFound(req.id)) && final(self).db
                == old(self).db,
    {
        match self.db.delete_group(req.id.as_str()) {
            Ok(()) => Ok(
                DeleteResponse { success: true, message: owned("Group deleted successfully") },
            ),
            Err(e) => Err(map_db_error(e)),
        }
    }

    /// A page of groups.
    pub fn list_groups(&self, req: ListGroupsRequest) -> (r: Result<ListGroupsResponse, Status>)
        requires
            self.db.wf(),
        ensures
            r matches Ok(resp) && resp.items_per_page == rpc_count(req.count) as i32
                && resp.start_index == rpc_start(req.start_index) as i32 && exists|
                all: Seq<GroupView>,
            |
                #![trigger is_group_listing(self.db.ordered_groups(), all)]
                is_group_listing(self.db.ordered_groups(), all) && {
                    let sel = all.filter(
                        |g: GroupView| group_passes(filter_of(rpc_filter(req.filter)), g),
                    );
                    let pg = page(sel, rpc_start(req.start_index), rpc_count(req.count));
                    &&& resp.total_results == sel.len() as i32
                    &&& resp.groups@.len() == pg.len()
                    &&& forall|i: int|
                        0 <= i < pg.len() ==> is_proto_group_of(#[trigger] resp.groups@[i], pg[i])
                },
    {
        let ghost f = rpc_filter(req.filter);
        let filter = optional_text(req.filter);
        assert(crate::database::opt_view(filter) == crate::database::opt_view(f));
        let start_index: usize = if req.start_index <= 0 {
            1
        } else {
            req.start_index as usize
        };
        let count: usize = if req.count <= 0 {
            20
        } else {
            req.count as usize
        };
        let ghost fl = filter;
        let (groups, total) = self.db.list_groups(filter, start_index, count);
        assert(filter_of(fl) == filter_of(f));
        let ghost pg = groups_view(groups@);
        let mut out: Vec<Group> = Vec::new();
        let mut i: usize = 0;
        while i < groups.len()
            invariant
                i <= groups.len(),
                pg == groups_view(groups@),
                out@.len() == i,
                forall|j: int| 0 <= j < i ==> is_proto_group_of(#[trigger] out@[j], pg[j]),
            decreases groups.len() - i,
        {
            out.push(db_group_to_proto(groups[i].clone()));
            i = i + 1;
        }
        Ok(
            ListGroupsResponse {
                groups: out,
                total_results: total as i32,
                items_per_page: count as i32,
                start_index: start_index as i32,
            },
        )
    }

    /// The store's counts.
    pub fn get_stats(&self, _req: StatsRequest) -> (r: Result<StatsResponse, Status>)
        requires
            self.db.wf(),
        ensures
            r matches Ok(resp) && resp.total_users == self.db.users().len() as i32
                && resp.total_groups == self.db.groups().len() as i32,
    {
        let (users, groups) = self.db.get_stats();
        Ok(StatsResponse { total_users: users as i32, total_groups: groups as i32 })
    }

    /// Empties the store.
    pub fn clear_all(&mut self, _req: ClearAllRequest) -> (r: Result<ClearAllResponse, Status>)
        requires
            old(self).db.wf(),
        ensures
            final(self).db.wf(),
            final(self).db.users().len() == 0,
            final(self).db.groups().len() == 0,
            r matches Ok(resp) && resp.success,
    {
        self.db.clear_all();
        Ok(ClearAllResponse { success: true })
    }
}

} // verus!

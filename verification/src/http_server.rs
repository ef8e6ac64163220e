//! The SCIM HTTP API as functions from a request to a response: status codes, SCIM
//! resources built from stored users and groups, error bodies and bearer-token checks.
use vstd::prelude::*;
use crate::clock::{rfc3339_seconds, rfc3339_utc_seconds, Timestamp};
use crate::database::{
    clone_opt_string, groups_view, has_member, is_group_listing, is_user_listing, opt_view, page,
    users_view, Database, DbEmail, DbError, DbGroup, DbGroupMember, DbUser, EmailView, GroupView,
    MemberView, UserView, group_name_taken, user_name_taken, hydrate_members,
    members_view, user_name_taken_by_other,
};
use crate::filter::{filter_of, group_passes, user_passes};
use crate::scim_schemas::{
    single_schema, ScimEmail, ScimError, ScimGroup, ScimGroupMember, ScimListResponse, ScimMeta,
    ScimName, ScimUser, ScimUserGroup, ERROR_SCHEMA, GROUP_SCHEMA, LIST_RESPONSE_SCHEMA,
    USER_SCHEMA,
};
use crate::settings::Settings;
use crate::text::{join2, owned, eq_ignore_ascii_case};

verus! {

broadcast use vstd::string::group_string_axioms;

/// An HTTP status code and a body.
#[derive(Debug)]
pub struct ScimResponse<T>(pub u16, pub T);

/// The query parameters of a list request.
#[derive(Debug)]
pub struct ScimQuery {
    pub filter: Option<String>,
    pub start_index: Option<usize>,
    pub count: Option<usize>,
}

/// The decimal digit `d`.
pub open spec fn digit_char(d: nat) -> char {
    if d == 0 {
        '0'
    } else if d == 1 {
        '1'
    } else if d == 2 {
        '2'
    } else if d == 3 {
        '3'
    } else if d == 4 {
        '4'
    } else if d == 5 {
        '5'
    } else if d == 6 {
        '6'
    } else if d == 7 {
        '7'
    } else if d == 8 {
        '8'
    } else {
        '9'
    }
}

/// The decimal numeral of `n`, without leading zeros.
pub open spec fn decimal(n: nat) -> Seq<char>
    decreases n,
{
    if n < 10 {
        seq![digit_char(n)]
    } else {
        decimal(n / 10).push(digit_char(n % 10))
    }
}

/// The text of digit `d`.
fn digit_text(d: u16) -> (r: &'static str)
    requires
        d < 10,
    ensures
        r@ == seq![digit_char(d as nat)],
{
    if d == 0 {
        proof {
            reveal_strlit("0");
        }
        "0"
    } else if d == 1 {
        proof {
            reveal_strlit("1");
        }
        "1"
    } else if d == 2 {
        proof {
            reveal_strlit("2");
        }
        "2"
    } else if d == 3 {
        proof {
            reveal_strlit("3");
        }
        "3"
    } else if d == 4 {
        proof {
            reveal_strlit("4");
        }
        "4"
    } else if d == 5 {
        proof {
            reveal_strlit("5");
        }
        "5"
    } else if d == 6 {
        proof {
            reveal_strlit("6");
        }
        "6"
    } else if d == 7 {
        proof {
            reveal_strlit("7");
        }
        "7"
    } else if d == 8 {
        proof {
            reveal_strlit("8");
        }
        "8"
    } else {
        proof {
            reveal_strlit("9");
        }
        "9"
    }
}

/// The decimal numeral of `n`, as `u16`'s `Display` writes it.
pub fn decimal_string(n: u16) -> (r: String)
    ensures
        r@ == decimal(n as nat),
    decreases n,
{
    if n < 10 {
        owned(digit_text(n))
    } else {
        let mut r = decimal_string(n / 10);
        r.append(digit_text(n % 10));
        r
    }
}

/// The base URL of the HTTP API: `http://host:port`.
pub open spec fn base_url_of(host: Seq<char>, port: u16) -> Seq<char> {
    "http://"@ + host + ":"@ + decimal(port as nat)
}

/// The base URL under which the HTTP API is reached.
pub fn get_base_url(settings: &Settings) -> (r: String)
    ensures
        r@ == base_url_of(settings.http_host@, settings.http_port),
{
    let mut r = join2("http://", settings.http_host.as_str());
    r.append(":");
    let port = decimal_string(settings.http_port);
    r.append(port.as_str());
    r
}

/// The address of user `id`.
pub open spec fn user_location(base: Seq<char>, id: Seq<char>) -> Seq<char> {
    base + "/scim/v2/Users/"@ + id
}

/// The address of group `id`.
pub open spec fn group_location(base: Seq<char>, id: Seq<char>) -> Seq<char> {
    base + "/scim/v2/Groups/"@ + id
}

fn user_location_text(base: &str, id: &str) -> (r: String)
    ensures
        r@ == user_location(base@, id@),
{
    let mut r = join2(base, "/scim/v2/Users/");
    r.append(id);
    r
}

fn group_location_text(base: &str, id: &str) -> (r: String)
    ensures
        r@ == group_location(base@, id@),
{
    let mut r = join2(base, "/scim/v2/Groups/");
    r.append(id);
    r
}

/// The HTTP status of an error from the store.
pub open spec fn db_error_status(e: DbError) -> u16 {
    match e {
        DbError::UserNotFound(_) => 404,
        DbError::GroupNotFound(_) => 404,
        DbError::UserAlreadyExists(_) => 409,
        DbError::GroupAlreadyExists(_) => 409,
    }
}

/// The detail text of the error response for an error from the store.
pub open spec fn db_error_detail(e: DbError) -> Seq<char> {
    match e {
        DbError::UserNotFound(id) => "User not found: "@ + id@,
        DbError::GroupNotFound(id) => "Group not found: "@ + id@,
        DbError::UserAlreadyExists(name) => "Username already exists: "@ + name@,
        DbError::GroupAlreadyExists(name) => "Group name already exists: "@ + name@,
    }
}

/// `r` is the SCIM error response with status `status`, SCIM type `scim_type` and detail
/// `detail`.
pub open spec fn is_error_response(
    r: ScimResponse<ScimError>,
    status: u16,
    scim_type: Option<Seq<char>>,
    detail: Seq<char>,
) -> bool {
    &&& r.0 == status
    &&& r.1.schemas@.len() == 1
    &&& r.1.schemas@[0]@ == ERROR_SCHEMA@
    &&& r.1.status@ == decimal(status as nat)
    &&& opt_view(r.1.scim_type) == scim_type
    &&& opt_view(r.1.detail) == Some(detail)
}

/// `r` is the response for the store error `e`: 404 for a missing resource, 409 with SCIM
/// type `uniqueness` for a taken name.
pub open spec fn is_db_error_response(r: ScimResponse<ScimError>, e: DbError) -> bool {
    is_error_response(
        r,
        db_error_status(e),
        if db_error_status(e) == 409 {
            Some("uniqueness"@)
        } else {
            None
        },
        db_error_detail(e),
    )
}

/// The error response for a store error.
pub fn handle_db_error(err: DbError) -> (r: ScimResponse<ScimError>)
    ensures
        is_db_error_response(r, err),
{
    proof {
        reveal_strlit("404");
        reveal_strlit("409");
    }
    assert("404"@ =~= decimal(404)) by {
        reveal_with_fuel(decimal, 3);
    }
    assert("409"@ =~= decimal(409)) by {
        reveal_with_fuel(decimal, 3);
    }
    match err {
        DbError::UserNotFound(id) => ScimResponse(
            404,
            ScimError::new("404", None, Some(join2("User not found: ", id.as_str()))),
        ),
        DbError::GroupNotFound(id) => ScimResponse(
            404,
            ScimError::new("404", None, Some(join2("Group not found: ", id.as_str()))),
        ),
        DbError::UserAlreadyExists(username) => ScimResponse(
            409,
            ScimError::new(
                "409",
                Some(owned("uniqueness")),
                Some(join2("Username already exists: ", username.as_str())),
            ),
        ),
        DbError::GroupAlreadyExists(name) => ScimResponse(
            409,
            ScimError::new(
                "409",
                Some(owned("uniqueness")),
                Some(join2("Group name already exists: ", name.as_str())),
            ),
        ),
    }
}

/// The human-readable text of a store error.
pub open spec fn db_error_message(e: DbError) -> Seq<char> {
    match e {
        DbError::UserAlreadyExists(name) => "User with userName '"@ + name@ + "' already exists"@,
        DbError::UserNotFound(id) => "User not found with ID '"@ + id@ + "'"@,
        DbError::GroupNotFound(id) => "Group not found with ID '"@ + id@ + "'"@,
        DbError::GroupAlreadyExists(name) => "Group with displayName '"@ + name@
            + "' already exists"@,
    }
}

impl DbError {
    /// The text of the error.
    pub fn message(&self) -> (r: String)
        ensures
            r@ == db_error_message(*self),
    {
        match self {
            DbError::UserAlreadyExists(name) => {
                let mut r = join2("User with userName '", name.as_str());
                r.append("' already exists");
                r
            },
            DbError::UserNotFound(id) => {
                let mut r = join2("User not found with ID '", id.as_str());
                r.append("'");
                r
            },
            DbError::GroupNotFound(id) => {
                let mut r = join2("Group not found with ID '", id.as_str());
                r.append("'");
                r
            },
            DbError::GroupAlreadyExists(name) => {
                let mut r = join2("Group with displayName '", name.as_str());
                r.append("' already exists");
                r
            },
        }
    }
}

/// `r` is the SCIM form of the user `u`, reached under `base`, which belongs to `groups`.
pub open spec fn is_scim_user_of(
    r: ScimUser,
    u: UserView,
    base: Seq<char>,
    groups: Seq<GroupView>,
) -> bool {
    &&& r.schemas@.len() == 1
    &&& r.schemas@[0]@ == USER_SCHEMA@
    &&& opt_view(r.id) == Some(u.id)
    &&& opt_view(r.external_id) == u.external_id
    &&& r.user_name@ == u.user_name
    &&& r.name matches Some(n) && opt_view(n.formatted) == u.formatted_name && opt_view(
        n.family_name,
    ) == u.family_name && opt_view(n.given_name) == u.given_name
    &&& opt_view(r.display_name) == u.display_name
    &&& r.emails matches Some(es) && es@.len() == u.emails.len() && forall|i: int|
        0 <= i < es@.len() ==> {
            &&& (#[trigger] es@[i]).value@ == u.emails[i].value
            &&& opt_view(es@[i].email_type) == u.emails[i].email_type
            &&& es@[i].primary == Some(u.emails[i].primary)
        }
    &&& r.active == Some(u.active)
    &&& groups.len() == 0 ==> r.groups is None
    &&& groups.len() > 0 ==> (r.groups matches Some(gs) && gs@.len() == groups.len() && forall|
        i: int,
    |
        0 <= i < gs@.len() ==> {
            &&& (#[trigger] gs@[i]).value@ == groups[i].id
            &&& gs@[i].reference@ == group_location(base, groups[i].id)
            &&& opt_view(gs@[i].display) == Some(groups[i].display_name)
        })
    &&& r.meta matches Some(m) && m.resource_type@ == "User"@ && m.created@
        == rfc3339_utc_seconds(u.created.unix_secs(), u.created.subsec_nanos())
        && m.last_modified@ == rfc3339_utc_seconds(
        u.last_modified.unix_secs(),
        u.last_modified.subsec_nanos(),
    ) && m.location@ == user_location(base, u.id) && m.version is None
}

/// `r` is the SCIM form of the group `g`, reached under `base`.
pub open spec fn is_scim_group_of(r: ScimGroup, g: GroupView, base: Seq<char>) -> bool {
    &&& r.schemas@.len() == 1
    &&& r.schemas@[0]@ == GROUP_SCHEMA@
    &&& opt_view(r.id) == Some(g.id)
    &&& r.display_name@ == g.display_name
    &&& g.members.len() == 0 ==> r.members is None
    &&& g.members.len() > 0 ==> (r.members matches Some(ms) && ms@.len() == g.members.len()
        && forall|i: int|
        0 <= i < ms@.len() ==> {
            &&& (#[trigger] ms@[i]).value@ == g.members[i].value
            &&& opt_view(ms@[i].reference) == Some(user_location(base, g.members[i].value))
            &&& opt_view(ms@[i].display) == g.members[i].display
        })
    &&& r.meta matches Some(m) && m.resource_type@ == "Group"@ && m.created@
        == rfc3339_utc_seconds(g.created.unix_secs(), g.created.subsec_nanos())
        && m.last_modified@ == rfc3339_utc_seconds(
        g.last_modified.unix_secs(),
        g.last_modified.subsec_nanos(),
    ) && m.location@ == group_location(base, g.id) && m.version is None
}

/// The resource metadata of a user or group.
fn meta_for(resource_type: &str, created: Timestamp, last_modified: Timestamp, location: String) -> (r:
    ScimMeta)
    ensures
        r.resource_type@ == resource_type@,
        r.created@ == rfc3339_utc_seconds(created.unix_secs(), created.subsec_nanos()),
        r.last_modified@ == rfc3339_utc_seconds(
            last_modified.unix_secs(),
            last_modified.subsec_nanos(),
        ),
        r.location == location,
        r.version is None,
{
    ScimMeta {
        resource_type: owned(resource_type),
        created: rfc3339_seconds(created),
        last_modified: rfc3339_seconds(last_modified),
        location,
        version: None,
    }
}

/// The SCIM form of a stored user that belongs to `groups`.
pub fn db_user_to_scim(user: DbUser, base_url: &str, groups: Vec<DbGroup>) -> (r: ScimUser)
    ensures
        is_scim_user_of(r, user@, base_url@, groups_view(groups@)),
{
    let ghost uv = user@;
    let ghost gv = groups_view(groups@);
    let location = user_location_text(base_url, user.id.as_str());
    let user_groups = if groups.len() == 0 {
        None
    } else {
        let mut gs: Vec<ScimUserGroup> = Vec::new();
        let mut i: usize = 0;
        while i < groups.len()
            invariant
                i <= groups.len(),
                gv == groups_view(groups@),
                gs@.len() == i,
                forall|j: int|
                    0 <= j < i ==> {
                        &&& (#[trigger] gs@[j]).value@ == gv[j].id
                        &&& gs@[j].reference@ == group_location(base_url@, gv[j].id)
                        &&& opt_view(gs@[j].display) == Some(gv[j].display_name)
                    },
            decreases groups.len() - i,
        {
            let g = &groups[i];
            gs.push(
                ScimUserGroup {
                    value: g.id.clone(),
                    reference: group_location_text(base_url, g.id.as_str()),
                    display: Some(g.display_name.clone()),
                },
            );
            i = i + 1;
        }
        Some(gs)
    };
    let mut emails: Vec<ScimEmail> = Vec::new();
    let mut i: usize = 0;
    while i < user.emails.len()
        invariant
            i <= user.emails.len(),
            uv == user@,
            emails@.len() == i,
            forall|j: int|
                0 <= j < i ==> {
                    &&& (#[trigger] emails@[j]).value@ == uv.emails[j].value
                    &&& opt_view(emails@[j].email_type) == uv.emails[j].email_type
                    &&& emails@[j].primary == Some(uv.emails[j].primary)
                },
        decreases user.emails.len() - i,
    {
        let e = &user.emails[i];
        emails.push(
            ScimEmail {
                value: e.value.clone(),
                email_type: clone_opt_string(&e.email_type),
                primary: Some(e.primary),
            },
        );
        i = i + 1;
    }
    let meta = meta_for("User", user.created, user.last_modified, location);
    proof {
        reveal_strlit("User");
    }
    ScimUser {
        schemas: single_schema(USER_SCHEMA),
        id: Some(user.id),
        external_id: user.external_id,
        user_name: user.user_name,
        name: Some(
            ScimName {
                formatted: user.formatted_name,
                family_name: user.family_name,
                given_name: user.given_name,
            },
        ),
        display_name: user.display_name,
        emails: Some(emails),
        active: Some(user.active),
        groups: user_groups,
        meta: Some(meta),
    }
}

/// The SCIM form of a stored group.
pub fn db_group_to_scim(group: DbGroup, base_url: &str) -> (r: ScimGroup)
    ensures
        is_scim_group_of(r, group@, base_url@),
{
    let ghost gv = group@;
    let location = group_location_text(base_url, group.id.as_str());
    let members = if group.members.len() == 0 {
        None
    } else {
        let mut ms: Vec<ScimGroupMember> = Vec::new();
        let mut i: usize = 0;
        while i < group.members.len()
            invariant
                i <= group.members.len(),
                gv == group@,
                ms@.len() == i,
                forall|j: int|
                    0 <= j < i ==> {
                        &&& (#[trigger] ms@[j]).value@ == gv.members[j].value
                        &&& opt_view(ms@[j].reference) == Some(
                            user_location(base_url@, gv.members[j].value),
                        )
                        &&& opt_view(ms@[j].display) == gv.members[j].display
                    },
            decreases group.members.len() - i,
        {
            let m = &group.members[i];
            ms.push(
                ScimGroupMember {
                    value: m.value.clone(),
                    reference: Some(user_location_text(base_url, m.value.as_str())),
                    display: clone_opt_string(&m.display),
                },
            );
            i = i + 1;
        }
        Some(ms)
    };
    let meta = meta_for("Group", group.created, group.last_modified, location);
    proof {
        reveal_strlit("Group");
    }
    ScimGroup {
        schemas: single_schema(GROUP_SCHEMA),
        id: Some(group.id),
        display_name: group.display_name,
        members,
        meta: Some(meta),
    }
}

/// The e-mail addresses a SCIM payload gives: none when absent, `primary` false when absent.
pub open spec fn payload_emails(es: Option<Vec<ScimEmail>>) -> Seq<EmailView> {
    match es {
        Some(v) => v@.map_values(
            |e: ScimEmail|
                EmailView {
                    value: e.value@,
                    email_type: opt_view(e.email_type),
                    primary: match e.primary {
                        Some(b) => b,
                        None => false,
                    },
                },
        ),
        None => seq![],
    }
}

/// The user that a SCIM payload describes, with the given id and times: name parts are
/// absent when the name is, and an absent `active` counts as true.
pub open spec fn payload_user(p: ScimUser, id: Seq<char>, created: Timestamp, last_modified: Timestamp) -> UserView {
    UserView {
        id,
        external_id: opt_view(p.external_id),
        user_name: p.user_name@,
        formatted_name: match p.name {
            Some(n) => opt_view(n.formatted),
            None => None,
        },
        family_name: match p.name {
            Some(n) => opt_view(n.family_name),
            None => None,
        },
        given_name: match p.name {
            Some(n) => opt_view(n.given_name),
            None => None,
        },
        display_name: opt_view(p.display_name),
        emails: payload_emails(p.emails),
        active: match p.active {
            Some(b) => b,
            None => true,
        },
        created,
        last_modified,
    }
}

/// The members a SCIM group payload gives: none when absent.
pub open spec fn payload_members(ms: Option<Vec<ScimGroupMember>>) -> Seq<MemberView> {
    match ms {
        Some(v) => v@.map_values(
            |m: ScimGroupMember| MemberView { value: m.value@, display: opt_view(m.display) },
        ),
        None => seq![],
    }
}

/// The store's e-mail addresses for those of a payload.
fn payload_to_db_emails(es: Option<Vec<ScimEmail>>) -> (r: Vec<DbEmail>)
    ensures
        r@.map_values(|e: DbEmail| e@) == payload_emails(es),
{
    let mut out: Vec<DbEmail> = Vec::new();
    match es {
        Some(v) => {
            let ghost target = payload_emails(Some(v));
            let mut i: usize = 0;
            while i < v.len()
                invariant
                    i <= v.len(),
                    target == v@.map_values(
                        |e: ScimEmail|
                            EmailView {
                                value: e.value@,
                                email_type: opt_view(e.email_type),
                                primary: match e.primary {
                                    Some(b) => b,
                                    None => false,
                                },
                            },
                    ),
                    out@.len() == i,
                    out@.map_values(|e: DbEmail| e@) =~= target.take(i as int),
                decreases v.len() - i,
            {
                let e = &v[i];
                let primary = match e.primary {
                    Some(b) => b,
                    None => false,
                };
                let d = DbEmail {
                    value: e.value.clone(),
                    email_type: clone_opt_string(&e.email_type),
                    primary,
                };
                out.push(d);
                assert(out@.map_values(|e: DbEmail| e@) =~= target.take(i + 1)) by {
                    assert(out@[i as int]@ == target[i as int]);
                }
                i = i + 1;
            }
            assert(target.take(v.len() as int) =~= target);
        },
        None => {
            assert(out@.map_values(|e: DbEmail| e@) =~= Seq::<EmailView>::empty());
        },
    }
    out
}

/// The store's members for those of a payload.
fn payload_to_db_members(ms: Option<Vec<ScimGroupMember>>) -> (r: Vec<DbGroupMember>)
    ensures
        members_view(r@) == payload_members(ms),
{
    let mut out: Vec<DbGroupMember> = Vec::new();
    match ms {
        Some(v) => {
            let ghost target = payload_members(Some(v));
            let mut i: usize = 0;
            while i < v.len()
                invariant
                    i <= v.len(),
                    target == v@.map_values(
                        |m: ScimGroupMember| MemberView { value: m.value@, display: opt_view(m.display) },
                    ),
                    out@.len() == i,
                    members_view(out@) =~= target.take(i as int),
                decreases v.len() - i,
            {
                let m = &v[i];
                let d = DbGroupMember { value: m.value.clone(), display: clone_opt_string(&m.display) };
                out.push(d);
                assert(members_view(out@) =~= target.take(i + 1)) by {
                    assert(out@[i as int]@ == target[i as int]);
                }
                i = i + 1;
            }
            assert(target.take(v.len() as int) =~= target);
        },
        None => {
            assert(members_view(out@) =~= Seq::<MemberView>::empty());
        },
    }
    out
}

/// The groups of the store that list user `uid`, in the order they were added.
pub open spec fn groups_of_user(db: Database, uid: Seq<char>) -> Seq<GroupView> {
    db.ordered_groups().filter(|g: GroupView| has_member(g, uid))
}

/// `r` is the list response for the users `pg` (one page of `sel`), requested from
/// `start_index`.
pub open spec fn is_user_list_response(
    r: ScimListResponse<ScimUser>,
    db: Database,
    base: Seq<char>,
    sel: Seq<UserView>,
    pg: Seq<UserView>,
    start_index: usize,
) -> bool {
    &&& r.schemas@.len() == 1
    &&& r.schemas@[0]@ == LIST_RESPONSE_SCHEMA@
    &&& r.total_results == sel.len()
    &&& r.items_per_page == pg.len()
    &&& r.start_index == start_index
    &&& r.resources@.len() == pg.len()
    &&& forall|i: int|
        0 <= i < pg.len() ==> is_scim_user_of(
            #[trigger] r.resources@[i],
            pg[i],
            base,
            groups_of_user(db, pg[i].id),
        )
}

/// `r` is the list response for the groups `pg` (one page of `sel`), requested from
/// `start_index`.
pub open spec fn is_group_list_response(
    r: ScimListResponse<ScimGroup>,
    base: Seq<char>,
    sel: Seq<GroupView>,
    pg: Seq<GroupView>,
    start_index: usize,
) -> bool {
    &&& r.schemas@.len() == 1
    &&& r.schemas@[0]@ == LIST_RESPONSE_SCHEMA@
    &&& r.total_results == sel.len()
    &&& r.items_per_page == pg.len()
    &&& r.start_index == start_index
    &&& r.resources@.len() == pg.len()
    &&& forall|i: int| 0 <= i < pg.len() ==> is_scim_group_of(#[trigger] r.resources@[i], pg[i], base)
}

/// The first position a list request asks for (1 when not given).
pub open spec fn query_start(q: ScimQuery) -> usize {
    match q.start_index {
        Some(s) => s,
        None => 1,
    }
}

/// How many items a list request asks for (20 when not given).
pub open spec fn query_count(q: ScimQuery) -> usize {
    match q.count {
        Some(c) => c,
        None => 20,
    }
}

/// `GET /Users`: a page of the users the query's filter selects, in order of user name.
pub fn get_users(db: &Database, settings: &Settings, query: ScimQuery) -> (r: ScimResponse<ScimListResponse<ScimUser>>)
    requires
        db.wf(),
    ensures
        r.0 == 200,
        exists|all: Seq<UserView>|
            #![trigger is_user_listing(db.ordered_users(), all)]
            is_user_listing(db.ordered_users(), all) && is_user_list_response(
                r.1,
                *db,
                base_url_of(settings.http_host@, settings.http_port),
                all.filter(|u: UserView| user_passes(filter_of(query.filter), u)),
                page(
                    all.filter(|u: UserView| user_passes(filter_of(query.filter), u)),
                    query_start(query),
                    query_count(query),
                ),
                query_start(query),
            ),
{
    let start_index = match query.start_index {
        Some(s) => s,
        None => 1,
    };
    let count = match query.count {
        Some(c) => c,
        None => 20,
    };
    let base_url = get_base_url(settings);
    let (users, total) = db.list_users(query.filter, start_index, count);
    let ghost pg = users_view(users@);
    let mut resources: Vec<ScimUser> = Vec::new();
    let mut i: usize = 0;
    while i < users.len()
        invariant
            db.wf(),
            i <= users.len(),
            pg == users_view(users@),
            base_url@ == base_url_of(settings.http_host@, settings.http_port),
            resources@.len() == i,
            forall|j: int|
                0 <= j < i ==> is_scim_user_of(
                    #[trigger] resources@[j],
                    pg[j],
                    base_url@,
                    groups_of_user(*db, pg[j].id),
                ),
        decreases users.len() - i,
    {
        let u = users[i].clone();
        let groups = db.get_user_groups(u.id.as_str());
        let s = db_user_to_scim(u, base_url.as_str(), groups);
        resources.push(s);
        i = i + 1;
    }
    let n = resources.len();
    let resp = ScimListResponse {
        schemas: single_schema(LIST_RESPONSE_SCHEMA),
        total_results: total,
        items_per_page: n,
        start_index,
        resources,
    };
    ScimResponse(200, resp)
}

/// `GET /Users/{id}`.
pub fn get_user(db: &Database, settings: &Settings, id: String) -> (r: Result<ScimResponse<ScimUser>, ScimResponse<ScimError>>)
    requires
        db.wf(),
    ensures
        r is Ok <==> db.users().contains_key(id@),
        r matches Ok(resp) ==> resp.0 == 200 && is_scim_user_of(
            resp.1,
            db.users()[id@],
            base_url_of(settings.http_host@, settings.http_port),
            groups_of_user(*db, id@),
        ),
        r matches Err(e) ==> is_db_error_response(e, DbError::UserNotFound(id)),
{
    let base_url = get_base_url(settings);
    match db.get_user(id.as_str()) {
        Some(user) => {
            let groups = db.get_user_groups(id.as_str());
            Ok(ScimResponse(200, db_user_to_scim(user, base_url.as_str(), groups)))
        },
        None => Err(handle_db_error(DbError::UserNotFound(id))),
    }
}

/// `POST /Users`: stores the user the payload describes.
pub fn create_user(db: &mut Database, settings: &Settings, payload: ScimUser) -> (r: Result<ScimResponse<ScimUser>, ScimResponse<ScimError>>)
    requires
        old(db).wf(),
    ensures
        final(db).wf(),
        r is Err <==> user_name_taken(old(db).users(), payload.user_name@),
        r matches Err(e) ==> is_db_error_response(e, DbError::UserAlreadyExists(payload.user_name))
            && *final(db) == *old(db),
        r matches Ok(resp) ==> resp.0 == 201 && exists|u: UserView|
            #![trigger old(db).users().insert(u.id, u)]
            final(db).users() == old(db).users().insert(u.id, u) && u == payload_user(
                payload,
                u.id,
                u.created,
                u.created,
            ) && (match payload.name {
                Some(n) => u.given_name == opt_view(n.given_name) && u.family_name == opt_view(
                    n.family_name,
                ),
                None => u.given_name is None && u.family_name is None,
            }) && final(db).groups() == old(db).groups() && is_scim_user_of(
                resp.1,
                u,
                base_url_of(settings.http_host@, settings.http_port),
                seq![],
            ),
{
    let base_url = get_base_url(settings);
    let ghost p = payload;
    let emails = payload_to_db_emails(payload.emails);
    let (formatted, family, given) = match payload.name {
        Some(n) => (n.formatted, n.family_name, n.given_name),
        None => (None, None, None),
    };
    let active = match payload.active {
        Some(b) => b,
        None => true,
    };
    match db.create_user(
        payload.external_id,
        payload.user_name,
        formatted,
        family,
        given,
        payload.display_name,
        emails,
        active,
    ) {
        Ok(user) => {
            let ghost u = user@;
            assert(u =~= payload_user(p, u.id, u.created, u.created));
            let groups: Vec<DbGroup> = Vec::new();
            assert(groups_view(groups@) =~= Seq::<GroupView>::empty());
            Ok(ScimResponse(201, db_user_to_scim(user, base_url.as_str(), groups)))
        },
        Err(e) => Err(handle_db_error(e)),
    }
}

/// `PUT /Users/{id}`: replaces the user with the one the payload describes.
pub fn update_user(db: &mut Database, settings: &Settings, id: String, payload: ScimUser) -> (r: Result<ScimResponse<ScimUser>, ScimResponse<ScimError>>)
    requires
        old(db).wf(),
    ensures
        final(db).wf(),
        !old(db).users().contains_key(id@) ==> (r matches Err(e) && is_db_error_response(
            e,
            DbError::UserNotFound(id),
        ) && *final(db) == *old(db)),
        old(db).users().contains_key(id@) && !eq_ignore_ascii_case(
            old(db).users()[id@].user_name,
            payload.user_name@,
        ) && user_name_taken_by_other(old(db).users(), payload.user_name@, Some(id@)) ==> (r matches Err(e)
            && is_db_error_response(e, DbError::UserAlreadyExists(payload.user_name))
            && *final(db) == *old(db)),
        r is Ok <==> old(db).users().contains_key(id@) && !(!eq_ignore_ascii_case(
            old(db).users()[id@].user_name,
            payload.user_name@,
        ) && user_name_taken_by_other(old(db).users(), payload.user_name@, Some(id@))),
        r matches Ok(resp) ==> resp.0 == 200 && final(db).users().contains_key(id@) && final(db).users() == old(db).users().insert(id@, final(db).users()[id@]) && final(db).users()[id@]
            == payload_user(
            payload,
            id@,
            old(db).users()[id@].created,
            final(db).users()[id@].last_modified,
        ) && (match payload.name {
            Some(n) => final(db).users()[id@].given_name == opt_view(n.given_name)
                && final(db).users()[id@].family_name == opt_view(n.family_name),
            None => final(db).users()[id@].given_name is None
                && final(db).users()[id@].family_name is None,
        }) && is_scim_user_of(
            resp.1,
            final(db).users()[id@],
            base_url_of(settings.http_host@, settings.http_port),
            groups_of_user(*final(db), id@),
        ) && final(db).groups() == old(db).groups().map_values(
            |g: GroupView| crate::database::refresh_member_names(
                g,
                id@,
                crate::database::member_display_of(final(db).users()[id@]),
            ),
        ),
{
    let base_url = get_base_url(settings);
    let ghost p = payload;
    let emails = payload_to_db_emails(payload.emails);
    let (formatted, family, given) = match payload.name {
        Some(n) => (n.formatted, n.family_name, n.given_name),
        None => (None, None, None),
    };
    let active = match payload.active {
        Some(b) => b,
        None => true,
    };
    match db.update_user(
        id.as_str(),
        payload.external_id,
        payload.user_name,
        formatted,
        family,
        given,
        payload.display_name,
        emails,
        active,
    ) {
        Ok(user) => {
            let ghost u = user@;
            assert(u =~= payload_user(p, id@, old(db).users()[id@].created, u.last_modified));
            let groups = db.get_user_groups(id.as_str());
            Ok(ScimResponse(200, db_user_to_scim(user, base_url.as_str(), groups)))
        },
        Err(e) => Err(handle_db_error(e)),
    }
}

/// `DELETE /Users/{id}`: 204 on success.
pub fn delete_user(db: &mut Database, id: String) -> (r: Result<u16, ScimResponse<ScimError>>)
    requires
        old(db).wf(),
    ensures
        final(db).wf(),
        r is Ok <==> old(db).users().contains_key(id@),
        r matches Ok(s) ==> s == 204 && final(db).users() == old(db).users().remove(id@)
            && final(db).groups().dom() == old(db).groups().dom() && forall|k: Seq<char>|
            #[trigger] old(db).groups().contains_key(k) ==> final(db).groups()[k]
                == crate::database::group_without_member(
                old(db).groups()[k],
                id@,
                final(db).groups()[k].last_modified,
            ),
        r matches Err(e) ==> is_db_error_response(e, DbError::UserNotFound(id)) && *final(db)
            == *old(db),
{
    match db.delete_user(id.as_str()) {
        Ok(()) => Ok(204),
        Err(e) => Err(handle_db_error(e)),
    }
}

/// `GET /Groups`: a page of the groups the query's filter selects, in order of display name.
pub fn get_groups(db: &Database, settings: &Settings, query: ScimQuery) -> (r: ScimResponse<ScimListResponse<ScimGroup>>)
    requires
        db.wf(),
    ensures
        r.0 == 200,
        exists|all: Seq<GroupView>|
            #![trigger is_group_listing(db.ordered_groups(), all)]
            is_group_listing(db.ordered_groups(), all) && is_group_list_response(
                r.1,
                base_url_of(settings.http_host@, settings.http_port),
                all.filter(|g: GroupView| group_passes(filter_of(query.filter), g)),
                page(
                    all.filter(|g: GroupView| group_passes(filter_of(query.filter), g)),
                    query_start(query),
                    query_count(query),
                ),
                query_start(query),
            ),
{
    let start_index = match query.start_index {
        Some(s) => s,
        None => 1,
    };
    let count = match query.count {
        Some(c) => c,
        None => 20,
    };
    let base_url = get_base_url(settings);
    let (groups, total) = db.list_groups(query.filter, start_index, count);
    let ghost pg = groups_view(groups@);
    let mut resources: Vec<ScimGroup> = Vec::new();
    let mut i: usize = 0;
    while i < groups.len()
        invariant
            i <= groups.len(),
            pg == groups_view(groups@),
            base_url@ == base_url_of(settings.http_host@, settings.http_port),
            resources@.len() == i,
            forall|j: int|
                0 <= j < i ==> is_scim_group_of(#[trigger] resources@[j], pg[j], base_url@),
        decreases groups.len() - i,
    {
        let g = groups[i].clone();
        let s = db_group_to_scim(g, base_url.as_str());
        resources.push(s);
        i = i + 1;
    }
    let n = resources.len();
    let resp = ScimListResponse {
        schemas: single_schema(LIST_RESPONSE_SCHEMA),
        total_results: total,
        items_per_page: n,
        start_index,
        resources,
    };
    ScimResponse(200, resp)
}

/// `GET /Groups/{id}`.
pub fn get_group(db: &Database, settings: &Settings, id: String) -> (r: Result<ScimResponse<ScimGroup>, ScimResponse<ScimError>>)
    requires
        db.wf(),
    ensures
        r is Ok <==> db.groups().contains_key(id@),
        r matches Ok(resp) ==> resp.0 == 200 && is_scim_group_of(
            resp.1,
            db.groups()[id@],
            base_url_of(settings.http_host@, settings.http_port),
        ),
        r matches Err(e) ==> is_db_error_response(e, DbError::GroupNotFound(id)),
{
    let base_url = get_base_url(settings);
    match db.get_group(id.as_str()) {
        Some(group) => Ok(ScimResponse(200, db_group_to_scim(group, base_url.as_str()))),
        None => Err(handle_db_error(DbError::GroupNotFound(id))),
    }
}

/// `POST /Groups`: stores the group the payload describes.
pub fn create_group(db: &mut Database, settings: &Settings, payload: ScimGroup) -> (r: Result<ScimResponse<ScimGroup>, ScimResponse<ScimError>>)
    requires
        old(db).wf(),
    ensures
        final(db).wf(),
        r is Err <==> group_name_taken(old(db).groups(), payload.display_name@),
        r matches Err(e) ==> is_db_error_response(e, DbError::GroupAlreadyExists(payload.display_name))
            && *final(db) == *old(db),
        r matches Ok(resp) ==> resp.0 == 201 && exists|g: GroupView|
            #![trigger old(db).groups().insert(g.id, g)]
            final(db).groups() == old(db).groups().insert(g.id, g) && g == (GroupView {
                id: g.id,
                display_name: payload.display_name@,
                members: hydrate_members(payload_members(payload.members), old(db).users()),
                created: g.created,
                last_modified: g.created,
            }) && final(db).users() == old(db).users() && is_scim_group_of(
                resp.1,
                g,
                base_url_of(settings.http_host@, settings.http_port),
            ),
{
    let base_url = get_base_url(settings);
    let members = payload_to_db_members(payload.members);
    match db.create_group(payload.display_name, members) {
        Ok(group) => Ok(ScimResponse(201, db_group_to_scim(group, base_url.as_str()))),
        Err(e) => Err(handle_db_error(e)),
    }
}

/// `PUT /Groups/{id}`: replaces the group with the one the payload describes.
pub fn update_group(db: &mut Database, settings: &Settings, id: String, payload: ScimGroup) -> (r: Result<ScimResponse<ScimGroup>, ScimResponse<ScimError>>)
    requires
        old(db).wf(),
    ensures
        final(db).wf(),
        !old(db).groups().contains_key(id@) ==> (r matches Err(e) && is_db_error_response(
            e,
            DbError::GroupNotFound(id),
        ) && *final(db) == *old(db)),
        old(db).groups().contains_key(id@) && !eq_ignore_ascii_case(
            old(db).groups()[id@].display_name,
            payload.display_name@,
        ) && crate::database::group_name_taken_by_other(
            old(db).groups(),
            payload.display_name@,
            Some(id@),
        ) ==> (r matches Err(e) && is_db_error_response(
            e,
            DbError::GroupAlreadyExists(payload.display_name),
        ) && *final(db) == *old(db)),
        r is Ok <==> old(db).groups().contains_key(id@) && !(!eq_ignore_ascii_case(
            old(db).groups()[id@].display_name,
            payload.display_name@,
        ) && crate::database::group_name_taken_by_other(
            old(db).groups(),
            payload.display_name@,
            Some(id@),
        )),
        r matches Ok(resp) ==> resp.0 == 200 && final(db).users() == old(db).users() && final(db).groups().contains_key(id@) && final(db).groups() == old(db).groups().insert(id@, final(db).groups()[id@]) && final(db).groups()[id@]
            == (GroupView {
            id: id@,
            display_name: payload.display_name@,
            members: hydrate_members(payload_members(payload.members), old(db).users()),
            created: old(db).groups()[id@].created,
            last_modified: final(db).groups()[id@].last_modified,
        }) && is_scim_group_of(
            resp.1,
            final(db).groups()[id@],
            base_url_of(settings.http_host@, settings.http_port),
        ),
{
    let base_url = get_base_url(settings);
    let members = payload_to_db_members(payload.members);
    match db.update_group(id.as_str(), payload.display_name, members) {
        Ok(group) => Ok(ScimResponse(200, db_group_to_scim(group, base_url.as_str()))),
        Err(e) => Err(handle_db_error(e)),
    }
}

/// `DELETE /Groups/{id}`: 204 on success.
pub fn delete_group(db: &mut Database, id: String) -> (r: Result<u16, ScimResponse<ScimError>>)
    requires
        old(db).wf(),
    ensures
        final(db).wf(),
        r is Ok <==> old(db).groups().contains_key(id@),
        r matches Ok(s) ==> s == 204 && final(db).groups() == old(db).groups().remove(id@)
            && final(db).users() == old(db).users(),
        r matches Err(e) ==> is_db_error_response(e, DbError::GroupNotFound(id)) && *final(db)
            == *old(db),
{
    match db.delete_group(id.as_str()) {
        Ok(()) => Ok(204),
        Err(e) => Err(handle_db_error(e)),
    }
}

/// The value of an `Authorization` header is `Bearer ` followed by exactly `token`.
pub open spec fn bearer_accepts(header: Option<Seq<char>>, token: Seq<char>) -> bool {
    match header {
        Some(h) => h.len() >= 7 && h.take(7) == "Bearer "@ && h.skip(7) == token,
        None => false,
    }
}

/// Admits a request whose `Authorization` header carries the configured bearer token;
/// refuses any other with 401.
pub fn auth_middleware(auth_header: Option<&str>, settings: &Settings) -> (r: Result<(), ScimResponse<ScimError>>)
    ensures
        r is Ok <==> bearer_accepts(
            match auth_header {
                Some(h) => Some(h@),
                None => None,
            },
            settings.auth_token@,
        ),
        r matches Err(e) ==> is_error_response(
            e,
            401,
            None,
            "Unauthorized: Invalid or missing Bearer token"@,
        ),
{
    if let Some(auth_val) = auth_header {
        let n = auth_val.unicode_len();
        if n >= 7 {
            let prefix = auth_val.substring_char(0, 7);
            let rest = auth_val.substring_char(7, n);
            let prefix_ok = crate::text::str_eq(prefix, "Bearer ");
            let token_ok = crate::text::str_eq(rest, settings.auth_token.as_str());
            assert(auth_val@.take(7) =~= prefix@);
            assert(auth_val@.skip(7) =~= rest@);
            if prefix_ok && token_ok {
                return Ok(());
            }
        }
    }
    proof {
        reveal_strlit("401");
    }
    assert("401"@ =~= decimal(401)) by {
        reveal_with_fuel(decimal, 3);
    }
    Err(
        ScimResponse(
            401,
            ScimError::new("401", None, Some(owned("Unauthorized: Invalid or missing Bearer token"))),
        ),
    )
}

} // verus!

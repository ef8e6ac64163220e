//! The in-memory identity store: users and groups, keyed by generated ids, with
//! case-insensitively unique user names and group display names.
use vstd::prelude::*;
use vstd::hash_map::StringHashMap;
use crate::clock::{Timestamp, now_utc};
use vstd::relations::sorted_by;
use crate::filter::{filter_of, group_matches, group_passes, opt_filter_view, parse_scim_filter, user_matches, user_passes, Filter};
use crate::text::{
    eq_ignore_ascii_case, lemma_eq_ignore_symm, lemma_eq_ignore_trans, lemma_lex_le_trans,
    lemma_lex_lt_total, lex_le, lex_lt, owned, str_eq_ignore_ascii_case, str_lt,
};

verus! {

broadcast use vstd::hash_map::group_hash_map_axioms;

/// An e-mail address of a user.
#[derive(Debug)]
pub struct DbEmail {
    pub value: String,
    pub email_type: Option<String>,
    pub primary: bool,
}

/// A stored user.
#[derive(Debug)]
pub struct DbUser {
    pub id: String,
    pub external_id: Option<String>,
    pub user_name: String,
    pub formatted_name: Option<String>,
    pub family_name: Option<String>,
    pub given_name: Option<String>,
    pub display_name: Option<String>,
    pub emails: Vec<DbEmail>,
    pub active: bool,
    pub created: Timestamp,
    pub last_modified: Timestamp,
}

/// A member of a group: the id of a user and the name shown for it.
#[derive(Debug)]
pub struct DbGroupMember {
    pub value: String,
    pub display: Option<String>,
}

/// A stored group.
#[derive(Debug)]
pub struct DbGroup {
    pub id: String,
    pub display_name: String,
    pub members: Vec<DbGroupMember>,
    pub created: Timestamp,
    pub last_modified: Timestamp,
}

/// Why a store operation was refused.
#[derive(Debug, PartialEq, Eq)]
pub enum DbError {
    UserAlreadyExists(String),
    UserNotFound(String),
    GroupNotFound(String),
    GroupAlreadyExists(String),
}

/// The characters of an optional string.
pub open spec fn opt_view(o: Option<String>) -> Option<Seq<char>> {
    match o {
        Some(s) => Some(s@),
        None => None,
    }
}

/// The mathematical value of an e-mail address.
#[verifier::ext_equal]
pub struct EmailView {
    pub value: Seq<char>,
    pub email_type: Option<Seq<char>>,
    pub primary: bool,
}

/// The mathematical value of a user.
#[verifier::ext_equal]
pub struct UserView {
    pub id: Seq<char>,
    pub external_id: Option<Seq<char>>,
    pub user_name: Seq<char>,
    pub formatted_name: Option<Seq<char>>,
    pub family_name: Option<Seq<char>>,
    pub given_name: Option<Seq<char>>,
    pub display_name: Option<Seq<char>>,
    pub emails: Seq<EmailView>,
    pub active: bool,
    pub created: Timestamp,
    pub last_modified: Timestamp,
}

/// The mathematical value of a group member.
#[verifier::ext_equal]
pub struct MemberView {
    pub value: Seq<char>,
    pub display: Option<Seq<char>>,
}

/// The mathematical value of a group.
#[verifier::ext_equal]
pub struct GroupView {
    pub id: Seq<char>,
    pub display_name: Seq<char>,
    pub members: Seq<MemberView>,
    pub created: Timestamp,
    pub last_modified: Timestamp,
}

impl View for DbEmail {
    type V = EmailView;

    open spec fn view(&self) -> EmailView {
        EmailView { value: self.value@, email_type: opt_view(self.email_type), primary: self.primary }
    }
}

/// The values of a list of e-mail addresses.
pub open spec fn emails_view(v: Seq<DbEmail>) -> Seq<EmailView> {
    v.map_values(|e: DbEmail| e@)
}

impl View for DbUser {
    type V = UserView;

    open spec fn view(&self) -> UserView {
        UserView {
            id: self.id@,
            external_id: opt_view(self.external_id),
            user_name: self.user_name@,
            formatted_name: opt_view(self.formatted_name),
            family_name: opt_view(self.family_name),
            given_name: opt_view(self.given_name),
            display_name: opt_view(self.display_name),
            emails: emails_view(self.emails@),
            active: self.active,
            created: self.created,
            last_modified: self.last_modified,
        }
    }
}

impl View for DbGroupMember {
    type V = MemberView;

    open spec fn view(&self) -> MemberView {
        MemberView { value: self.value@, display: opt_view(self.display) }
    }
}

/// The values of a list of members.
pub open spec fn members_view(v: Seq<DbGroupMember>) -> Seq<MemberView> {
    v.map_values(|m: DbGroupMember| m@)
}

impl View for DbGroup {
    type V = GroupView;

    open spec fn view(&self) -> GroupView {
        GroupView {
            id: self.id@,
            display_name: self.display_name@,
            members: members_view(self.members@),
            created: self.created,
            last_modified: self.last_modified,
        }
    }
}

/// A copy of an optional string.
pub fn clone_opt_string(o: &Option<String>) -> (r: Option<String>)
    ensures
        opt_view(r) == opt_view(*o),
{
    match o {
        Some(s) => Some(s.clone()),
        None => None,
    }
}

impl Clone for DbEmail {
    fn clone(&self) -> (r: Self)
        ensures
            r@ == self@,
    {
        DbEmail {
            value: self.value.clone(),
            email_type: clone_opt_string(&self.email_type),
            primary: self.primary,
        }
    }
}

impl Clone for DbGroupMember {
    fn clone(&self) -> (r: Self)
        ensures
            r@ == self@,
    {
        DbGroupMember { value: self.value.clone(), display: clone_opt_string(&self.display) }
    }
}

/// A copy of a list of e-mail addresses.
pub fn clone_emails(v: &Vec<DbEmail>) -> (r: Vec<DbEmail>)
    ensures
        emails_view(r@) == emails_view(v@),
{
    let mut r: Vec<DbEmail> = Vec::new();
    let mut i: usize = 0;
    while i < v.len()
        invariant
            i <= v.len(),
            r.len() == i,
            emails_view(r@) =~= emails_view(v@).take(i as int),
        decreases v.len() - i,
    {
        let e = v[i].clone();
        r.push(e);
        assert(emails_view(r@) =~= emails_view(v@).take(i + 1)) by {
            assert(r@[i as int]@ == v@[i as int]@);
        }
        i = i + 1;
    }
    assert(emails_view(v@).take(v.len() as int) =~= emails_view(v@));
    r
}

/// A copy of a list of members.
pub fn clone_members(v: &Vec<DbGroupMember>) -> (r: Vec<DbGroupMember>)
    ensures
        members_view(r@) == members_view(v@),
{
    let mut r: Vec<DbGroupMember> = Vec::new();
    let mut i: usize = 0;
    while i < v.len()
        invariant
            i <= v.len(),
            r.len() == i,
            members_view(r@) =~= members_view(v@).take(i as int),
        decreases v.len() - i,
    {
        let m = v[i].clone();
        r.push(m);
        assert(members_view(r@) =~= members_view(v@).take(i + 1)) by {
            assert(r@[i as int]@ == v@[i as int]@);
        }
        i = i + 1;
    }
    assert(members_view(v@).take(v.len() as int) =~= members_view(v@));
    r
}

impl Clone for DbUser {
    fn clone(&self) -> (r: Self)
        ensures
            r@ == self@,
    {
        DbUser {
            id: self.id.clone(),
            external_id: clone_opt_string(&self.external_id),
            user_name: self.user_name.clone(),
            formatted_name: clone_opt_string(&self.formatted_name),
            family_name: clone_opt_string(&self.family_name),
            given_name: clone_opt_string(&self.given_name),
            display_name: clone_opt_string(&self.display_name),
            emails: clone_emails(&self.emails),
            active: self.active,
            created: self.created,
            last_modified: self.last_modified,
        }
    }
}

impl Clone for DbGroup {
    fn clone(&self) -> (r: Self)
        ensures
            r@ == self@,
    {
        DbGroup {
            id: self.id.clone(),
            display_name: self.display_name.clone(),
            members: clone_members(&self.members),
            created: self.created,
            last_modified: self.last_modified,
        }
    }
}

/// Every user is stored under its own id.
pub open spec fn users_keyed_by_id(m: Map<Seq<char>, UserView>) -> bool {
    forall|k: Seq<char>| #[trigger] m.contains_key(k) ==> m[k].id == k
}

/// Every group is stored under its own id.
pub open spec fn groups_keyed_by_id(m: Map<Seq<char>, GroupView>) -> bool {
    forall|k: Seq<char>| #[trigger] m.contains_key(k) ==> m[k].id == k
}

/// No two users have user names that agree up to ASCII case.
pub open spec fn user_names_distinct(m: Map<Seq<char>, UserView>) -> bool {
    forall|a: Seq<char>, b: Seq<char>|
        #![trigger m[a], m[b]]
        m.contains_key(a) && m.contains_key(b) && a != b ==> !eq_ignore_ascii_case(
            m[a].user_name,
            m[b].user_name,
        )
}

/// No two groups have display names that agree up to ASCII case.
pub open spec fn group_names_distinct(m: Map<Seq<char>, GroupView>) -> bool {
    forall|a: Seq<char>, b: Seq<char>|
        #![trigger m[a], m[b]]
        m.contains_key(a) && m.contains_key(b) && a != b ==> !eq_ignore_ascii_case(
            m[a].display_name,
            m[b].display_name,
        )
}

/// Some user other than the one under `except` has a user name equal to `name` up to ASCII case.
pub open spec fn user_name_taken_by_other(
    m: Map<Seq<char>, UserView>,
    name: Seq<char>,
    except: Option<Seq<char>>,
) -> bool {
    exists|k: Seq<char>|
        #![trigger m[k]]
        m.contains_key(k) && except != Some(k) && eq_ignore_ascii_case(m[k].user_name, name)
}

/// Some user has a user name equal to `name` up to ASCII case.
pub open spec fn user_name_taken(m: Map<Seq<char>, UserView>, name: Seq<char>) -> bool {
    user_name_taken_by_other(m, name, None)
}

/// Some group other than the one under `except` has a display name equal to `name` up to
/// ASCII case.
pub open spec fn group_name_taken_by_other(
    m: Map<Seq<char>, GroupView>,
    name: Seq<char>,
    except: Option<Seq<char>>,
) -> bool {
    exists|k: Seq<char>|
        #![trigger m[k]]
        m.contains_key(k) && except != Some(k) && eq_ignore_ascii_case(m[k].display_name, name)
}

/// Some group has a display name equal to `name` up to ASCII case.
pub open spec fn group_name_taken(m: Map<Seq<char>, GroupView>, name: Seq<char>) -> bool {
    group_name_taken_by_other(m, name, None)
}

/// The text of a generated id: 36 characters, lower-case hexadecimal digits with hyphens
/// at positions 8, 13, 18 and 23.
pub open spec fn is_hyphenated_id(s: Seq<char>) -> bool {
    &&& s.len() == 36
    &&& forall|i: int|
        0 <= i < 36 ==> if i == 8 || i == 13 || i == 18 || i == 23 {
            #[trigger] s[i] == '-'
        } else {
            ('0' <= s[i] && s[i] <= '9') || ('a' <= s[i] && s[i] <= 'f')
        }
}

/// A fresh random id, from `uuid::Uuid::new_v4()` rendered with `to_string()`.
///
/// Trusted: which id comes back rests on the random number generator and is not claimed.
/// The claim is the shape of the text, which the source shows: `Display` for `Uuid` is its
/// `LowerHex`, the hyphenated form built by `format_hyphenated`.
#[verifier::external_body]
fn new_resource_id() -> (r: String)
    ensures
        is_hyphenated_id(r@),
{
    uuid::Uuid::new_v4().to_string()
}

/// The values of the fields of a user about to be stored.
pub open spec fn user_with_fields(
    id: Seq<char>,
    external_id: Option<String>,
    user_name: String,
    formatted_name: Option<String>,
    family_name: Option<String>,
    given_name: Option<String>,
    display_name: Option<String>,
    emails: Seq<DbEmail>,
    active: bool,
    created: Timestamp,
    last_modified: Timestamp,
) -> UserView {
    UserView {
        id,
        external_id: opt_view(external_id),
        user_name: user_name@,
        formatted_name: opt_view(formatted_name),
        family_name: opt_view(family_name),
        given_name: opt_view(given_name),
        display_name: opt_view(display_name),
        emails: emails_view(emails),
        active,
        created,
        last_modified,
    }
}

/// The store: users and groups, each in a hash map keyed by id, with the ids in the order
/// in which they were added.
pub struct Database {
    users: StringHashMap<DbUser>,
    user_ids: Vec<String>,
    groups: StringHashMap<DbGroup>,
    group_ids: Vec<String>,
}

impl Database {
    /// The users, by id.
    pub closed spec fn users(&self) -> Map<Seq<char>, UserView> {
        self.users@.map_values(|u: DbUser| u@)
    }

    /// The groups, by id.
    pub closed spec fn groups(&self) -> Map<Seq<char>, GroupView> {
        self.groups@.map_values(|g: DbGroup| g@)
    }

    /// The ids of the users, in the order they were added.
    pub closed spec fn user_order(&self) -> Seq<Seq<char>> {
        self.user_ids@.map_values(|s: String| s@)
    }

    /// The ids of the groups, in the order they were added.
    pub closed spec fn group_order(&self) -> Seq<Seq<char>> {
        self.group_ids@.map_values(|s: String| s@)
    }

    /// The id lists hold exactly the keys of the maps, each once.
    pub closed spec fn storage_ok(&self) -> bool {
        &&& self.user_order().no_duplicates()
        &&& forall|k: Seq<char>| #[trigger]
            self.users@.contains_key(k) <==> self.user_order().contains(k)
        &&& self.group_order().no_duplicates()
        &&& forall|k: Seq<char>| #[trigger]
            self.groups@.contains_key(k) <==> self.group_order().contains(k)
    }

    /// The store's invariant.
    pub open spec fn wf(&self) -> bool {
        &&& self.storage_ok()
        &&& users_keyed_by_id(self.users())
        &&& user_names_distinct(self.users())
        &&& groups_keyed_by_id(self.groups())
        &&& group_names_distinct(self.groups())
    }

    /// In a consistent store the user ids in order are exactly the keys, each once.
    pub proof fn lemma_user_order_keys(&self)
        requires
            self.wf(),
        ensures
            self.user_order().no_duplicates(),
            forall|k: Seq<char>| #[trigger]
                self.users().contains_key(k) <==> self.user_order().contains(k),
    {
        assert forall|k: Seq<char>| #[trigger]
            self.users().contains_key(k) <==> self.user_order().contains(k) by {
            assert(self.users@.contains_key(k) <==> self.user_order().contains(k));
        }
    }

    /// In a consistent store the group ids in order are exactly the keys, each once.
    pub proof fn lemma_group_order_keys(&self)
        requires
            self.wf(),
        ensures
            self.group_order().no_duplicates(),
            forall|k: Seq<char>| #[trigger]
                self.groups().contains_key(k) <==> self.group_order().contains(k),
    {
        assert forall|k: Seq<char>| #[trigger]
            self.groups().contains_key(k) <==> self.group_order().contains(k) by {
            assert(self.groups@.contains_key(k) <==> self.group_order().contains(k));
        }
    }

    /// The users in the order they were added.
    pub open spec fn ordered_users(&self) -> Seq<UserView> {
        self.user_order().map_values(|k: Seq<char>| self.users()[k])
    }

    /// The groups in the order they were added.
    pub open spec fn ordered_groups(&self) -> Seq<GroupView> {
        self.group_order().map_values(|k: Seq<char>| self.groups()[k])
    }

    /// An empty store.
    pub fn new() -> (r: Database)
        ensures
            r.wf(),
            r.users() == Map::<Seq<char>, UserView>::empty(),
            r.groups() == Map::<Seq<char>, GroupView>::empty(),
            r.user_order() == Seq::<Seq<char>>::empty(),
            r.group_order() == Seq::<Seq<char>>::empty(),
    {
        let r = Database {
            users: StringHashMap::new(),
            user_ids: Vec::new(),
            groups: StringHashMap::new(),
            group_ids: Vec::new(),
        };
        assert(r.users() =~= Map::<Seq<char>, UserView>::empty());
        assert(r.groups() =~= Map::<Seq<char>, GroupView>::empty());
        assert(r.user_order() =~= Seq::<Seq<char>>::empty());
        assert(r.group_order() =~= Seq::<Seq<char>>::empty());
        r
    }

    /// The user with id `id`, if there is one.
    pub fn get_user(&self, id: &str) -> (r: Option<DbUser>)
        requires
            self.wf(),
        ensures
            r is Some <==> self.users().contains_key(id@),
            r matches Some(u) ==> u@ == self.users()[id@],
    {
        match self.users.get(id) {
            Some(u) => Some(u.clone()),
            None => None,
        }
    }

    /// Whether some user other than `except` has user name `name` up to ASCII case.
    fn find_user_name(&self, name: &str, except: Option<&str>) -> (r: bool)
        requires
            self.wf(),
        ensures
            r == user_name_taken_by_other(
                self.users(),
                name@,
                match except {
                    Some(e) => Some(e@),
                    None => None,
                },
            ),
    {
        let ghost ex = match except {
            Some(e) => Some(e@),
            None => None::<Seq<char>>,
        };
        let mut i: usize = 0;
        while i < self.user_ids.len()
            invariant
                self.wf(),
                i <= self.user_ids.len(),
                ex == match except {
                    Some(e) => Some(e@),
                    None => None::<Seq<char>>,
                },
                forall|j: int|
                    0 <= j < i ==> {
                        let k = #[trigger] self.user_order()[j];
                        !(ex != Some(k) && eq_ignore_ascii_case(self.users()[k].user_name, name@))
                    },
            decreases self.user_ids.len() - i,
        {
            let key = &self.user_ids[i];
            assert(self.user_order()[i as int] == key@);
            assert(self.user_order().contains(key@));
            let u = self.users.get(key.as_str()).unwrap();
            let skip = match except {
                Some(e) => string_eq_str(key, e),
                None => false,
            };
            if !skip && str_eq_ignore_ascii_case(u.user_name.as_str(), name) {
                assert(self.users()[key@].user_name == u.user_name@);
                return true;
            }
            i = i + 1;
        }
        assert forall|k: Seq<char>|
            #![trigger self.users()[k]]
            self.users().contains_key(k) && ex != Some(k) implies !eq_ignore_ascii_case(
            self.users()[k].user_name,
            name@,
        ) by {
            assert(self.user_order().contains(k));
            let j = choose|j: int| 0 <= j < self.user_order().len() && self.user_order()[j] == k;
        }
        false
    }

    /// Stores a new user with the given id and time of creation. The caller has checked
    /// that no user has the same user name up to ASCII case.
    pub fn insert_user(
        &mut self,
        id: String,
        now: Timestamp,
        external_id: Option<String>,
        user_name: String,
        formatted_name: Option<String>,
        family_name: Option<String>,
        given_name: Option<String>,
        display_name: Option<String>,
        emails: Vec<DbEmail>,
        active: bool,
    ) -> (r: DbUser)
        requires
            old(self).wf(),
            !user_name_taken(old(self).users(), user_name@),
        ensures
            final(self).wf(),
            r@ == user_with_fields(
                id@,
                external_id,
                user_name,
                formatted_name,
                family_name,
                given_name,
                display_name,
                emails@,
                active,
                now,
                now,
            ),
            final(self).users() == old(self).users().insert(id@, r@),
            final(self).groups() == old(self).groups(),
            final(self).user_order() == if old(self).users().contains_key(id@) {
                old(self).user_order()
            } else {
                old(self).user_order().push(id@)
            },
            final(self).group_order() == old(self).group_order(),
    {
        let user = DbUser {
            id,
            external_id,
            user_name,
            formatted_name,
            family_name,
            given_name,
            display_name,
            emails,
            active,
            created: now,
            last_modified: now,
        };
        let key = user.id.clone();
        let stored = user.clone();
        let existed = self.users.contains_key(key.as_str());
        let ghost old_users = self.users();
        self.users.insert(key.clone(), stored);
        if !existed {
            self.user_ids.push(key);
        }
        proof {
            assert(self.users() =~= old_users.insert(user@.id, user@));
            if !existed {
                assert(self.user_order() =~= old(self).user_order().push(user@.id));
            }
            assert forall|k: Seq<char>| #[trigger]
                self.users@.contains_key(k) <==> self.user_order().contains(k) by {
                if k == user@.id {
                    if !existed {
                        assert(self.user_order()[self.user_order().len() - 1] == k);
                    }
                } else if old(self).user_order().contains(k) {
                    let j = choose|j: int|
                        0 <= j < old(self).user_order().len() && old(self).user_order()[j] == k;
                    assert(self.user_order()[j] == k);
                } else if self.user_order().contains(k) {
                    let j = choose|j: int|
                        0 <= j < self.user_order().len() && self.user_order()[j] == k;
                    assert(old(self).user_order()[j] == k);
                }
            }
            assert forall|a: Seq<char>, b: Seq<char>|
                #![trigger self.users()[a], self.users()[b]]
                self.users().contains_key(a) && self.users().contains_key(b) && a != b
                    implies !eq_ignore_ascii_case(
                    self.users()[a].user_name,
                    self.users()[b].user_name,
                ) by {
                if a == user@.id {
                    if eq_ignore_ascii_case(self.users()[a].user_name, self.users()[b].user_name) {
                        lemma_eq_ignore_symm(user@.user_name, old_users[b].user_name);
                        assert(old_users.contains_key(b) && None::<Seq<char>> != Some(b));
                    }
                } else if b == user@.id {
                    assert(old_users.contains_key(a) && None::<Seq<char>> != Some(a));
                }
            }
        }
        user
    }

    /// Adds a user with a fresh id, unless another user has the same user name up to
    /// ASCII case.
    pub fn create_user(
        &mut self,
        external_id: Option<String>,
        user_name: String,
        formatted_name: Option<String>,
        family_name: Option<String>,
        given_name: Option<String>,
        display_name: Option<String>,
        emails: Vec<DbEmail>,
        active: bool,
    ) -> (r: Result<DbUser, DbError>)
        requires
            old(self).wf(),
        ensures
            final(self).wf(),
            r is Err <==> user_name_taken(old(self).users(), user_name@),
            r matches Err(e) ==> e == DbError::UserAlreadyExists(user_name) && *final(self)
                == *old(self),
            r matches Ok(u) ==> {
                &&& is_hyphenated_id(u@.id)
                &&& u@ == user_with_fields(
                    u@.id,
                    external_id,
                    user_name,
                    formatted_name,
                    family_name,
                    given_name,
                    display_name,
                    emails@,
                    active,
                    u@.created,
                    u@.created,
                )
                &&& final(self).users() == old(self).users().insert(u@.id, u@)
                &&& final(self).groups() == old(self).groups()
                &&& final(self).group_order() == old(self).group_order()
            },
    {
        if self.find_user_name(user_name.as_str(), None) {
            return Err(DbError::UserAlreadyExists(user_name));
        }
        let id = new_resource_id();
        let now = now_utc();
        Ok(
            self.insert_user(
                id,
                now,
                external_id,
                user_name,
                formatted_name,
                family_name,
                given_name,
                display_name,
                emails,
                active,
            ),
        )
    }
}

/// The name a group shows for member `u`: its display name, else its user name.
pub open spec fn member_display_of(u: UserView) -> Seq<char> {
    match u.display_name {
        Some(d) => d,
        None => u.user_name,
    }
}

/// `g` with the shown name of every member that refers to `uid` set to `disp`.
pub open spec fn refresh_member_names(g: GroupView, uid: Seq<char>, disp: Seq<char>) -> GroupView {
    GroupView {
        members: g.members.map_values(
            |m: MemberView|
                if m.value == uid {
                    MemberView { value: m.value, display: Some(disp) }
                } else {
                    m
                },
        ),
        ..g
    }
}

/// The members of `ms` that do not refer to `uid`, in order.
pub open spec fn members_without(ms: Seq<MemberView>, uid: Seq<char>) -> Seq<MemberView> {
    ms.filter(|m: MemberView| m.value != uid)
}

/// `g` after the user `uid` left it, touched at `when`.
pub open spec fn group_without_member(g: GroupView, uid: Seq<char>, when: Timestamp) -> GroupView {
    GroupView { members: members_without(g.members, uid), last_modified: when, ..g }
}

/// A copy of `g` in which members referring to `uid` show `disp`.
fn refreshed_group(g: &DbGroup, uid: &str, disp: &String) -> (r: DbGroup)
    ensures
        r@ == refresh_member_names(g@, uid@, disp@),
{
    let mut ms: Vec<DbGroupMember> = Vec::new();
    let mut i: usize = 0;
    let ghost target = refresh_member_names(g@, uid@, disp@).members;
    while i < g.members.len()
        invariant
            i <= g.members.len(),
            ms.len() == i,
            target == refresh_member_names(g@, uid@, disp@).members,
            target.len() == g.members.len(),
            members_view(ms@) =~= target.take(i as int),
        decreases g.members.len() - i,
    {
        let m = &g.members[i];
        let nm = if string_eq_str(&m.value, uid) {
            DbGroupMember { value: m.value.clone(), display: Some(disp.clone()) }
        } else {
            m.clone()
        };
        ms.push(nm);
        assert(members_view(ms@) =~= target.take(i + 1)) by {
            assert(ms@[i as int]@ == target[i as int]);
        }
        i = i + 1;
    }
    assert(target.take(g.members.len() as int) =~= target);
    let r = DbGroup {
        id: g.id.clone(),
        display_name: g.display_name.clone(),
        members: ms,
        created: g.created,
        last_modified: g.last_modified,
    };
    assert(r@ =~= refresh_member_names(g@, uid@, disp@));
    r
}

/// A copy of `g` without the members referring to `uid`, touched at `when`.
fn group_dropping_member(g: &DbGroup, uid: &str, when: Timestamp) -> (r: DbGroup)
    ensures
        r@ == group_without_member(g@, uid@, when),
{
    let mut ms: Vec<DbGroupMember> = Vec::new();
    let mut i: usize = 0;
    let ghost all = members_view(g.members@);
    let ghost pred = |m: MemberView| m.value != uid@;
    while i < g.members.len()
        invariant
            i <= g.members.len(),
            all == members_view(g.members@),
            pred == (|m: MemberView| m.value != uid@),
            members_view(ms@) =~= all.take(i as int).filter(pred),
        decreases g.members.len() - i,
    {
        let m = &g.members[i];
        proof {
            assert(all.take(i + 1) =~= all.take(i as int).push(all[i as int]));
            all.take(i as int).lemma_filter_push(all[i as int], pred);
        }
        if !string_eq_str(&m.value, uid) {
            let c = m.clone();
            ms.push(c);
            assert(members_view(ms@) =~= all.take(i as int).filter(pred).push(c@));
        }
        i = i + 1;
    }
    assert(all.take(g.members.len() as int) =~= all);
    let r = DbGroup {
        id: g.id.clone(),
        display_name: g.display_name.clone(),
        members: ms,
        created: g.created,
        last_modified: when,
    };
    assert(r@ =~= group_without_member(g@, uid@, when));
    r
}

impl Database {
    /// Replaces the fields of the user with id `id`, keeping its id and time of creation and
    /// setting its time of last modification to `now`, unless there is no such user or the
    /// user name is changed (beyond ASCII case) to one that another user has up to ASCII
    /// case. Groups that list the user show its new name.
    pub fn update_user_at(
        &mut self,
        id: &str,
        now: Timestamp,
        external_id: Option<String>,
        user_name: String,
        formatted_name: Option<String>,
        family_name: Option<String>,
        given_name: Option<String>,
        display_name: Option<String>,
        emails: Vec<DbEmail>,
        active: bool,
    ) -> (r: Result<DbUser, DbError>)
        requires
            old(self).wf(),
        ensures
            final(self).wf(),
            !old(self).users().contains_key(id@) ==> (r matches Err(DbError::UserNotFound(s))
                && s@ == id@ && *final(self) == *old(self)),
            old(self).users().contains_key(id@) && !eq_ignore_ascii_case(
                old(self).users()[id@].user_name,
                user_name@,
            ) && user_name_taken_by_other(old(self).users(), user_name@, Some(id@)) ==> (r
                == Err::<DbUser, DbError>(DbError::UserAlreadyExists(user_name)) && *final(self)
                == *old(self)),
            r is Ok <==> old(self).users().contains_key(id@) && !(!eq_ignore_ascii_case(
                old(self).users()[id@].user_name,
                user_name@,
            ) && user_name_taken_by_other(old(self).users(), user_name@, Some(id@))),
            r matches Ok(u) ==> {
                &&& u@ == user_with_fields(
                    id@,
                    external_id,
                    user_name,
                    formatted_name,
                    family_name,
                    given_name,
                    display_name,
                    emails@,
                    active,
                    old(self).users()[id@].created,
                    now,
                )
                &&& final(self).users() == old(self).users().insert(id@, u@)
                &&& final(self).groups() == old(self).groups().map_values(
                    |g: GroupView| refresh_member_names(g, id@, member_display_of(u@)),
                )
                &&& final(self).user_order() == old(self).user_order()
                &&& final(self).group_order() == old(self).group_order()
            },
    {
        let existing = match self.users.get(id) {
            Some(u) => u,
            None => {
                return Err(DbError::UserNotFound(owned(id)));
            },
        };
        let created = existing.created;
        if !str_eq_ignore_ascii_case(existing.user_name.as_str(), user_name.as_str())
            && self.find_user_name(user_name.as_str(), Some(id)) {
            return Err(DbError::UserAlreadyExists(user_name));
        }
        let updated = DbUser {
            id: owned(id),
            external_id,
            user_name,
            formatted_name,
            family_name,
            given_name,
            display_name,
            emails,
            active,
            created,
            last_modified: now,
        };
        let ghost old_users = self.users();
        let stored = updated.clone();
        self.users.insert(owned(id), stored);
        proof {
            assert(self.users() =~= old_users.insert(id@, updated@));
            assert(old_users.contains_key(id@));
            assert forall|a: Seq<char>, b: Seq<char>|
                #![trigger self.users()[a], self.users()[b]]
                self.users().contains_key(a) && self.users().contains_key(b) && a != b
                    implies !eq_ignore_ascii_case(
                    self.users()[a].user_name,
                    self.users()[b].user_name,
                ) by {
                if a == id@ {
                    if eq_ignore_ascii_case(self.users()[a].user_name, self.users()[b].user_name) {
                        lemma_eq_ignore_symm(updated@.user_name, old_users[b].user_name);
                        assert(old_users.contains_key(b) && Some(id@) != Some(b));
                        if eq_ignore_ascii_case(old_users[id@].user_name, updated@.user_name) {
                            lemma_eq_ignore_trans(
                                old_users[id@].user_name,
                                updated@.user_name,
                                old_users[b].user_name,
                            );
                        }
                    }
                } else if b == id@ {
                    if eq_ignore_ascii_case(self.users()[a].user_name, self.users()[b].user_name) {
                        assert(old_users.contains_key(a) && Some(id@) != Some(a));
                        if eq_ignore_ascii_case(old_users[id@].user_name, updated@.user_name) {
                            lemma_eq_ignore_symm(old_users[id@].user_name, updated@.user_name);
                            lemma_eq_ignore_trans(
                                old_users[a].user_name,
                                updated@.user_name,
                                old_users[id@].user_name,
                            );
                            lemma_eq_ignore_symm(old_users[a].user_name, old_users[id@].user_name);
                        }
                    }
                }
            }
            assert forall|k: Seq<char>| #[trigger]
                self.users@.contains_key(k) <==> self.user_order().contains(k) by {
                assert(old(self).users@.contains_key(k) <==> old(self).user_order().contains(k));
            }
        }
        let disp: String = match &updated.display_name {
            Some(d) => d.clone(),
            None => updated.user_name.clone(),
        };
        assert(disp@ == member_display_of(updated@));
        self.refresh_member_names(id, &disp);
        Ok(updated)
    }

    /// Replaces the fields of the user with id `id`, as `update_user_at` does at the current
    /// time read from the clock.
    pub fn update_user(
        &mut self,
        id: &str,
        external_id: Option<String>,
        user_name: String,
        formatted_name: Option<String>,
        family_name: Option<String>,
        given_name: Option<String>,
        display_name: Option<String>,
        emails: Vec<DbEmail>,
        active: bool,
    ) -> (r: Result<DbUser, DbError>)
        requires
            old(self).wf(),
        ensures
            final(self).wf(),
            !old(self).users().contains_key(id@) ==> (r matches Err(DbError::UserNotFound(s))
                && s@ == id@ && *final(self) == *old(self)),
            old(self).users().contains_key(id@) && !eq_ignore_ascii_case(
                old(self).users()[id@].user_name,
                user_name@,
            ) && user_name_taken_by_other(old(self).users(), user_name@, Some(id@)) ==> (r
                == Err::<DbUser, DbError>(DbError::UserAlreadyExists(user_name)) && *final(self)
                == *old(self)),
            r is Ok <==> old(self).users().contains_key(id@) && !(!eq_ignore_ascii_case(
                old(self).users()[id@].user_name,
                user_name@,
            ) && user_name_taken_by_other(old(self).users(), user_name@, Some(id@))),
            r matches Ok(u) ==> {
                &&& u@ == user_with_fields(
                    id@,
                    external_id,
                    user_name,
                    formatted_name,
                    family_name,
                    given_name,
                    display_name,
                    emails@,
                    active,
                    old(self).users()[id@].created,
                    u@.last_modified,
                )
                &&& final(self).users() == old(self).users().insert(id@, u@)
                &&& final(self).groups() == old(self).groups().map_values(
                    |g: GroupView| refresh_member_names(g, id@, member_display_of(u@)),
                )
                &&& final(self).user_order() == old(self).user_order()
                &&& final(self).group_order() == old(self).group_order()
            },
    {
        let now = now_utc();
        self.update_user_at(
            id,
            now,
            external_id,
            user_name,
            formatted_name,
            family_name,
            given_name,
            display_name,
            emails,
            active,
        )
    }

    /// Every member that refers to `uid`, in every group, shows `disp`.
    fn refresh_member_names(&mut self, uid: &str, disp: &String)
        requires
            old(self).wf(),
        ensures
            final(self).wf(),
            final(self).users() == old(self).users(),
            final(self).groups() == old(self).groups().map_values(
                |g: GroupView| refresh_member_names(g, uid@, disp@),
            ),
            final(self).user_order() == old(self).user_order(),
            final(self).group_order() == old(self).group_order(),
    {
        let ghost old_groups = self.groups();
        let mut i: usize = 0;
        while i < self.group_ids.len()
            invariant
                old(self).wf(),
                i <= self.group_ids.len(),
                self.users == old(self).users,
                self.user_ids == old(self).user_ids,
                self.group_ids == old(self).group_ids,
                old_groups == old(self).groups(),
                self.groups@.dom() == old(self).groups@.dom(),
                forall|j: int|
                    0 <= j < self.group_order().len() ==> #[trigger] self.groups()[self.group_order()[j]]
                        == if j < i {
                        refresh_member_names(old_groups[self.group_order()[j]], uid@, disp@)
                    } else {
                        old_groups[self.group_order()[j]]
                    },
            decreases self.group_ids.len() - i,
        {
            let key = self.group_ids[i].clone();
            let ghost before = self.groups();
            let ghost order = self.group_order();
            assert(order[i as int] == key@);
            assert(old(self).group_order().contains(key@));
            assert(forall|j: int|
                0 <= j < order.len() ==> #[trigger] before[order[j]] == if j < i {
                    refresh_member_names(old_groups[order[j]], uid@, disp@)
                } else {
                    old_groups[order[j]]
                });
            assert(before[order[i as int]] == old_groups[order[i as int]]);
            let g = self.groups.get(key.as_str()).unwrap();
            let ng = refreshed_group(g, uid, disp);
            self.groups.insert(key, ng);
            proof {
                assert(self.groups() =~= before.insert(order[i as int], ng@));
                assert forall|j: int|
                    0 <= j < order.len() implies #[trigger] self.groups()[order[j]] == if j < i + 1 {
                        refresh_member_names(old_groups[order[j]], uid@, disp@)
                    } else {
                        old_groups[order[j]]
                    } by {
                    if j != i {
                        assert(order[j] != order[i as int]);
                        assert(before[order[j]] == if j < i {
                            refresh_member_names(old_groups[order[j]], uid@, disp@)
                        } else {
                            old_groups[order[j]]
                        });
                    }
                }
            }
            i = i + 1;
        }
        proof {
            assert forall|k: Seq<char>| #[trigger] old_groups.contains_key(k) implies self.groups()[k]
                == refresh_member_names(old_groups[k], uid@, disp@) by {
                assert(old(self).group_order().contains(k));
                let j = choose|j: int|
                    0 <= j < old(self).group_order().len() && old(self).group_order()[j] == k;
                assert(self.groups()[self.group_order()[j]] == refresh_member_names(
                    old_groups[self.group_order()[j]],
                    uid@,
                    disp@,
                ));
            }
            assert(self.groups() =~= old_groups.map_values(
                |g: GroupView| refresh_member_names(g, uid@, disp@),
            ));
        }
    }

    /// Removes the user with id `id` and every membership that refers to it; every group is
    /// touched: its time of last modification is set to `now`.
    pub fn delete_user_at(&mut self, id: &str, now: Timestamp) -> (r: Result<(), DbError>)
        requires
            old(self).wf(),
        ensures
            final(self).wf(),
            r is Err <==> !old(self).users().contains_key(id@),
            r matches Err(e) ==> (e matches DbError::UserNotFound(s) && s@ == id@ && *final(self)
                == *old(self)),
            r is Ok ==> {
                &&& final(self).users() == old(self).users().remove(id@)
                &&& final(self).groups().dom() == old(self).groups().dom()
                &&& forall|k: Seq<char>| #[trigger]
                    old(self).groups().contains_key(k) ==> final(self).groups()[k]
                        == group_without_member(
                        old(self).groups()[k],
                        id@,
                        now,
                    )
                &&& final(self).group_order() == old(self).group_order()
            },
    {
        if !self.users.contains_key(id) {
            return Err(DbError::UserNotFound(owned(id)));
        }
        let ghost old_groups = self.groups();
        let mut i: usize = 0;
        while i < self.group_ids.len()
            invariant
                old(self).wf(),
                i <= self.group_ids.len(),
                self.group_ids == old(self).group_ids,
                self.users == old(self).users,
                self.user_ids == old(self).user_ids,
                old_groups == old(self).groups(),
                self.groups@.dom() == old(self).groups@.dom(),
                forall|j: int|
                    0 <= j < self.group_order().len() ==> #[trigger] self.groups()[self.group_order()[j]]
                        == if j < i {
                        group_without_member(
                            old_groups[self.group_order()[j]],
                            id@,
                            now,
                        )
                    } else {
                        old_groups[self.group_order()[j]]
                    },
            decreases self.group_ids.len() - i,
        {
            let key = self.group_ids[i].clone();
            let ghost before = self.groups();
            let ghost order = self.group_order();
            assert(order[i as int] == key@);
            assert(old(self).group_order().contains(key@));
            assert(forall|j: int|
                0 <= j < order.len() ==> #[trigger] before[order[j]] == if j < i {
                    group_without_member(old_groups[order[j]], id@, now)
                } else {
                    old_groups[order[j]]
                });
            assert(before[order[i as int]] == old_groups[order[i as int]]);
            let g = self.groups.get(key.as_str()).unwrap();
            let ng = group_dropping_member(g, id, now);
            self.groups.insert(key, ng);
            proof {
                assert(self.groups() =~= before.insert(order[i as int], ng@));
                assert forall|j: int|
                    0 <= j < order.len() implies #[trigger] self.groups()[order[j]] == if j < i + 1 {
                        group_without_member(
                            old_groups[order[j]],
                            id@,
                            now,
                        )
                    } else {
                        old_groups[order[j]]
                    } by {
                    if j != i {
                        assert(order[j] != order[i as int]);
                        assert(before[order[j]] == if j < i {
                            group_without_member(old_groups[order[j]], id@, now)
                        } else {
                            old_groups[order[j]]
                        });
                    }
                }
            }
            i = i + 1;
        }
        proof {
            assert forall|k: Seq<char>| #[trigger] old_groups.contains_key(k) implies self.groups()[k]
                == group_without_member(old_groups[k], id@, now) by {
                assert(old(self).group_order().contains(k));
                let j = choose|j: int|
                    0 <= j < old(self).group_order().len() && old(self).group_order()[j] == k;
                assert(self.groups()[self.group_order()[j]] == group_without_member(
                    old_groups[self.group_order()[j]],
                    id@,
                    now,
                ));
            }
            assert(self.groups().dom() =~= old_groups.dom());
            assert forall|a: Seq<char>, b: Seq<char>|
                #![trigger self.groups()[a], self.groups()[b]]
                self.groups().contains_key(a) && self.groups().contains_key(b) && a != b
                    implies !eq_ignore_ascii_case(
                    self.groups()[a].display_name,
                    self.groups()[b].display_name,
                ) by {
                assert(old_groups[a].display_name == self.groups()[a].display_name);
                assert(old_groups[b].display_name == self.groups()[b].display_name);
            }
        }
        let ghost old_users = self.users();
        self.users.remove(id);
        let p = position_of(&self.user_ids, id);
        assert(p < self.user_ids.len() && self.user_order()[p as int] == id@);
        let ghost old_order = self.user_order();
        self.user_ids.remove(p);
        proof {
            assert(self.user_order() =~= old_order.remove(p as int));
            assert(self.users() =~= old_users.remove(id@));
            assert forall|k: Seq<char>| #[trigger]
                self.users@.contains_key(k) <==> self.user_order().contains(k) by {
                if self.user_order().contains(k) {
                    let j = choose|j: int|
                        0 <= j < self.user_order().len() && self.user_order()[j] == k;
                    if j < p {
                        assert(old_order[j] == k);
                    } else {
                        assert(old_order[j + 1] == k);
                    }
                }
                if old(self).users@.contains_key(k) && k != id@ {
                    assert(old_order.contains(k));
                    let j = choose|j: int| 0 <= j < old_order.len() && old_order[j] == k;
                    if j < p {
                        assert(self.user_order()[j] == k);
                    } else {
                        assert(self.user_order()[j - 1] == k);
                    }
                }
            }
            assert forall|a: int, b: int|
                0 <= a < b < self.user_order().len() implies self.user_order()[a]
                != self.user_order()[b] by {
                let oa = if a < p { a } else { a + 1 };
                let ob = if b < p { b } else { b + 1 };
                assert(old_order[oa] != old_order[ob]);
            }
        }
        Ok(())
    }

    /// Removes the user with id `id` and every membership that refers to it, as
    /// `delete_user_at` does at the current time read from the clock.
    pub fn delete_user(&mut self, id: &str) -> (r: Result<(), DbError>)
        requires
            old(self).wf(),
        ensures
            final(self).wf(),
            r is Err <==> !old(self).users().contains_key(id@),
            r matches Err(e) ==> (e matches DbError::UserNotFound(s) && s@ == id@ && *final(self)
                == *old(self)),
            r is Ok ==> {
                &&& final(self).users() == old(self).users().remove(id@)
                &&& final(self).groups().dom() == old(self).groups().dom()
                &&& forall|k: Seq<char>| #[trigger]
                    old(self).groups().contains_key(k) ==> final(self).groups()[k]
                        == group_without_member(
                        old(self).groups()[k],
                        id@,
                        final(self).groups()[k].last_modified,
                    )
                &&& final(self).group_order() == old(self).group_order()
            },
    {
        let now = now_utc();
        self.delete_user_at(id, now)
    }
}

/// The shown name of a member: the one given, else the shown name of the user it refers
/// to, if that user exists.
pub open spec fn hydrate_member(m: MemberView, users: Map<Seq<char>, UserView>) -> MemberView {
    MemberView {
        value: m.value,
        display: match m.display {
            Some(d) => Some(d),
            None => if users.contains_key(m.value) {
                Some(member_display_of(users[m.value]))
            } else {
                None
            },
        },
    }
}

/// Members with their shown names filled in from `users` where they were missing.
pub open spec fn hydrate_members(ms: Seq<MemberView>, users: Map<Seq<char>, UserView>) -> Seq<
    MemberView,
> {
    ms.map_values(|m: MemberView| hydrate_member(m, users))
}

/// Some member of `g` refers to `uid`.
pub open spec fn has_member(g: GroupView, uid: Seq<char>) -> bool {
    exists|i: int| 0 <= i < g.members.len() && #[trigger] g.members[i].value == uid
}

impl Database {
    /// `members` with missing shown names taken from the users they refer to.
    fn hydrate(&self, members: Vec<DbGroupMember>) -> (r: Vec<DbGroupMember>)
        requires
            self.wf(),
        ensures
            members_view(r@) == hydrate_members(members_view(members@), self.users()),
    {
        let ghost target = hydrate_members(members_view(members@), self.users());
        let mut out: Vec<DbGroupMember> = Vec::new();
        let mut i: usize = 0;
        while i < members.len()
            invariant
                i <= members.len(),
                out.len() == i,
                target == hydrate_members(members_view(members@), self.users()),
                target.len() == members.len(),
                members_view(out@) =~= target.take(i as int),
            decreases members.len() - i,
        {
            let m = &members[i];
            let display = match &m.display {
                Some(d) => Some(d.clone()),
                None => match self.users.get(m.value.as_str()) {
                    Some(u) => match &u.display_name {
                        Some(d) => Some(d.clone()),
                        None => Some(u.user_name.clone()),
                    },
                    None => None,
                },
            };
            let nm = DbGroupMember { value: m.value.clone(), display };
            out.push(nm);
            assert(members_view(out@) =~= target.take(i + 1)) by {
                assert(out@[i as int]@ == target[i as int]);
            }
            i = i + 1;
        }
        assert(target.take(members.len() as int) =~= target);
        out
    }

    /// Whether some group other than `except` has display name `name` up to ASCII case.
    fn find_group_name(&self, name: &str, except: Option<&str>) -> (r: bool)
        requires
            self.wf(),
        ensures
            r == group_name_taken_by_other(
                self.groups(),
                name@,
                match except {
                    Some(e) => Some(e@),
                    None => None,
                },
            ),
    {
        let ghost ex = match except {
            Some(e) => Some(e@),
            None => None::<Seq<char>>,
        };
        let mut i: usize = 0;
        while i < self.group_ids.len()
            invariant
                self.wf(),
                i <= self.group_ids.len(),
                ex == match except {
                    Some(e) => Some(e@),
                    None => None::<Seq<char>>,
                },
                forall|j: int|
                    0 <= j < i ==> {
                        let k = #[trigger] self.group_order()[j];
                        !(ex != Some(k) && eq_ignore_ascii_case(
                            self.groups()[k].display_name,
                            name@,
                        ))
                    },
            decreases self.group_ids.len() - i,
        {
            let key = &self.group_ids[i];
            assert(self.group_order()[i as int] == key@);
            assert(self.group_order().contains(key@));
            let g = self.groups.get(key.as_str()).unwrap();
            let skip = match except {
                Some(e) => string_eq_str(key, e),
                None => false,
            };
            if !skip && str_eq_ignore_ascii_case(g.display_name.as_str(), name) {
                assert(self.groups()[key@].display_name == g.display_name@);
                return true;
            }
            i = i + 1;
        }
        assert forall|k: Seq<char>|
            #![trigger self.groups()[k]]
            self.groups().contains_key(k) && ex != Some(k) implies !eq_ignore_ascii_case(
            self.groups()[k].display_name,
            name@,
        ) by {
            assert(self.group_order().contains(k));
            let j = choose|j: int| 0 <= j < self.group_order().len() && self.group_order()[j] == k;
        }
        false
    }

    /// Stores a new group with the given id and time of creation, filling in missing shown
    /// names of members from the users they refer to. The caller has checked that no group
    /// has the same display name up to ASCII case.
    pub fn insert_group(
        &mut self,
        id: String,
        now: Timestamp,
        display_name: String,
        members: Vec<DbGroupMember>,
    ) -> (r: DbGroup)
        requires
            old(self).wf(),
            !group_name_taken(old(self).groups(), display_name@),
        ensures
            final(self).wf(),
            r@ == (GroupView {
                id: id@,
                display_name: display_name@,
                members: hydrate_members(members_view(members@), old(self).users()),
                created: now,
                last_modified: now,
            }),
            final(self).groups() == old(self).groups().insert(id@, r@),
            final(self).users() == old(self).users(),
            final(self).group_order() == if old(self).groups().contains_key(id@) {
                old(self).group_order()
            } else {
                old(self).group_order().push(id@)
            },
            final(self).user_order() == old(self).user_order(),
    {
        let hydrated = self.hydrate(members);
        let group = DbGroup {
            id,
            display_name,
            members: hydrated,
            created: now,
            last_modified: now,
        };
        let key = group.id.clone();
        let stored = group.clone();
        let existed = self.groups.contains_key(key.as_str());
        let ghost old_groups = self.groups();
        self.groups.insert(key.clone(), stored);
        if !existed {
            self.group_ids.push(key);
        }
        proof {
            assert(self.groups() =~= old_groups.insert(group@.id, group@));
            if !existed {
                assert(self.group_order() =~= old(self).group_order().push(group@.id));
            }
            assert forall|k: Seq<char>| #[trigger]
                self.groups@.contains_key(k) <==> self.group_order().contains(k) by {
                if k == group@.id {
                    if !existed {
                        assert(self.group_order()[self.group_order().len() - 1] == k);
                    }
                } else if old(self).group_order().contains(k) {
                    let j = choose|j: int|
                        0 <= j < old(self).group_order().len() && old(self).group_order()[j] == k;
                    assert(self.group_order()[j] == k);
                } else if self.group_order().contains(k) {
                    let j = choose|j: int|
                        0 <= j < self.group_order().len() && self.group_order()[j] == k;
                    assert(old(self).group_order()[j] == k);
                }
            }
            assert forall|a: Seq<char>, b: Seq<char>|
                #![trigger self.groups()[a], self.groups()[b]]
                self.groups().contains_key(a) && self.groups().contains_key(b) && a != b
                    implies !eq_ignore_ascii_case(
                    self.groups()[a].display_name,
                    self.groups()[b].display_name,
                ) by {
                if a == group@.id {
                    if eq_ignore_ascii_case(
                        self.groups()[a].display_name,
                        self.groups()[b].display_name,
                    ) {
                        lemma_eq_ignore_symm(group@.display_name, old_groups[b].display_name);
                        assert(old_groups.contains_key(b) && None::<Seq<char>> != Some(b));
                    }
                } else if b == group@.id {
                    assert(old_groups.contains_key(a) && None::<Seq<char>> != Some(a));
                }
            }
        }
        group
    }

    /// Adds a group with a fresh id, unless another group has the same display name up to
    /// ASCII case. Members without a shown name take that of the user they refer to.
    pub fn create_group(&mut self, display_name: String, members: Vec<DbGroupMember>) -> (r:
        Result<DbGroup, DbError>)
        requires
            old(self).wf(),
        ensures
            final(self).wf(),
            r is Err <==> group_name_taken(old(self).groups(), display_name@),
            r matches Err(e) ==> e == DbError::GroupAlreadyExists(display_name) && *final(self)
                == *old(self),
            r matches Ok(g) ==> {
                &&& is_hyphenated_id(g@.id)
                &&& g@ == (GroupView {
                    id: g@.id,
                    display_name: display_name@,
                    members: hydrate_members(members_view(members@), old(self).users()),
                    created: g@.created,
                    last_modified: g@.created,
                })
                &&& final(self).groups() == old(self).groups().insert(g@.id, g@)
                &&& final(self).users() == old(self).users()
                &&& final(self).user_order() == old(self).user_order()
            },
    {
        if self.find_group_name(display_name.as_str(), None) {
            return Err(DbError::GroupAlreadyExists(display_name));
        }
        let id = new_resource_id();
        let now = now_utc();
        Ok(self.insert_group(id, now, display_name, members))
    }

    /// The group with id `id`, if there is one.
    pub fn get_group(&self, id: &str) -> (r: Option<DbGroup>)
        requires
            self.wf(),
        ensures
            r is Some <==> self.groups().contains_key(id@),
            r matches Some(g) ==> g@ == self.groups()[id@],
    {
        match self.groups.get(id) {
            Some(g) => Some(g.clone()),
            None => None,
        }
    }

    /// Replaces the display name and members of the group with id `id`, keeping its id and
    /// time of creation and setting its time of last modification to `now`, unless there is
    /// no such group or the display name is changed (beyond ASCII case) to one that another
    /// group has up to ASCII case.
    pub fn update_group_at(
        &mut self,
        id: &str,
        now: Timestamp,
        display_name: String,
        members: Vec<DbGroupMember>,
    ) -> (r: Result<DbGroup, DbError>)
        requires
            old(self).wf(),
        ensures
            final(self).wf(),
            !old(self).groups().contains_key(id@) ==> (r matches Err(DbError::GroupNotFound(s))
                && s@ == id@ && *final(self) == *old(self)),
            old(self).groups().contains_key(id@) && !eq_ignore_ascii_case(
                old(self).groups()[id@].display_name,
                display_name@,
            ) && group_name_taken_by_other(old(self).groups(), display_name@, Some(id@)) ==> (r
                == Err::<DbGroup, DbError>(DbError::GroupAlreadyExists(display_name)) && *final(self)
                == *old(self)),
            r is Ok <==> old(self).groups().contains_key(id@) && !(!eq_ignore_ascii_case(
                old(self).groups()[id@].display_name,
                display_name@,
            ) && group_name_taken_by_other(old(self).groups(), display_name@, Some(id@))),
            r matches Ok(g) ==> {
                &&& g@ == (GroupView {
                    id: id@,
                    display_name: display_name@,
                    members: hydrate_members(members_view(members@), old(self).users()),
                    created: old(self).groups()[id@].created,
                    last_modified: now,
                })
                &&& final(self).groups() == old(self).groups().insert(id@, g@)
                &&& final(self).users() == old(self).users()
                &&& final(self).user_order() == old(self).user_order()
                &&& final(self).group_order() == old(self).group_order()
            },
    {
        let existing = match self.groups.get(id) {
            Some(g) => g,
            None => {
                return Err(DbError::GroupNotFound(owned(id)));
            },
        };
        let created = existing.created;
        if !str_eq_ignore_ascii_case(existing.display_name.as_str(), display_name.as_str())
            && self.find_group_name(display_name.as_str(), Some(id)) {
            return Err(DbError::GroupAlreadyExists(display_name));
        }
        let hydrated = self.hydrate(members);
        let updated = DbGroup {
            id: owned(id),
            display_name,
            members: hydrated,
            created,
            last_modified: now,
        };
        let ghost old_groups = self.groups();
        let stored = updated.clone();
        self.groups.insert(owned(id), stored);
        proof {
            assert(self.groups() =~= old_groups.insert(id@, updated@));
            assert(old_groups.contains_key(id@));
            assert forall|a: Seq<char>, b: Seq<char>|
                #![trigger self.groups()[a], self.groups()[b]]
                self.groups().contains_key(a) && self.groups().contains_key(b) && a != b
                    implies !eq_ignore_ascii_case(
                    self.groups()[a].display_name,
                    self.groups()[b].display_name,
                ) by {
                if a == id@ {
                    if eq_ignore_ascii_case(
                        self.groups()[a].display_name,
                        self.groups()[b].display_name,
                    ) {
                        lemma_eq_ignore_symm(updated@.display_name, old_groups[b].display_name);
                        assert(old_groups.contains_key(b) && Some(id@) != Some(b));
                        if eq_ignore_ascii_case(old_groups[id@].display_name, updated@.display_name) {
                            lemma_eq_ignore_trans(
                                old_groups[id@].display_name,
                                updated@.display_name,
                                old_groups[b].display_name,
                            );
                        }
                    }
                } else if b == id@ {
                    if eq_ignore_ascii_case(
                        self.groups()[a].display_name,
                        self.groups()[b].display_name,
                    ) {
                        assert(old_groups.contains_key(a) && Some(id@) != Some(a));
                        if eq_ignore_ascii_case(old_groups[id@].display_name, updated@.display_name) {
                            lemma_eq_ignore_symm(old_groups[id@].display_name, updated@.display_name);
                            lemma_eq_ignore_trans(
                                old_groups[a].display_name,
                                updated@.display_name,
                                old_groups[id@].display_name,
                            );
                            lemma_eq_ignore_symm(
                                old_groups[a].display_name,
                                old_groups[id@].display_name,
                            );
                        }
                    }
                }
            }
            assert forall|k: Seq<char>| #[trigger]
                self.groups@.contains_key(k) <==> self.group_order().contains(k) by {
                assert(old(self).groups@.contains_key(k) <==> old(self).group_order().contains(k));
            }
        }
        Ok(updated)
    }

    /// Replaces the display name and members of the group with id `id`, as `update_group_at`
    /// does at the current time read from the clock.
    pub fn update_group(&mut self, id: &str, display_name: String, members: Vec<DbGroupMember>) -> (r:
        Result<DbGroup, DbError>)
        requires
            old(self).wf(),
        ensures
            final(self).wf(),
            !old(self).groups().contains_key(id@) ==> (r matches Err(DbError::GroupNotFound(s))
                && s@ == id@ && *final(self) == *old(self)),
            old(self).groups().contains_key(id@) && !eq_ignore_ascii_case(
                old(self).groups()[id@].display_name,
                display_name@,
            ) && group_name_taken_by_other(old(self).groups(), display_name@, Some(id@)) ==> (r
                == Err::<DbGroup, DbError>(DbError::GroupAlreadyExists(display_name)) && *final(self)
                == *old(self)),
            r is Ok <==> old(self).groups().contains_key(id@) && !(!eq_ignore_ascii_case(
                old(self).groups()[id@].display_name,
                display_name@,
            ) && group_name_taken_by_other(old(self).groups(), display_name@, Some(id@))),
            r matches Ok(g) ==> {
                &&& g@ == (GroupView {
                    id: id@,
                    display_name: display_name@,
                    members: hydrate_members(members_view(members@), old(self).users()),
                    created: old(self).groups()[id@].created,
                    last_modified: g@.last_modified,
                })
                &&& final(self).groups() == old(self).groups().insert(id@, g@)
                &&& final(self).users() == old(self).users()
                &&& final(self).user_order() == old(self).user_order()
                &&& final(self).group_order() == old(self).group_order()
            },
    {
        let now = now_utc();
        self.update_group_at(id, now, display_name, members)
    }

    /// Removes the group with id `id`.
    pub fn delete_group(&mut self, id: &str) -> (r: Result<(), DbError>)
        requires
            old(self).wf(),
        ensures
            final(self).wf(),
            r is Err <==> !old(self).groups().contains_key(id@),
            r matches Err(e) ==> (e matches DbError::GroupNotFound(s) && s@ == id@ && *final(self)
                == *old(self)),
            r is Ok ==> {
                &&& final(self).groups() == old(self).groups().remove(id@)
                &&& final(self).users() == old(self).users()
                &&& final(self).user_order() == old(self).user_order()
            },
    {
        if !self.groups.contains_key(id) {
            return Err(DbError::GroupNotFound(owned(id)));
        }
        let ghost old_groups = self.groups();
        self.groups.remove(id);
        let p = position_of(&self.group_ids, id);
        assert(self.group_order()[p as int] == id@);
        let ghost old_order = self.group_order();
        self.group_ids.remove(p);
        proof {
            assert(self.group_order() =~= old_order.remove(p as int));
            assert(self.groups() =~= old_groups.remove(id@));
            assert forall|k: Seq<char>| #[trigger]
                self.groups@.contains_key(k) <==> self.group_order().contains(k) by {
                if self.group_order().contains(k) {
                    let j = choose|j: int|
                        0 <= j < self.group_order().len() && self.group_order()[j] == k;
                    if j < p {
                        assert(old_order[j] == k);
                    } else {
                        assert(old_order[j + 1] == k);
                    }
                }
                if old(self).groups@.contains_key(k) && k != id@ {
                    assert(old_order.contains(k));
                    let j = choose|j: int| 0 <= j < old_order.len() && old_order[j] == k;
                    if j < p {
                        assert(self.group_order()[j] == k);
                    } else {
                        assert(self.group_order()[j - 1] == k);
                    }
                }
            }
            assert forall|a: int, b: int|
                0 <= a < b < self.group_order().len() implies self.group_order()[a]
                != self.group_order()[b] by {
                let oa = if a < p { a } else { a + 1 };
                let ob = if b < p { b } else { b + 1 };
                assert(old_order[oa] != old_order[ob]);
            }
        }
        Ok(())
    }

    /// The groups that have a member referring to `user_id`, in the order the groups were
    /// added.
    pub fn get_user_groups(&self, user_id: &str) -> (r: Vec<DbGroup>)
        requires
            self.wf(),
        ensures
            r@.map_values(|g: DbGroup| g@) == self.ordered_groups().filter(
                |g: GroupView| has_member(g, user_id@),
            ),
    {
        let ghost all = self.ordered_groups();
        let ghost pred = |g: GroupView| has_member(g, user_id@);
        let mut out: Vec<DbGroup> = Vec::new();
        let mut i: usize = 0;
        while i < self.group_ids.len()
            invariant
                self.wf(),
                i <= self.group_ids.len(),
                all == self.ordered_groups(),
                pred == (|g: GroupView| has_member(g, user_id@)),
                out@.map_values(|g: DbGroup| g@) =~= all.take(i as int).filter(pred),
            decreases self.group_ids.len() - i,
        {
            let key = &self.group_ids[i];
            assert(self.group_order()[i as int] == key@);
            assert(self.group_order().contains(key@));
            let g = self.groups.get(key.as_str()).unwrap();
            assert(all[i as int] == g@);
            proof {
                assert(all.take(i + 1) =~= all.take(i as int).push(all[i as int]));
                all.take(i as int).lemma_filter_push(all[i as int], pred);
            }
            let mut found = false;
            let mut j: usize = 0;
            while j < g.members.len()
                invariant
                    j <= g.members.len(),
                    found == exists|l: int| 0 <= l < j && #[trigger] g@.members[l].value == user_id@,
                decreases g.members.len() - j,
            {
                if string_eq_str(&g.members[j].value, user_id) {
                    found = true;
                }
                proof {
                    if found {
                        if g@.members[j as int].value == user_id@ {
                        } else {
                            let l = choose|l: int| 0 <= l < j && #[trigger] g@.members[l].value == user_id@;
                            assert(0 <= l < j + 1 && g@.members[l].value == user_id@);
                        }
                    }
                }
                j = j + 1;
            }
            assert(found == has_member(g@, user_id@));
            if found {
                let c = g.clone();
                out.push(c);
                assert(out@.map_values(|g: DbGroup| g@) =~= all.take(i as int).filter(pred).push(c@));
            }
            i = i + 1;
        }
        assert(all.take(self.group_ids.len() as int) =~= all);
        out
    }

    /// The number of users and the number of groups.
    pub fn get_stats(&self) -> (r: (usize, usize))
        requires
            self.wf(),
        ensures
            r.0 == self.users().len(),
            r.1 == self.groups().len(),
    {
        assert(self.users().dom() =~= self.users@.dom());
        assert(self.groups().dom() =~= self.groups@.dom());
        (self.users.len(), self.groups.len())
    }

    /// Removes every user and every group.
    pub fn clear_all(&mut self)
        requires
            old(self).wf(),
        ensures
            final(self).wf(),
            final(self).users() == Map::<Seq<char>, UserView>::empty(),
            final(self).groups() == Map::<Seq<char>, GroupView>::empty(),
            final(self).user_order() == Seq::<Seq<char>>::empty(),
            final(self).group_order() == Seq::<Seq<char>>::empty(),
    {
        self.users.clear();
        self.groups.clear();
        self.user_ids.clear();
        self.group_ids.clear();
        assert(self.users() =~= Map::<Seq<char>, UserView>::empty());
        assert(self.groups() =~= Map::<Seq<char>, GroupView>::empty());
        assert(self.user_order() =~= Seq::<Seq<char>>::empty());
        assert(self.group_order() =~= Seq::<Seq<char>>::empty());
    }
}

/// The users of `s` are in order of user name.
pub open spec fn users_name_sorted(s: Seq<UserView>) -> bool {
    sorted_by(s, |a: UserView, b: UserView| lex_le(a.user_name, b.user_name))
}

/// The groups of `s` are in order of display name.
pub open spec fn groups_name_sorted(s: Seq<GroupView>) -> bool {
    sorted_by(s, |a: GroupView, b: GroupView| lex_le(a.display_name, b.display_name))
}

/// `s` holds the users of `all`, each as often, in order of user name.
pub open spec fn is_user_listing(all: Seq<UserView>, s: Seq<UserView>) -> bool {
    s.to_multiset() == all.to_multiset() && users_name_sorted(s)
}

/// `s` holds the groups of `all`, each as often, in order of display name.
pub open spec fn is_group_listing(all: Seq<GroupView>, s: Seq<GroupView>) -> bool {
    s.to_multiset() == all.to_multiset() && groups_name_sorted(s)
}

/// The index of the first item that a 1-based `start_index` selects (0 selects from the first).
pub open spec fn page_skip(start_index: usize) -> int {
    if start_index > 0 {
        start_index - 1
    } else {
        0
    }
}

/// The items of `s` from the 1-based position `start_index` on, at most `count` of them.
pub open spec fn page<T>(s: Seq<T>, start_index: usize, count: usize) -> Seq<T> {
    let lo = if page_skip(start_index) < s.len() {
        page_skip(start_index)
    } else {
        s.len() as int
    };
    let hi = if lo + count < s.len() {
        lo + count
    } else {
        s.len() as int
    };
    s.subrange(lo, hi)
}

/// The values of a list of users.
pub open spec fn users_view(v: Seq<DbUser>) -> Seq<UserView> {
    v.map_values(|u: DbUser| u@)
}

/// The values of a list of groups.
pub open spec fn groups_view(v: Seq<DbGroup>) -> Seq<GroupView> {
    v.map_values(|g: DbGroup| g@)
}

proof fn lemma_insert_keeps_multiset<A>(s: Seq<A>, p: int, x: A)
    requires
        0 <= p <= s.len(),
    ensures
        s.insert(p, x).to_multiset() == s.to_multiset().insert(x),
{
    broadcast use vstd::seq_lib::group_to_multiset_ensures;
}

/// Users page: the copies of `v[page]`.
fn page_of_users(v: &Vec<DbUser>, start_index: usize, count: usize) -> (r: Vec<DbUser>)
    ensures
        users_view(r@) == page(users_view(v@), start_index, count),
{
    let n = v.len();
    let lo: usize = if start_index > 0 && start_index - 1 < n {
        start_index - 1
    } else if start_index == 0 {
        0
    } else {
        n
    };
    let hi: usize = if count < n - lo {
        lo + count
    } else {
        n
    };
    let mut r: Vec<DbUser> = Vec::new();
    let mut j: usize = lo;
    while j < hi
        invariant
            lo <= j <= hi <= n,
            n == v.len(),
            r.len() == j - lo,
            users_view(r@) =~= users_view(v@).subrange(lo as int, j as int),
        decreases hi - j,
    {
        let c = v[j].clone();
        r.push(c);
        assert(users_view(r@) =~= users_view(v@).subrange(lo as int, j + 1)) by {
            assert(r@[j - lo]@ == v@[j as int]@);
        }
        j = j + 1;
    }
    r
}

/// Groups page: the copies of `v[page]`.
fn page_of_groups(v: &Vec<DbGroup>, start_index: usize, count: usize) -> (r: Vec<DbGroup>)
    ensures
        groups_view(r@) == page(groups_view(v@), start_index, count),
{
    let n = v.len();
    let lo: usize = if start_index > 0 && start_index - 1 < n {
        start_index - 1
    } else if start_index == 0 {
        0
    } else {
        n
    };
    let hi: usize = if count < n - lo {
        lo + count
    } else {
        n
    };
    let mut r: Vec<DbGroup> = Vec::new();
    let mut j: usize = lo;
    while j < hi
        invariant
            lo <= j <= hi <= n,
            n == v.len(),
            r.len() == j - lo,
            groups_view(r@) =~= groups_view(v@).subrange(lo as int, j as int),
        decreases hi - j,
    {
        let c = v[j].clone();
        r.push(c);
        assert(groups_view(r@) =~= groups_view(v@).subrange(lo as int, j + 1)) by {
            assert(r@[j - lo]@ == v@[j as int]@);
        }
        j = j + 1;
    }
    r
}

impl Database {
    /// Copies of all users, in order of user name.
    fn users_by_name(&self) -> (r: Vec<DbUser>)
        requires
            self.wf(),
        ensures
            is_user_listing(self.ordered_users(), users_view(r@)),
    {
        let ghost all = self.ordered_users();
        let ghost le = |a: UserView, b: UserView| lex_le(a.user_name, b.user_name);
        let mut sorted: Vec<DbUser> = Vec::new();
        let mut i: usize = 0;
        assert(users_view(sorted@) =~= all.take(0));
        while i < self.user_ids.len()
            invariant
                self.wf(),
                i <= self.user_ids.len(),
                all == self.ordered_users(),
                all.len() == self.user_ids.len(),
                le == (|a: UserView, b: UserView| lex_le(a.user_name, b.user_name)),
                users_view(sorted@).to_multiset() == all.take(i as int).to_multiset(),
                sorted_by(users_view(sorted@), le),
            decreases self.user_ids.len() - i,
        {
            let key = &self.user_ids[i];
            assert(self.user_order()[i as int] == key@);
            assert(self.user_order().contains(key@));
            let x = self.users.get(key.as_str()).unwrap().clone();
            assert(all[i as int] == x@);
            let ghost sv = users_view(sorted@);
            let mut p: usize = 0;
            while p < sorted.len() && str_lt(sorted[p].user_name.as_str(), x.user_name.as_str())
                invariant
                    p <= sorted.len(),
                    sv == users_view(sorted@),
                    forall|q: int| 0 <= q < p ==> lex_lt(#[trigger] sv[q].user_name, x@.user_name),
                decreases sorted.len() - p,
            {
                p = p + 1;
            }
            proof {
                if p < sorted.len() {
                    if sv[p as int].user_name != x@.user_name {
                        lemma_lex_lt_total(sv[p as int].user_name, x@.user_name);
                    }
                    assert(lex_le(x@.user_name, sv[p as int].user_name));
                }
            }
            let ghost xv = x@;
            sorted.insert(p, x);
            proof {
                let nv = users_view(sorted@);
                assert(nv =~= sv.insert(p as int, xv));
                lemma_insert_keeps_multiset(sv, p as int, xv);
                assert(all.take(i + 1) =~= all.take(i as int).push(all[i as int]));
                vstd::seq_lib::to_multiset_build(all.take(i as int), all[i as int]);
                assert forall|a: int, b: int| 0 <= a < b < nv.len() implies #[trigger] le(
                    nv[a],
                    nv[b],
                ) by {
                    if b < p {
                        assert(le(sv[a], sv[b]));
                    } else if b == p {
                        assert(lex_lt(sv[a].user_name, xv.user_name));
                    } else if a < p {
                        assert(le(sv[a], sv[b - 1]));
                        if p < sv.len() {
                            assert(lex_lt(sv[a].user_name, xv.user_name));
                            if b - 1 > p {
                                assert(le(sv[p as int], sv[b - 1]));
                                lemma_lex_le_trans(xv.user_name, sv[p as int].user_name, sv[b - 1].user_name);
                            }
                        }
                    } else if a == p {
                        if b - 1 > p {
                            assert(le(sv[p as int], sv[b - 1]));
                            lemma_lex_le_trans(xv.user_name, sv[p as int].user_name, sv[b - 1].user_name);
                        }
                    } else {
                        assert(le(sv[a - 1], sv[b - 1]));
                    }
                }
            }
            i = i + 1;
        }
        assert(all.take(self.user_ids.len() as int) =~= all);
        sorted
    }

    /// Copies of all groups, in order of display name.
    fn groups_by_name(&self) -> (r: Vec<DbGroup>)
        requires
            self.wf(),
        ensures
            is_group_listing(self.ordered_groups(), groups_view(r@)),
    {
        let ghost all = self.ordered_groups();
        let ghost le = |a: GroupView, b: GroupView| lex_le(a.display_name, b.display_name);
        let mut sorted: Vec<DbGroup> = Vec::new();
        let mut i: usize = 0;
        assert(groups_view(sorted@) =~= all.take(0));
        while i < self.group_ids.len()
            invariant
                self.wf(),
                i <= self.group_ids.len(),
                all == self.ordered_groups(),
                all.len() == self.group_ids.len(),
                le == (|a: GroupView, b: GroupView| lex_le(a.display_name, b.display_name)),
                groups_view(sorted@).to_multiset() == all.take(i as int).to_multiset(),
                sorted_by(groups_view(sorted@), le),
            decreases self.group_ids.len() - i,
        {
            let key = &self.group_ids[i];
            assert(self.group_order()[i as int] == key@);
            assert(self.group_order().contains(key@));
            let x = self.groups.get(key.as_str()).unwrap().clone();
            assert(all[i as int] == x@);
            let ghost sv = groups_view(sorted@);
            let mut p: usize = 0;
            while p < sorted.len() && str_lt(
                sorted[p].display_name.as_str(),
                x.display_name.as_str(),
            )
                invariant
                    p <= sorted.len(),
                    sv == groups_view(sorted@),
                    forall|q: int|
                        0 <= q < p ==> lex_lt(#[trigger] sv[q].display_name, x@.display_name),
                decreases sorted.len() - p,
            {
                p = p + 1;
            }
            proof {
                if p < sorted.len() {
                    if sv[p as int].display_name != x@.display_name {
                        lemma_lex_lt_total(sv[p as int].display_name, x@.display_name);
                    }
                    assert(lex_le(x@.display_name, sv[p as int].display_name));
                }
            }
            let ghost xv = x@;
            sorted.insert(p, x);
            proof {
                let nv = groups_view(sorted@);
                assert(nv =~= sv.insert(p as int, xv));
                lemma_insert_keeps_multiset(sv, p as int, xv);
                assert(all.take(i + 1) =~= all.take(i as int).push(all[i as int]));
                vstd::seq_lib::to_multiset_build(all.take(i as int), all[i as int]);
                assert forall|a: int, b: int| 0 <= a < b < nv.len() implies #[trigger] le(
                    nv[a],
                    nv[b],
                ) by {
                    if b < p {
                        assert(le(sv[a], sv[b]));
                    } else if b == p {
                        assert(lex_lt(sv[a].display_name, xv.display_name));
                    } else if a < p {
                        assert(le(sv[a], sv[b - 1]));
                        if p < sv.len() {
                            assert(lex_lt(sv[a].display_name, xv.display_name));
                            if b - 1 > p {
                                assert(le(sv[p as int], sv[b - 1]));
                                lemma_lex_le_trans(
                                    xv.display_name,
                                    sv[p as int].display_name,
                                    sv[b - 1].display_name,
                                );
                            }
                        }
                    } else if a == p {
                        if b - 1 > p {
                            assert(le(sv[p as int], sv[b - 1]));
                            lemma_lex_le_trans(
                                xv.display_name,
                                sv[p as int].display_name,
                                sv[b - 1].display_name,
                            );
                        }
                    } else {
                        assert(le(sv[a - 1], sv[b - 1]));
                    }
                }
            }
            i = i + 1;
        }
        assert(all.take(self.group_ids.len() as int) =~= all);
        sorted
    }

    /// One page of the users selected by `filter`, in order of user name, and how many
    /// users the filter selects in all. `start_index` counts from 1 (0 acts as 1).
    pub fn list_users(&self, filter: Option<String>, start_index: usize, count: usize) -> (r: (
        Vec<DbUser>,
        usize,
    ))
        requires
            self.wf(),
        ensures
            exists|all: Seq<UserView>|
                #![trigger is_user_listing(self.ordered_users(), all)]
                is_user_listing(self.ordered_users(), all) && r.1 == all.filter(
                    |u: UserView| user_passes(filter_of(filter), u),
                ).len() && users_view(r.0@) == page(
                    all.filter(|u: UserView| user_passes(filter_of(filter), u)),
                    start_index,
                    count,
                ),
    {
        let pf: Option<Filter> = match &filter {
            Some(s) => parse_scim_filter(s.as_str()),
            None => None,
        };
        assert(opt_filter_view(pf) == filter_of(filter));
        let sorted = self.users_by_name();
        let ghost all = users_view(sorted@);
        let ghost pred = |u: UserView| user_passes(filter_of(filter), u);
        let mut matched: Vec<DbUser> = Vec::new();
        let mut i: usize = 0;
        while i < sorted.len()
            invariant
                i <= sorted.len(),
                all == users_view(sorted@),
                opt_filter_view(pf) == filter_of(filter),
                pred == (|u: UserView| user_passes(filter_of(filter), u)),
                users_view(matched@) =~= all.take(i as int).filter(pred),
            decreases sorted.len() - i,
        {
            proof {
                assert(all.take(i + 1) =~= all.take(i as int).push(all[i as int]));
                all.take(i as int).lemma_filter_push(all[i as int], pred);
            }
            if user_matches(&pf, &sorted[i]) {
                let c = sorted[i].clone();
                matched.push(c);
                assert(users_view(matched@) =~= all.take(i as int).filter(pred).push(c@));
            }
            i = i + 1;
        }
        assert(all.take(sorted.len() as int) =~= all);
        let total = matched.len();
        let paged = page_of_users(&matched, start_index, count);
        (paged, total)
    }

    /// One page of the groups selected by `filter`, in order of display name, and how many
    /// groups the filter selects in all. `start_index` counts from 1 (0 acts as 1).
    pub fn list_groups(&self, filter: Option<String>, start_index: usize, count: usize) -> (r: (
        Vec<DbGroup>,
        usize,
    ))
        requires
            self.wf(),
        ensures
            exists|all: Seq<GroupView>|
                #![trigger is_group_listing(self.ordered_groups(), all)]
                is_group_listing(self.ordered_groups(), all) && r.1 == all.filter(
                    |g: GroupView| group_passes(filter_of(filter), g),
                ).len() && groups_view(r.0@) == page(
                    all.filter(|g: GroupView| group_passes(filter_of(filter), g)),
                    start_index,
                    count,
                ),
    {
        let pf: Option<Filter> = match &filter {
            Some(s) => parse_scim_filter(s.as_str()),
            None => None,
        };
        assert(opt_filter_view(pf) == filter_of(filter));
        let sorted = self.groups_by_name();
        let ghost all = groups_view(sorted@);
        let ghost pred = |g: GroupView| group_passes(filter_of(filter), g);
        let mut matched: Vec<DbGroup> = Vec::new();
        let mut i: usize = 0;
        while i < sorted.len()
            invariant
                i <= sorted.len(),
                all == groups_view(sorted@),
                opt_filter_view(pf) == filter_of(filter),
                pred == (|g: GroupView| group_passes(filter_of(filter), g)),
                groups_view(matched@) =~= all.take(i as int).filter(pred),
            decreases sorted.len() - i,
        {
            proof {
                assert(all.take(i + 1) =~= all.take(i as int).push(all[i as int]));
                all.take(i as int).lemma_filter_push(all[i as int], pred);
            }
            if group_matches(&pf, &sorted[i]) {
                let c = sorted[i].clone();
                matched.push(c);
                assert(groups_view(matched@) =~= all.take(i as int).filter(pred).push(c@));
            }
            i = i + 1;
        }
        assert(all.take(sorted.len() as int) =~= all);
        let total = matched.len();
        let paged = page_of_groups(&matched, start_index, count);
        (paged, total)
    }
}

/// Where `id` stands in `ids`.
fn position_of(ids: &Vec<String>, id: &str) -> (p: usize)
    requires
        ids@.map_values(|s: String| s@).contains(id@),
    ensures
        p < ids.len(),
        ids@[p as int]@ == id@,
{
    let ghost order = ids@.map_values(|s: String| s@);
    let mut p: usize = 0;
    while p < ids.len()
        invariant
            p <= ids.len(),
            order == ids@.map_values(|s: String| s@),
            order.contains(id@),
            forall|j: int| 0 <= j < p ==> #[trigger] order[j] != id@,
        decreases ids.len() - p,
    {
        if string_eq_str(&ids[p], id) {
            return p;
        }
        p = p + 1;
    }
    proof {
        let j = choose|j: int| 0 <= j < order.len() && order[j] == id@;
        assert(order[j] != id@);
    }
    0
}

/// `String == &str`.
pub fn string_eq_str(a: &String, b: &str) -> (r: bool)
    ensures
        r == (a@ == b@),
{
    let o = owned(b);
    *a == o
}

} // verus!

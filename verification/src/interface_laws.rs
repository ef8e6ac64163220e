//! Properties of what requests select and carry: which users and groups a filter selects,
//! which groups a user belongs to, and how the name parts of a request reach the store.
//! Each is stated over plain sequences, apart from the spec functions it is about.
use vstd::prelude::*;
use crate::client::formatted_name_of;
use crate::database::{
    has_member, hydrate_member, member_display_of, page, GroupView, MemberView, UserView,
};
use crate::filter::{filter_of, group_passes, spec_parse_scim_filter, user_passes, FilterSpec};
use crate::grpc_server::{request_user, rpc_count, rpc_filter, rpc_start};
use crate::http_server::{payload_user, query_count, query_start, ScimQuery};
use crate::proto::{Email, Name};
use crate::scim_schemas::ScimUser;
use crate::clock::Timestamp;
use crate::text::{
    ascii_lower, ascii_lower_seq, contains_seq, eq_ignore_ascii_case, lowercase,
};

verus! {

/// Two texts agree up to ASCII case exactly when their ASCII lowercase forms are equal.
pub proof fn law_ascii_case_agreement(a: Seq<char>, b: Seq<char>)
    ensures
        eq_ignore_ascii_case(a, b) <==> ascii_lower_seq(a) == ascii_lower_seq(b),
{
    if ascii_lower_seq(a) == ascii_lower_seq(b) {
        assert(a.len() == ascii_lower_seq(a).len());
        assert(b.len() == ascii_lower_seq(b).len());
        assert forall|i: int| 0 <= i < a.len() implies #[trigger] ascii_lower(a[i]) == ascii_lower(
            b[i],
        ) by {
            assert(ascii_lower_seq(a)[i] == ascii_lower(a[i]));
            assert(ascii_lower_seq(b)[i] == ascii_lower(b[i]));
        }
    }
    if eq_ignore_ascii_case(a, b) {
        assert(ascii_lower_seq(a) =~= ascii_lower_seq(b));
    }
}

/// `needle` occurs at some position of `hay` exactly when `hay` is some text, then
/// `needle`, then some more text.
proof fn lemma_contains_as_infix(hay: Seq<char>, needle: Seq<char>)
    ensures
        contains_seq(hay, needle) <==> exists|p: Seq<char>, q: Seq<char>|
            #![trigger p + needle + q]
            hay == p + needle + q,
{
    if contains_seq(hay, needle) {
        let i = choose|i: int|
            0 <= i && i + needle.len() <= hay.len() && #[trigger] hay.subrange(
                i,
                i + needle.len(),
            ) == needle;
        let p = hay.take(i);
        let q = hay.skip(i + needle.len());
        assert(hay =~= p + needle + q);
    }
    if exists|p: Seq<char>, q: Seq<char>| #![trigger p + needle + q] hay == p + needle + q {
        let (p, q) = choose|p: Seq<char>, q: Seq<char>|
            #![trigger p + needle + q]
            hay == p + needle + q;
        let i = p.len() as int;
        assert(hay.subrange(i, i + needle.len()) =~= needle);
    }
}

/// An attribute name that is `name` (given in lower case) up to ASCII case.
pub open spec fn names_attr(attr: Seq<char>, name: Seq<char>) -> bool {
    ascii_lower_seq(attr) == name
}

/// A filter on `userName` selects users by their user name: `eq` exactly when the name
/// and the value agree up to ASCII case, and `co` exactly when the lowercase value occurs
/// at some position (not only the start) of the lowercase user name.
pub proof fn law_user_name_filters(attr: Seq<char>, val: Seq<char>, u: UserView)
    requires
        names_attr(attr, seq!['u', 's', 'e', 'r', 'n', 'a', 'm', 'e']),
    ensures
        user_passes(Some(FilterSpec::Eq(attr, val)), u) <==> ascii_lower_seq(u.user_name)
            == ascii_lower_seq(val),
        user_passes(Some(FilterSpec::Co(attr, val)), u) <==> exists|p: Seq<char>, q: Seq<char>|
            #![trigger p + lowercase(val) + q]
            lowercase(u.user_name) == p + lowercase(val) + q,
{
    law_ascii_case_agreement(attr, seq!['u', 's', 'e', 'r', 'n', 'a', 'm', 'e']);
    assert(ascii_lower_seq(seq!['u', 's', 'e', 'r', 'n', 'a', 'm', 'e']) =~= seq![
        'u',
        's',
        'e',
        'r',
        'n',
        'a',
        'm',
        'e',
    ]);
    law_ascii_case_agreement(u.user_name, val);
    lemma_contains_as_infix(lowercase(u.user_name), lowercase(val));
}

/// A filter `externalId eq v` selects exactly the users whose external id (the empty text
/// when they have none) agrees with `v` up to ASCII case.
pub proof fn law_external_id_filter(attr: Seq<char>, val: Seq<char>, u: UserView)
    requires
        names_attr(attr, seq!['e', 'x', 't', 'e', 'r', 'n', 'a', 'l', 'i', 'd']),
    ensures
        user_passes(Some(FilterSpec::Eq(attr, val)), u) <==> ascii_lower_seq(
            match u.external_id {
                Some(e) => e,
                None => seq![],
            },
        ) == ascii_lower_seq(val),
{
    let name = seq!['e', 'x', 't', 'e', 'r', 'n', 'a', 'l', 'i', 'd'];
    law_ascii_case_agreement(attr, name);
    assert(ascii_lower_seq(name) =~= name);
    let un = seq!['u', 's', 'e', 'r', 'n', 'a', 'm', 'e'];
    law_ascii_case_agreement(attr, un);
    assert(ascii_lower_seq(un) =~= un);
    assert(ascii_lower_seq(attr) != ascii_lower_seq(un)) by {
        assert(ascii_lower_seq(attr)[0] != ascii_lower_seq(un)[0]);
    }
    law_ascii_case_agreement(
        match u.external_id {
            Some(e) => e,
            None => seq![],
        },
        val,
    );
}

/// A filter on `displayName` selects groups by their display name: `eq` exactly when the
/// name and the value agree up to ASCII case, and `co` exactly when the lowercase value
/// occurs at some position of the lowercase display name.
pub proof fn law_display_name_filters(attr: Seq<char>, val: Seq<char>, g: GroupView)
    requires
        names_attr(attr, seq!['d', 'i', 's', 'p', 'l', 'a', 'y', 'n', 'a', 'm', 'e']),
    ensures
        group_passes(Some(FilterSpec::Eq(attr, val)), g) <==> ascii_lower_seq(g.display_name)
            == ascii_lower_seq(val),
        group_passes(Some(FilterSpec::Co(attr, val)), g) <==> exists|p: Seq<char>, q: Seq<char>|
            #![trigger p + lowercase(val) + q]
            lowercase(g.display_name) == p + lowercase(val) + q,
{
    let name = seq!['d', 'i', 's', 'p', 'l', 'a', 'y', 'n', 'a', 'm', 'e'];
    law_ascii_case_agreement(attr, name);
    assert(ascii_lower_seq(name) =~= name);
    law_ascii_case_agreement(g.display_name, val);
    lemma_contains_as_infix(lowercase(g.display_name), lowercase(val));
}

/// No filter selects every user and every group.
pub proof fn law_no_filter_selects_all(u: UserView, g: GroupView)
    ensures
        user_passes(None, u),
        group_passes(None, g),
{
}

/// The filter text of a list request reaches the store: the filter applied is the parse
/// of that text, and any non-empty text is passed on as it is (the empty text parses to no
/// filter).
pub proof fn law_rpc_filter_reaches_store(f: String)
    ensures
        filter_of(rpc_filter(f)) == spec_parse_scim_filter(f@),
        f@.len() > 0 ==> rpc_filter(f) == Some(f),
{
}

/// A group counts a user as a member when any of its members, at any position, refers to
/// the user, and only then.
pub proof fn law_membership_at_any_position(g: GroupView, uid: Seq<char>)
    ensures
        has_member(g, uid) <==> g.members.map_values(|m: MemberView| m.value).contains(uid),
        forall|i: int|
            0 <= i < g.members.len() && #[trigger] g.members[i].value == uid ==> has_member(
                g,
                uid,
            ),
{
    let vals = g.members.map_values(|m: MemberView| m.value);
    if has_member(g, uid) {
        let i = choose|i: int| 0 <= i < g.members.len() && #[trigger] g.members[i].value == uid;
        assert(vals[i] == uid);
    }
    if vals.contains(uid) {
        let i = choose|i: int| 0 <= i < vals.len() && vals[i] == uid;
        assert(g.members[i].value == uid);
    }
}

/// The name parts of a SCIM user payload are stored as the same parts: the given name as
/// the given name, the family name as the family name, the formatted name as the formatted
/// name; with no name in the payload, none is stored.
pub proof fn law_payload_name_parts(
    p: ScimUser,
    id: Seq<char>,
    created: Timestamp,
    last_modified: Timestamp,
)
    ensures
        ({
            let u = payload_user(p, id, created, last_modified);
            match p.name {
                Some(n) => {
                    &&& (n.given_name matches Some(x) ==> u.given_name == Some(x@))
                    &&& (n.given_name is None ==> u.given_name is None)
                    &&& (n.family_name matches Some(x) ==> u.family_name == Some(x@))
                    &&& (n.family_name is None ==> u.family_name is None)
                    &&& (n.formatted matches Some(x) ==> u.formatted_name == Some(x@))
                    &&& (n.formatted is None ==> u.formatted_name is None)
                },
                None => u.given_name is None && u.family_name is None && u.formatted_name is None,
            }
        }),
{
}

/// The name parts of a control request are stored as the same parts (empty when the
/// request has no name).
pub proof fn law_request_name_parts(
    external_id: String,
    user_name: String,
    name: Option<Name>,
    display_name: String,
    emails: Seq<Email>,
    active: bool,
    id: Seq<char>,
    created: Timestamp,
    last_modified: Timestamp,
)
    ensures
        ({
            let u = request_user(
                external_id,
                user_name,
                name,
                display_name,
                emails,
                active,
                id,
                created,
                last_modified,
            );
            match name {
                Some(n) => u.given_name == Some(n.given_name@) && u.family_name == Some(
                    n.family_name@,
                ) && u.formatted_name == Some(n.formatted@),
                None => u.given_name == Some(Seq::<char>::empty()) && u.family_name == Some(
                    Seq::<char>::empty(),
                ) && u.formatted_name == Some(Seq::<char>::empty()),
            }
        }),
{
}

/// The formatted name a client command sends is made of the name parts it was given: the
/// given name, then one space, then the family name, where both are present; the one part
/// alone where only one is; and nothing where neither is.
pub proof fn law_formatted_name_parts(given: String, family: String)
    ensures
        formatted_name_of(Some(given), Some(family)) == given@ + seq![' '] + family@,
        formatted_name_of(Some(given), None) == given@,
        formatted_name_of(None, Some(family)) == family@,
        formatted_name_of(None, None).len() == 0,
{
    reveal_strlit(" ");
    assert(" "@ =~= seq![' ']);
}

/// A page is the window of the sequence that starts at the 1-based position `start_index`
/// (position 0 counts as 1) and holds `count` items, cut off at the end of the sequence.
pub proof fn law_page_window<T>(s: Seq<T>, start_index: usize, count: usize)
    ensures
        ({
            let first: int = if start_index == 0 {
                0
            } else {
                start_index - 1
            };
            let lo: int = if first < s.len() {
                first
            } else {
                s.len() as int
            };
            let hi: int = if first + count < s.len() {
                first + count
            } else {
                s.len() as int
            };
            page(s, start_index, count) == s.subrange(lo, hi)
        }),
{
}

/// A control list request asks for the position and page size it names when they are
/// positive, and for position 1 and 20 items otherwise.
pub proof fn law_rpc_paging(start_index: i32, count: i32)
    ensures
        start_index > 0 ==> rpc_start(start_index) as int == start_index as int,
        start_index <= 0 ==> rpc_start(start_index) == 1,
        count > 0 ==> rpc_count(count) as int == count as int,
        count <= 0 ==> rpc_count(count) == 20,
{
}

/// A SCIM list query asks for the position and page size it names, and for position 1 and
/// 20 items where it names none.
pub proof fn law_query_paging(q: ScimQuery)
    ensures
        q.start_index matches Some(s) ==> query_start(q) == s,
        q.start_index is None ==> query_start(q) == 1,
        q.count matches Some(c) ==> query_count(q) == c,
        q.count is None ==> query_count(q) == 20,
{
}

/// A member is shown by the user's display name where the user has one, else by its user
/// name.
pub proof fn law_member_display(u: UserView)
    ensures
        u.display_name matches Some(d) ==> member_display_of(u) == d,
        u.display_name is None ==> member_display_of(u) == u.user_name,
{
}

/// Filling in a member keeps what it refers to and any name it already shows; a member
/// without a shown name gets that of the user it refers to, if the user is stored, and
/// stays without one otherwise.
pub proof fn law_member_hydration(m: MemberView, users: Map<Seq<char>, UserView>)
    ensures
        hydrate_member(m, users).value == m.value,
        m.display is Some ==> hydrate_member(m, users).display == m.display,
        m.display is None && users.contains_key(m.value) ==> hydrate_member(m, users).display
            == Some(member_display_of(users[m.value])),
        m.display is None && !users.contains_key(m.value) ==> hydrate_member(
            m,
            users,
        ).display is None,
{
}

} // verus!

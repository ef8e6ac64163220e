//! Properties of the store that span its operations, stated over the same views that the
//! operations' contracts use, and proved.
use vstd::prelude::*;
use crate::clock::Timestamp;
use crate::database::{
    group_name_taken, group_without_member, has_member, is_group_listing, is_user_listing, page,
    page_skip, refresh_member_names, user_name_taken, Database, GroupView, MemberView, UserView,
};
use crate::text::{eq_ignore_ascii_case, lemma_lex_lt_asym, lex_le, lex_lt};

verus! {

broadcast use vstd::seq_lib::group_to_multiset_ensures;

/// What `create_user` or `update_user` stored under an id, `get_user` gives back for it.
pub proof fn law_user_read_after_write(before: Database, after: Database, u: UserView)
    requires
        after.users() == before.users().insert(u.id, u),
    ensures
        after.users().contains_key(u.id),
        after.users()[u.id] == u,
{
}

/// What `create_group` or `update_group` stored under an id, `get_group` gives back for it.
pub proof fn law_group_read_after_write(before: Database, after: Database, g: GroupView)
    requires
        after.groups() == before.groups().insert(g.id, g),
    ensures
        after.groups().contains_key(g.id),
        after.groups()[g.id] == g,
{
}

/// After `delete_user` (or `delete_group`) succeeds, the id is no longer found, and every
/// other id is found as before.
pub proof fn law_deleted_id_not_found<V>(
    before: Map<Seq<char>, V>,
    after: Map<Seq<char>, V>,
    id: Seq<char>,
)
    requires
        after == before.remove(id),
    ensures
        !after.contains_key(id),
        forall|k: Seq<char>|
            k != id ==> (#[trigger] after.contains_key(k) <==> before.contains_key(k)),
        forall|k: Seq<char>| k != id && before.contains_key(k) ==> #[trigger] after[k] == before[k],
{
}

/// In a consistent store no two users have user names that agree up to ASCII case.
pub proof fn law_user_names_unique(db: Database, a: Seq<char>, b: Seq<char>)
    requires
        db.wf(),
        db.users().contains_key(a),
        db.users().contains_key(b),
        a != b,
    ensures
        !eq_ignore_ascii_case(db.users()[a].user_name, db.users()[b].user_name),
        db.users()[a].user_name != db.users()[b].user_name,
{
    assert(!eq_ignore_ascii_case(db.users()[a].user_name, db.users()[b].user_name));
}

/// In a consistent store no two groups have display names that agree up to ASCII case.
pub proof fn law_group_names_unique(db: Database, a: Seq<char>, b: Seq<char>)
    requires
        db.wf(),
        db.groups().contains_key(a),
        db.groups().contains_key(b),
        a != b,
    ensures
        !eq_ignore_ascii_case(db.groups()[a].display_name, db.groups()[b].display_name),
        db.groups()[a].display_name != db.groups()[b].display_name,
{
    assert(!eq_ignore_ascii_case(db.groups()[a].display_name, db.groups()[b].display_name));
}

/// A user name that agrees, up to ASCII case, with that of a stored user is taken, so
/// `create_user` refuses it with `UserAlreadyExists`.
pub proof fn law_taken_user_name_refused(db: Database, k: Seq<char>, name: Seq<char>)
    requires
        db.users().contains_key(k),
        eq_ignore_ascii_case(db.users()[k].user_name, name),
    ensures
        user_name_taken(db.users(), name),
{
    assert(db.users().contains_key(k) && None::<Seq<char>> != Some(k) && eq_ignore_ascii_case(
        db.users()[k].user_name,
        name,
    ));
}

/// A display name that agrees, up to ASCII case, with that of a stored group is taken, so
/// `create_group` refuses it with `GroupAlreadyExists`.
pub proof fn law_taken_group_name_refused(db: Database, k: Seq<char>, name: Seq<char>)
    requires
        db.groups().contains_key(k),
        eq_ignore_ascii_case(db.groups()[k].display_name, name),
    ensures
        group_name_taken(db.groups(), name),
{
    assert(db.groups().contains_key(k) && None::<Seq<char>> != Some(k) && eq_ignore_ascii_case(
        db.groups()[k].display_name,
        name,
    ));
}

/// After `delete_user(id)`, no group has a member referring to `id`, and every other member
/// of every group is still there, in the same order.
pub proof fn law_no_membership_after_user_delete(g: GroupView, id: Seq<char>, when: Timestamp)
    ensures
        !has_member(group_without_member(g, id, when), id),
        forall|m: MemberView|
            g.members.contains(m) && m.value != id ==> #[trigger] group_without_member(
                g,
                id,
                when,
            ).members.contains(m),
        group_without_member(g, id, when).members.len() <= g.members.len(),
{
    let pred = |m: MemberView| m.value != id;
    let ms = group_without_member(g, id, when).members;
    assert(ms == g.members.filter(pred));
    g.members.lemma_filter_len(pred);
    assert forall|i: int| 0 <= i < ms.len() implies #[trigger] ms[i].value != id by {
        g.members.lemma_filter_pred(pred, i);
    }
    assert forall|m: MemberView| g.members.contains(m) && m.value != id implies #[trigger] group_without_member(
        g,
        id,
        when,
    ).members.contains(m) by {
        g.members.lemma_filter_contains_rev(pred, m);
    }
}

/// After `update_user` of user `uid`, every member that refers to `uid` shows `disp` (the
/// user's display name, else its user name); every other member, and the group's other
/// fields, are unchanged.
pub proof fn law_member_names_refreshed(g: GroupView, uid: Seq<char>, disp: Seq<char>)
    ensures
        refresh_member_names(g, uid, disp).members.len() == g.members.len(),
        forall|i: int|
            0 <= i < g.members.len() ==> {
                let m = #[trigger] refresh_member_names(g, uid, disp).members[i];
                &&& m.value == g.members[i].value
                &&& m.value == uid ==> m.display == Some(disp)
                &&& m.value != uid ==> m == g.members[i]
            },
        refresh_member_names(g, uid, disp).id == g.id,
        refresh_member_names(g, uid, disp).display_name == g.display_name,
        refresh_member_names(g, uid, disp).last_modified == g.last_modified,
{
}

proof fn lemma_lex_le_antisym(a: Seq<char>, b: Seq<char>)
    requires
        lex_le(a, b),
        lex_le(b, a),
    ensures
        a == b,
{
    if a != b {
        assert(lex_lt(a, b));
        lemma_lex_lt_asym(a, b);
    }
}

proof fn lemma_distinct_keys_no_duplicates<T>(s: Seq<T>, key: spec_fn(T) -> Seq<char>)
    requires
        forall|i: int, j: int|
            #![trigger s[i], s[j]]
            0 <= i < s.len() && 0 <= j < s.len() && i != j ==> key(s[i]) != key(s[j]),
    ensures
        s.no_duplicates(),
{
    assert forall|i: int, j: int| 0 <= i < s.len() && 0 <= j < s.len() && i != j implies s[i]
        != s[j] by {
        assert(key(s[i]) != key(s[j]));
    }
}

proof fn lemma_distinct_keys_transfer<T>(all: Seq<T>, s: Seq<T>, key: spec_fn(T) -> Seq<char>)
    requires
        s.to_multiset() == all.to_multiset(),
        forall|i: int, j: int|
            #![trigger all[i], all[j]]
            0 <= i < all.len() && 0 <= j < all.len() && i != j ==> key(all[i]) != key(all[j]),
    ensures
        forall|i: int, j: int|
            #![trigger s[i], s[j]]
            0 <= i < s.len() && 0 <= j < s.len() && i != j ==> key(s[i]) != key(s[j]),
{
    lemma_distinct_keys_no_duplicates(all, key);
    all.lemma_multiset_has_no_duplicates();
    s.lemma_multiset_has_no_duplicates_conv();
    assert forall|i: int, j: int|
        #![trigger s[i], s[j]]
        0 <= i < s.len() && 0 <= j < s.len() && i != j implies key(s[i]) != key(s[j]) by {
        assert(s.contains(s[i]));
        assert(s.contains(s[j]));
        assert(s.to_multiset().count(s[i]) > 0);
        assert(s.to_multiset().count(s[j]) > 0);
        assert(all.to_multiset().count(s[i]) > 0);
        assert(all.to_multiset().count(s[j]) > 0);
        assert(all.contains(s[i]));
        assert(all.contains(s[j]));
        let a = choose|a: int| 0 <= a < all.len() && all[a] == s[i];
        let b = choose|b: int| 0 <= b < all.len() && all[b] == s[j];
    }
}

proof fn lemma_sorted_distinct_unique<T>(s1: Seq<T>, s2: Seq<T>, key: spec_fn(T) -> Seq<char>)
    requires
        s1.to_multiset() == s2.to_multiset(),
        forall|i: int, j: int|
            #![trigger s1[i], s1[j]]
            0 <= i < j < s1.len() ==> lex_le(key(s1[i]), key(s1[j])),
        forall|i: int, j: int|
            #![trigger s2[i], s2[j]]
            0 <= i < j < s2.len() ==> lex_le(key(s2[i]), key(s2[j])),
        forall|i: int, j: int|
            #![trigger s1[i], s1[j]]
            0 <= i < s1.len() && 0 <= j < s1.len() && i != j ==> key(s1[i]) != key(s1[j]),
    ensures
        s1 == s2,
    decreases s1.len(),
{
    assert(s2.len() == s2.to_multiset().len());
    assert(s1.len() == s1.to_multiset().len());
    if s1.len() == 0 {
        assert(s1 =~= s2);
    } else {
        let x = s1[0];
        let y = s2[0];
        assert(s1.contains(y)) by {
            assert(s2.contains(y));
            assert(s2.to_multiset().count(y) > 0);
            assert(s1.to_multiset().count(y) > 0);
        }
        assert(s2.contains(x)) by {
            assert(s1.contains(x));
            assert(s1.to_multiset().count(x) > 0);
            assert(s2.to_multiset().count(x) > 0);
        }
        let j = choose|j: int| 0 <= j < s1.len() && s1[j] == y;
        let i = choose|i: int| 0 <= i < s2.len() && s2[i] == x;
        if j > 0 {
            assert(lex_le(key(s1[0]), key(s1[j])));
        }
        if i > 0 {
            assert(lex_le(key(s2[0]), key(s2[i])));
        }
        lemma_lex_le_antisym(key(x), key(y));
        assert(j == 0);
        assert(x == y);
        let t1 = s1.drop_first();
        let t2 = s2.drop_first();
        assert(t1.to_multiset() =~= s1.to_multiset().remove(x)) by {
            assert(s1.remove(0) =~= t1);
        }
        assert(t2.to_multiset() =~= s2.to_multiset().remove(y)) by {
            assert(s2.remove(0) =~= t2);
        }
        assert forall|a: int, b: int|
            #![trigger t1[a], t1[b]]
            0 <= a < b < t1.len() implies lex_le(key(t1[a]), key(t1[b])) by {
            assert(lex_le(key(s1[a + 1]), key(s1[b + 1])));
        }
        assert forall|a: int, b: int|
            #![trigger t2[a], t2[b]]
            0 <= a < b < t2.len() implies lex_le(key(t2[a]), key(t2[b])) by {
            assert(lex_le(key(s2[a + 1]), key(s2[b + 1])));
        }
        assert forall|a: int, b: int|
            #![trigger t1[a], t1[b]]
            0 <= a < t1.len() && 0 <= b < t1.len() && a != b implies key(t1[a]) != key(t1[b]) by {
            assert(key(s1[a + 1]) != key(s1[b + 1]));
        }
        lemma_sorted_distinct_unique(t1, t2, key);
        assert(s1 =~= s2) by {
            assert forall|k: int| 0 <= k < s1.len() implies s1[k] == s2[k] by {
                if k > 0 {
                    assert(t1[k - 1] == t2[k - 1]);
                }
            }
        }
    }
}

/// The users of a consistent store have pairwise different user names.
pub proof fn law_ordered_user_names_distinct(db: Database)
    requires
        db.wf(),
    ensures
        forall|i: int, j: int|
            0 <= i < db.ordered_users().len() && 0 <= j < db.ordered_users().len() && i != j
                ==> #[trigger] db.ordered_users()[i].user_name
                != #[trigger] db.ordered_users()[j].user_name,
{
    let all = db.ordered_users();
    db.lemma_user_order_keys();
    assert forall|i: int, j: int|
        0 <= i < all.len() && 0 <= j < all.len() && i != j implies #[trigger] all[i].user_name
        != #[trigger] all[j].user_name by {
        let a = db.user_order()[i];
        let b = db.user_order()[j];
        assert(db.user_order().contains(a));
        assert(db.user_order().contains(b));
        law_user_names_unique(db, a, b);
    }
}

/// The order in which `list_users` returns users is fully determined by the store: any two
/// sequences that hold its users in order of user name are equal.
pub proof fn law_user_listing_deterministic(db: Database, s1: Seq<UserView>, s2: Seq<UserView>)
    requires
        db.wf(),
        is_user_listing(db.ordered_users(), s1),
        is_user_listing(db.ordered_users(), s2),
    ensures
        s1 == s2,
{
    let all = db.ordered_users();
    let key = |u: UserView| u.user_name;
    law_ordered_user_names_distinct(db);
    assert forall|i: int, j: int|
        #![trigger all[i], all[j]]
        0 <= i < all.len() && 0 <= j < all.len() && i != j implies key(all[i]) != key(all[j]) by {
        assert(all[i].user_name != all[j].user_name);
    }
    lemma_distinct_keys_transfer(all, s1, key);
    assert forall|i: int, j: int|
        #![trigger s1[i], s1[j]]
        0 <= i < j < s1.len() implies lex_le(key(s1[i]), key(s1[j])) by {
        let le = |a: UserView, b: UserView| lex_le(a.user_name, b.user_name);
        assert(le(s1[i], s1[j]));
    }
    assert forall|i: int, j: int|
        #![trigger s2[i], s2[j]]
        0 <= i < j < s2.len() implies lex_le(key(s2[i]), key(s2[j])) by {
        let le = |a: UserView, b: UserView| lex_le(a.user_name, b.user_name);
        assert(le(s2[i], s2[j]));
    }
    lemma_sorted_distinct_unique(s1, s2, key);
}

/// The groups of a consistent store have pairwise different display names.
pub proof fn law_ordered_group_names_distinct(db: Database)
    requires
        db.wf(),
    ensures
        forall|i: int, j: int|
            0 <= i < db.ordered_groups().len() && 0 <= j < db.ordered_groups().len() && i != j
                ==> #[trigger] db.ordered_groups()[i].display_name
                != #[trigger] db.ordered_groups()[j].display_name,
{
    let all = db.ordered_groups();
    db.lemma_group_order_keys();
    assert forall|i: int, j: int|
        0 <= i < all.len() && 0 <= j < all.len() && i != j implies #[trigger] all[i].display_name
        != #[trigger] all[j].display_name by {
        let a = db.group_order()[i];
        let b = db.group_order()[j];
        assert(db.group_order().contains(a));
        assert(db.group_order().contains(b));
        law_group_names_unique(db, a, b);
    }
}

/// The order in which `list_groups` returns groups is fully determined by the store: any
/// two sequences that hold its groups in order of display name are equal.
pub proof fn law_group_listing_deterministic(db: Database, s1: Seq<GroupView>, s2: Seq<GroupView>)
    requires
        db.wf(),
        is_group_listing(db.ordered_groups(), s1),
        is_group_listing(db.ordered_groups(), s2),
    ensures
        s1 == s2,
{
    let all = db.ordered_groups();
    let key = |g: GroupView| g.display_name;
    law_ordered_group_names_distinct(db);
    assert forall|i: int, j: int|
        #![trigger all[i], all[j]]
        0 <= i < all.len() && 0 <= j < all.len() && i != j implies key(all[i]) != key(all[j]) by {
        assert(all[i].display_name != all[j].display_name);
    }
    lemma_distinct_keys_transfer(all, s1, key);
    assert forall|i: int, j: int|
        #![trigger s1[i], s1[j]]
        0 <= i < j < s1.len() implies lex_le(key(s1[i]), key(s1[j])) by {
        let le = |a: GroupView, b: GroupView| lex_le(a.display_name, b.display_name);
        assert(le(s1[i], s1[j]));
    }
    assert forall|i: int, j: int|
        #![trigger s2[i], s2[j]]
        0 <= i < j < s2.len() implies lex_le(key(s2[i]), key(s2[j])) by {
        let le = |a: GroupView, b: GroupView| lex_le(a.display_name, b.display_name);
        assert(le(s2[i], s2[j]));
    }
    lemma_sorted_distinct_unique(s1, s2, key);
}

/// A listing of a consistent store without a filter counts every stored user once, so
/// `list_users` with no filter reports as many users as `get_stats`.
pub proof fn law_listing_counts_all_users(db: Database, s: Seq<UserView>)
    requires
        db.wf(),
        is_user_listing(db.ordered_users(), s),
    ensures
        s.len() == db.users().len(),
{
    db.lemma_user_order_keys();
    assert(s.len() == s.to_multiset().len());
    assert(db.ordered_users().len() == db.ordered_users().to_multiset().len());
    db.user_order().unique_seq_to_set();
    assert(db.users().dom() =~= db.user_order().to_set());
}

/// A listing of a consistent store without a filter counts every stored group once, so
/// `list_groups` with no filter reports as many groups as `get_stats`.
pub proof fn law_listing_counts_all_groups(db: Database, s: Seq<GroupView>)
    requires
        db.wf(),
        is_group_listing(db.ordered_groups(), s),
    ensures
        s.len() == db.groups().len(),
{
    db.lemma_group_order_keys();
    assert(s.len() == s.to_multiset().len());
    assert(db.ordered_groups().len() == db.ordered_groups().to_multiset().len());
    db.group_order().unique_seq_to_set();
    assert(db.groups().dom() =~= db.group_order().to_set());
}

/// A listing of a consistent store holds exactly its users: each listed user is stored
/// under its id, and each stored user is listed.
pub proof fn law_user_listing_holds_all_users(db: Database, s: Seq<UserView>)
    requires
        db.wf(),
        is_user_listing(db.ordered_users(), s),
    ensures
        forall|i: int|
            0 <= i < s.len() ==> db.users().contains_key(#[trigger] s[i].id) && db.users()[s[i].id]
                == s[i],
        forall|k: Seq<char>| #[trigger] db.users().contains_key(k) ==> s.contains(db.users()[k]),
{
    let all = db.ordered_users();
    db.lemma_user_order_keys();
    assert forall|i: int| 0 <= i < s.len() implies db.users().contains_key(#[trigger] s[i].id)
        && db.users()[s[i].id] == s[i] by {
        assert(s.contains(s[i]));
        assert(s.to_multiset().count(s[i]) > 0);
        assert(all.to_multiset().count(s[i]) > 0);
        assert(all.contains(s[i]));
        let a = choose|a: int| 0 <= a < all.len() && all[a] == s[i];
        let k = db.user_order()[a];
        assert(db.user_order().contains(k));
    }
    assert forall|k: Seq<char>| #[trigger] db.users().contains_key(k) implies s.contains(
        db.users()[k],
    ) by {
        assert(db.user_order().contains(k));
        let a = choose|a: int| 0 <= a < db.user_order().len() && db.user_order()[a] == k;
        assert(all[a] == db.users()[k]);
        assert(all.contains(db.users()[k]));
        assert(all.to_multiset().count(db.users()[k]) > 0);
        assert(s.to_multiset().count(db.users()[k]) > 0);
    }
}

/// A page holds at most `count` items, taken contiguously from the 1-based `start_index`;
/// it is empty when `start_index` lies past the end.
pub proof fn law_page_bounds<T>(s: Seq<T>, start_index: usize, count: usize)
    ensures
        page(s, start_index, count).len() <= count,
        page_skip(start_index) >= s.len() ==> page(s, start_index, count).len() == 0,
        forall|i: int|
            0 <= i < page(s, start_index, count).len() ==> #[trigger] page(
                s,
                start_index,
                count,
            )[i] == s[page_skip(start_index) + i],
        page_skip(start_index) + count <= s.len() ==> page(s, start_index, count).len() == count,
{
}

} // verus!

//! SCIM filter expressions of the simple forms `attr eq "value"` and `attr co "value"`,
//! and which users and groups they select.
use vstd::prelude::*;
use vstd::string::*;
use crate::database::{DbGroup, DbUser, GroupView, UserView};
use crate::text::{
    chars_of, char_is_white_space, contains_seq, eq_ignore_ascii_case, is_white_space, owned,
    str_contains, str_eq_ignore_ascii_case, to_lowercase, lowercase,
};

verus! {

broadcast use vstd::string::group_string_axioms;

/// A parsed filter: an attribute name and a value, compared for equality (`eq`) or
/// containment (`co`).
#[derive(Debug)]
pub enum Filter {
    Eq(String, String),
    Co(String, String),
}

/// The mathematical value of a filter.
pub enum FilterSpec {
    Eq(Seq<char>, Seq<char>),
    Co(Seq<char>, Seq<char>),
}

impl View for Filter {
    type V = FilterSpec;

    open spec fn view(&self) -> FilterSpec {
        match self {
            Filter::Eq(a, v) => FilterSpec::Eq(a@, v@),
            Filter::Co(a, v) => FilterSpec::Co(a@, v@),
        }
    }
}

/// The mathematical value of an optional filter.
pub open spec fn opt_filter_view(f: Option<Filter>) -> Option<FilterSpec> {
    match f {
        Some(x) => Some(x@),
        None => None,
    }
}

/// The index at which the run of white space that starts at `i` in `s` ends.
pub open spec fn skip_space(s: Seq<char>, i: int) -> int
    decreases s.len() - i,
{
    if 0 <= i < s.len() && is_white_space(s[i]) {
        skip_space(s, i + 1)
    } else {
        i
    }
}

/// The index at which the word (run of non-white-space characters) that starts at `i` in
/// `s` ends.
pub open spec fn skip_word(s: Seq<char>, i: int) -> int
    decreases s.len() - i,
{
    if 0 <= i < s.len() && !is_white_space(s[i]) {
        skip_word(s, i + 1)
    } else {
        i
    }
}

/// The end of `s[lo..hi]` once its trailing white space is removed.
pub open spec fn trim_space_end(s: Seq<char>, lo: int, hi: int) -> int
    decreases hi - lo,
{
    if lo < hi && is_white_space(s[hi - 1]) {
        trim_space_end(s, lo, hi - 1)
    } else {
        hi
    }
}

/// A double or single quote.
pub open spec fn is_quote(c: char) -> bool {
    c == '"' || c == '\''
}

/// `s` with all leading and trailing quotes removed, as `str::trim_matches` does.
pub open spec fn trim_quotes(s: Seq<char>) -> Seq<char>
    decreases s.len(),
{
    if s.len() > 0 && is_quote(s[0]) {
        trim_quotes(s.drop_first())
    } else if s.len() > 0 && is_quote(s.last()) {
        trim_quotes(s.drop_last())
    } else {
        s
    }
}

/// The parse of a filter string: the attribute is its first word and the operator its
/// second, which must lowercase to `eq` or `co`; the value is the rest of the text after
/// the operator, as written, without surrounding white space and quotes. There must be
/// some text after the operator.
pub open spec fn spec_parse_scim_filter(s: Seq<char>) -> Option<FilterSpec> {
    let attr_start = skip_space(s, 0);
    let attr_end = skip_word(s, attr_start);
    let op_start = skip_space(s, attr_end);
    let op_end = skip_word(s, op_start);
    let val_start = skip_space(s, op_end);
    if val_start >= s.len() {
        None
    } else {
        let attr = s.subrange(attr_start, attr_end);
        let op = lowercase(s.subrange(op_start, op_end));
        let val = trim_quotes(s.subrange(val_start, trim_space_end(s, val_start, s.len() as int)));
        if op == seq!['e', 'q'] {
            Some(FilterSpec::Eq(attr, val))
        } else if op == seq!['c', 'o'] {
            Some(FilterSpec::Co(attr, val))
        } else {
            None
        }
    }
}

/// The filter that an optional filter string gives; no string, or one that does not parse,
/// selects everything.
pub open spec fn filter_of(filter: Option<String>) -> Option<FilterSpec> {
    match filter {
        Some(s) => spec_parse_scim_filter(s@),
        None => None,
    }
}

/// The attribute name `userName`, in lower case.
pub open spec fn user_name_attr() -> Seq<char> {
    seq!['u', 's', 'e', 'r', 'n', 'a', 'm', 'e']
}

/// The attribute name `externalId`, in lower case.
pub open spec fn external_id_attr() -> Seq<char> {
    seq!['e', 'x', 't', 'e', 'r', 'n', 'a', 'l', 'i', 'd']
}

/// The attribute name `displayName`, in lower case.
pub open spec fn display_name_attr() -> Seq<char> {
    seq!['d', 'i', 's', 'p', 'l', 'a', 'y', 'n', 'a', 'm', 'e']
}

/// Whether user `u` is selected by filter `f`. Only `userName` (both operators) and
/// `externalId` (`eq`) are compared; any other attribute, and no filter, select everyone.
pub open spec fn user_passes(f: Option<FilterSpec>, u: UserView) -> bool {
    match f {
        Some(FilterSpec::Eq(attr, val)) => if eq_ignore_ascii_case(attr, user_name_attr()) {
            eq_ignore_ascii_case(u.user_name, val)
        } else if eq_ignore_ascii_case(attr, external_id_attr()) {
            eq_ignore_ascii_case(
                match u.external_id {
                    Some(e) => e,
                    None => seq![],
                },
                val,
            )
        } else {
            true
        },
        Some(FilterSpec::Co(attr, val)) => if eq_ignore_ascii_case(attr, user_name_attr()) {
            contains_seq(lowercase(u.user_name), lowercase(val))
        } else {
            true
        },
        None => true,
    }
}

/// Whether group `g` is selected by filter `f`. Only `displayName` is compared; any other
/// attribute, and no filter, select every group.
pub open spec fn group_passes(f: Option<FilterSpec>, g: GroupView) -> bool {
    match f {
        Some(FilterSpec::Eq(attr, val)) => if eq_ignore_ascii_case(attr, display_name_attr()) {
            eq_ignore_ascii_case(g.display_name, val)
        } else {
            true
        },
        Some(FilterSpec::Co(attr, val)) => if eq_ignore_ascii_case(attr, display_name_attr()) {
            contains_seq(lowercase(g.display_name), lowercase(val))
        } else {
            true
        },
        None => true,
    }
}

/// Whether `s` is exactly the two characters `a`, `b`.
fn is_pair(s: &str, a: char, b: char) -> (r: bool)
    ensures
        r == (s@ == seq![a, b]),
{
    let c = chars_of(s);
    if c.len() == 2 && c[0] == a && c[1] == b {
        assert(s@ =~= seq![a, b]);
        true
    } else {
        false
    }
}

/// The end of the run that starts at `i` in `c`: of white space where `space`, else of
/// non-white-space characters.
fn run_end(c: &Vec<char>, i: usize, space: bool) -> (r: usize)
    requires
        i <= c.len(),
    ensures
        r == if space {
            skip_space(c@, i as int)
        } else {
            skip_word(c@, i as int)
        },
        i <= r <= c.len(),
{
    let mut j = i;
    while j < c.len() && char_is_white_space(c[j]) == space
        invariant
            i <= j <= c.len(),
            space ==> skip_space(c@, i as int) == skip_space(c@, j as int),
            !space ==> skip_word(c@, i as int) == skip_word(c@, j as int),
        decreases c.len() - j,
    {
        j = j + 1;
    }
    j
}

/// The end of `c[lo..hi]` once its trailing white space is removed.
fn trimmed_end(c: &Vec<char>, lo: usize, hi: usize) -> (r: usize)
    requires
        lo <= hi <= c.len(),
    ensures
        r == trim_space_end(c@, lo as int, hi as int),
        lo <= r <= hi,
{
    let mut j = hi;
    while j > lo && char_is_white_space(c[j - 1])
        invariant
            lo <= j <= hi,
            hi <= c.len(),
            trim_space_end(c@, lo as int, hi as int) == trim_space_end(c@, lo as int, j as int),
        decreases j,
    {
        j = j - 1;
    }
    j
}

proof fn lemma_trim_leading(s: Seq<char>, a: int)
    requires
        0 <= a <= s.len(),
        forall|j: int| 0 <= j < a ==> is_quote(#[trigger] s[j]),
    ensures
        trim_quotes(s) == trim_quotes(s.skip(a)),
    decreases a,
{
    if a > 0 {
        assert(s.drop_first().skip(a - 1) =~= s.skip(a));
        lemma_trim_leading(s.drop_first(), a - 1);
    } else {
        assert(s.skip(0) =~= s);
    }
}

proof fn lemma_trim_trailing(s: Seq<char>, b: int)
    requires
        0 <= b <= s.len(),
        b > 0 ==> !is_quote(s[0]),
        b == 0 ==> s.len() == 0 || forall|j: int| 0 <= j < s.len() ==> is_quote(#[trigger] s[j]),
        forall|j: int| b <= j < s.len() ==> is_quote(#[trigger] s[j]),
    ensures
        trim_quotes(s) == trim_quotes(s.take(b)),
    decreases s.len() - b,
{
    if b < s.len() {
        if s.len() > 0 && is_quote(s[0]) {
            // all of s is quotes (b == 0)
            assert(b == 0);
            assert forall|j: int| 0 <= j < s.drop_first().len() implies is_quote(
                #[trigger] s.drop_first()[j],
            ) by {
                assert(s.drop_first()[j] == s[j + 1]);
            }
            lemma_trim_trailing(s.drop_first(), 0);
            assert(s.take(0) =~= s.drop_first().take(0));
        } else {
            assert(is_quote(s.last()));
            assert(s.drop_last().take(b) =~= s.take(b));
            if b > 0 {
                assert(s.drop_last()[0] == s[0]);
            }
            lemma_trim_trailing(s.drop_last(), b);
        }
    } else {
        assert(s.take(b) =~= s);
    }
}

/// `s` without leading and trailing quotes (`str::trim_matches` on `"` and `'`).
pub fn trim_quote_chars(s: &str) -> (r: String)
    ensures
        r@ == trim_quotes(s@),
{
    let c = chars_of(s);
    let n = c.len();
    let mut a: usize = 0;
    while a < n && (c[a] == '"' || c[a] == '\'')
        invariant
            c@ == s@,
            n == s@.len(),
            a <= n,
            forall|j: int| 0 <= j < a ==> is_quote(#[trigger] s@[j]),
        decreases n - a,
    {
        a = a + 1;
    }
    let mut b: usize = n;
    while b > a && (c[b - 1] == '"' || c[b - 1] == '\'')
        invariant
            c@ == s@,
            n == s@.len(),
            a <= b <= n,
            forall|j: int| b <= j < n ==> is_quote(#[trigger] s@[j]),
        decreases b,
    {
        b = b - 1;
    }
    proof {
        lemma_trim_leading(s@, a as int);
        let t = s@.skip(a as int);
        assert forall|j: int| (b - a) <= j < t.len() implies is_quote(#[trigger] t[j]) by {
            assert(t[j] == s@[a + j]);
        }
        if b > a {
            assert(t[0] == s@[a as int]);
        } else if t.len() > 0 {
            assert forall|j: int| 0 <= j < t.len() implies is_quote(#[trigger] t[j]) by {
                assert(t[j] == s@[a + j]);
            }
        }
        lemma_trim_trailing(t, (b - a) as int);
        let u = t.take((b - a) as int);
        if u.len() > 0 {
            assert(u[0] == s@[a as int]);
            assert(u.last() == s@[b - 1]);
        }
        assert(trim_quotes(u) == u);
        assert(u =~= s@.subrange(a as int, b as int));
    }
    owned(s.substring_char(a, b))
}

/// The filter of attribute `field`, lower-cased operator `op` and value `value`: `eq` and
/// `co` are known, any other operator gives no filter.
pub fn filter_from_parts(field: String, op: &str, value: String) -> (r: Option<Filter>)
    ensures
        opt_filter_view(r) == if op@ == seq!['e', 'q'] {
            Some(FilterSpec::Eq(field@, value@))
        } else if op@ == seq!['c', 'o'] {
            Some(FilterSpec::Co(field@, value@))
        } else {
            None
        },
{
    if is_pair(op, 'e', 'q') {
        Some(Filter::Eq(field, value))
    } else if is_pair(op, 'c', 'o') {
        Some(Filter::Co(field, value))
    } else {
        None
    }
}

/// Parses a filter of the forms `attr eq value` and `attr co value` (operator in any case,
/// value possibly quoted and possibly containing white space, which is kept as written).
pub fn parse_scim_filter(filter_str: &str) -> (r: Option<Filter>)
    ensures
        opt_filter_view(r) == spec_parse_scim_filter(filter_str@),
{
    let c = chars_of(filter_str);
    let n = c.len();
    let attr_start = run_end(&c, 0, true);
    let attr_end = run_end(&c, attr_start, false);
    let op_start = run_end(&c, attr_end, true);
    let op_end = run_end(&c, op_start, false);
    let val_start = run_end(&c, op_end, true);
    if val_start >= n {
        return None;
    }
    let val_end = trimmed_end(&c, val_start, n);
    let field = owned(filter_str.substring_char(attr_start, attr_end));
    let op = to_lowercase(filter_str.substring_char(op_start, op_end));
    let val = trim_quote_chars(filter_str.substring_char(val_start, val_end));
    filter_from_parts(field, op.as_str(), val)
}

/// Whether `attr` names `userName`, up to ASCII case.
fn is_user_name_attr(attr: &str) -> (r: bool)
    ensures
        r == eq_ignore_ascii_case(attr@, user_name_attr()),
{
    proof {
        reveal_strlit("username");
    }
    assert("username"@ =~= user_name_attr());
    str_eq_ignore_ascii_case(attr, "username")
}

/// Whether `attr` names `externalId`, up to ASCII case.
fn is_external_id_attr(attr: &str) -> (r: bool)
    ensures
        r == eq_ignore_ascii_case(attr@, external_id_attr()),
{
    proof {
        reveal_strlit("externalid");
    }
    assert("externalid"@ =~= external_id_attr());
    str_eq_ignore_ascii_case(attr, "externalid")
}

/// Whether `attr` names `displayName`, up to ASCII case.
fn is_display_name_attr(attr: &str) -> (r: bool)
    ensures
        r == eq_ignore_ascii_case(attr@, display_name_attr()),
{
    proof {
        reveal_strlit("displayname");
    }
    assert("displayname"@ =~= display_name_attr());
    str_eq_ignore_ascii_case(attr, "displayname")
}

/// Whether the lowercase form of `val` occurs in the lowercase form of `text`.
fn contains_ignoring_case(text: &str, val: &str) -> (r: bool)
    ensures
        r == contains_seq(lowercase(text@), lowercase(val@)),
{
    let t = to_lowercase(text);
    let v = to_lowercase(val);
    str_contains(t.as_str(), v.as_str())
}

/// Whether user `u` is selected by `f`.
pub fn user_matches(f: &Option<Filter>, u: &DbUser) -> (r: bool)
    ensures
        r == user_passes(opt_filter_view(*f), u@),
{
    match f {
        Some(Filter::Eq(attr, val)) => {
            if is_user_name_attr(attr.as_str()) {
                str_eq_ignore_ascii_case(u.user_name.as_str(), val.as_str())
            } else if is_external_id_attr(attr.as_str()) {
                match &u.external_id {
                    Some(e) => str_eq_ignore_ascii_case(e.as_str(), val.as_str()),
                    None => {
                        proof {
                            reveal_strlit("");
                        }
                        str_eq_ignore_ascii_case("", val.as_str())
                    },
                }
            } else {
                true
            }
        },
        Some(Filter::Co(attr, val)) => {
            if is_user_name_attr(attr.as_str()) {
                contains_ignoring_case(u.user_name.as_str(), val.as_str())
            } else {
                true
            }
        },
        None => true,
    }
}

/// Whether group `g` is selected by `f`.
pub fn group_matches(f: &Option<Filter>, g: &DbGroup) -> (r: bool)
    ensures
        r == group_passes(opt_filter_view(*f), g@),
{
    match f {
        Some(Filter::Eq(attr, val)) => {
            if is_display_name_attr(attr.as_str()) {
                str_eq_ignore_ascii_case(g.display_name.as_str(), val.as_str())
            } else {
                true
            }
        },
        Some(Filter::Co(attr, val)) => {
            if is_display_name_attr(attr.as_str()) {
                contains_ignoring_case(g.display_name.as_str(), val.as_str())
            } else {
                true
            }
        },
        None => true,
    }
}

} // verus!

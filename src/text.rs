use vstd::prelude::*;
use crate::records::string_views;

verus! {

/// Whether a character has the Unicode `White_Space` property.
pub uninterp spec fn white_space(c: char) -> bool;

/// Relies on `char::is_whitespace`: whether `c` has the Unicode `White_Space`
/// property, which depends on the character alone.
#[verifier::external_body]
fn is_white_space(c: char) -> (r: bool)
    ensures
        r == white_space(c),
{
    c.is_whitespace()
}

/// The pieces of `s` between commas, in order: one more piece than there are
/// commas.
pub open spec fn split_commas(s: Seq<char>) -> Seq<Seq<char>>
    decreases s.len(),
{
    if s.len() == 0 {
        seq![seq![]]
    } else {
        let rest = split_commas(s.drop_last());
        if s.last() == ',' {
            rest.push(seq![])
        } else {
            rest.update(rest.len() - 1, rest.last().push(s.last()))
        }
    }
}

/// `t` is `s` without its leading and trailing white space.
pub open spec fn is_trim_of(t: Seq<char>, s: Seq<char>) -> bool {
    exists|a: int, b: int|
        0 <= a <= b <= s.len() && t == s.subrange(a, b) && (forall|k: int|
            0 <= k < a ==> white_space(#[trigger] s[k])) && (forall|k: int|
            b <= k < s.len() ==> white_space(#[trigger] s[k])) && (a < b ==> !white_space(s[a])
            && !white_space(s[b - 1]))
}

/// `s` without leading and trailing white space.
fn trim(s: &str) -> (r: String)
    ensures
        is_trim_of(r@, s@),
{
    let n = s.unicode_len();
    let mut a: usize = 0;
    while a < n && is_white_space(s.get_char(a))
        invariant
            a <= n,
            n == s@.len(),
            forall|k: int| 0 <= k < a ==> white_space(#[trigger] s@[k]),
        decreases n - a,
    {
        a = a + 1;
    }
    let mut b: usize = n;
    while b > a && is_white_space(s.get_char(b - 1))
        invariant
            a <= b <= n,
            n == s@.len(),
            forall|k: int| b <= k < n ==> white_space(#[trigger] s@[k]),
            a < n ==> !white_space(s@[a as int]),
        decreases b - a,
    {
        b = b - 1;
    }
    let r = String::from_str(s.substring_char(a, b));
    assert(is_trim_of(r@, s@)) by {
        assert(0 <= a <= b <= s@.len() && r@ == s@.subrange(a as int, b as int));
    }
    r
}

/// Splits a comma-separated list and trims every item: `"a, b"` gives
/// `["a", "b"]`.
pub fn parse_alias_list(input: &String) -> (r: Vec<String>)
    ensures
        r.len() == split_commas(input@).len(),
        forall|i: int| 0 <= i < r.len() ==> is_trim_of(#[trigger] r@[i]@, split_commas(input@)[i]),
{
    let s = input.as_str();
    let n = s.unicode_len();
    let mut pieces: Vec<String> = Vec::new();
    let mut start: usize = 0;
    let mut i: usize = 0;
    assert(s@.subrange(0, 0) =~= seq![]);
    assert(string_views(pieces@).push(s@.subrange(0, 0)) =~= seq![seq![]]);
    while i < n
        invariant
            n == s@.len(),
            s@ == input@,
            start <= i <= n,
            split_commas(s@.subrange(0, i as int)) == string_views(pieces@).push(
                s@.subrange(start as int, i as int),
            ),
        decreases n - i,
    {
        let ghost prefix = s@.subrange(0, i + 1);
        assert(prefix.drop_last() =~= s@.subrange(0, i as int));
        if s.get_char(i) == ',' {
            let ghost prev = pieces@;
            pieces.push(String::from_str(s.substring_char(start, i)));
            assert(string_views(pieces@) =~= string_views(prev).push(s@.subrange(start as int, i as int)));
            start = i + 1;
            assert(s@.subrange(start as int, i + 1) =~= seq![]);
        } else {
            assert(s@.subrange(start as int, i as int).push(s@[i as int]) =~= s@.subrange(start as int, i + 1));
            assert(split_commas(prefix) =~= string_views(pieces@).push(s@.subrange(start as int, i + 1)));
        }
        i = i + 1;
    }
    assert(s@.subrange(0, n as int) =~= s@);
    let ghost prev = pieces@;
    pieces.push(String::from_str(s.substring_char(start, n)));
    assert(string_views(pieces@) =~= split_commas(s@)) by {
        assert(string_views(pieces@) =~= string_views(prev).push(s@.subrange(start as int, n as int)));
    }
    let mut r: Vec<String> = Vec::new();
    let mut k: usize = 0;
    while k < pieces.len()
        invariant
            k <= pieces.len(),
            r.len() == k,
            string_views(pieces@) == split_commas(input@),
            forall|j: int| 0 <= j < k ==> is_trim_of(#[trigger] r@[j]@, split_commas(input@)[j]),
        decreases pieces.len() - k,
    {
        r.push(trim(pieces[k].as_str()));
        k = k + 1;
    }
    r
}

} // verus!

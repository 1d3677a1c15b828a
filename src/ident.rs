//! Identifiers derived from file-system names.

use vstd::prelude::*;
use vstd::string::*;

verus! {

/// What `str::to_uppercase` returns for a sequence of characters.
pub uninterp spec fn upper_of(s: Seq<char>) -> Seq<char>;

/// What `str::to_lowercase` returns for a sequence of characters.
pub uninterp spec fn lower_of(s: Seq<char>) -> Seq<char>;

/// What `case::CaseExt::to_camel` returns for a sequence of characters.
pub uninterp spec fn camel_of(s: Seq<char>) -> Seq<char>;

/// Relies on `str::to_uppercase`: the result depends on the characters alone.
#[verifier::external_body]
pub(crate) fn to_upper(s: &str) -> (r: String)
    ensures
        r@ == upper_of(s@),
{
    s.to_uppercase()
}

/// Relies on `str::to_lowercase`: the result depends on the characters alone.
#[verifier::external_body]
pub(crate) fn to_lower(s: &str) -> (r: String)
    ensures
        r@ == lower_of(s@),
{
    s.to_lowercase()
}

/// Relies on `case::CaseExt::to_camel`: the snake-case term turned into a
/// capitalised camel-case (pascal-case) one; it depends on the characters alone.
#[verifier::external_body]
pub(crate) fn to_camel(s: &str) -> (r: String)
    ensures
        r@ == camel_of(s@),
{
    case::CaseExt::to_camel(s)
}

pub open spec fn dot_to_underscore(c: char) -> char {
    if c == '.' {
        '_'
    } else {
        c
    }
}

/// The name with every `.` replaced by `_`.
pub open spec fn dots_replaced(s: Seq<char>) -> Seq<char> {
    s.map_values(|c: char| dot_to_underscore(c))
}

/// The constant identifier of a file name: dots become underscores, then the
/// whole name is upper-cased.
pub open spec fn constant_ident_of(name: Seq<char>) -> Seq<char> {
    upper_of(dots_replaced(name))
}

pub open spec fn is_ascii_letter(c: char) -> bool {
    ('a' <= c && c <= 'z') || ('A' <= c && c <= 'Z')
}

pub open spec fn is_ident_char(c: char) -> bool {
    is_ascii_letter(c) || ('0' <= c && c <= '9') || c == '_'
}

/// A name that can stand as a module identifier as it is: a letter or `_`
/// first, then letters, digits and `_`, and not `_` alone.
pub open spec fn is_identifier(s: Seq<char>) -> bool {
    &&& s.len() > 0
    &&& (is_ascii_letter(s[0]) || s[0] == '_')
    &&& forall|i: int| 0 <= i < s.len() ==> is_ident_char(#[trigger] s[i])
    &&& !(s.len() == 1 && s[0] == '_')
}

/// Replaces every `.` of `s` with `_`.
pub fn replace_dots(s: &str) -> (r: String)
    ensures
        r@ == dots_replaced(s@),
{
    let n = s.unicode_len();
    let mut r = String::new();
    let mut i: usize = 0;
    while i < n
        invariant
            n == s@.len(),
            i <= n,
            r@ == dots_replaced(s@.subrange(0, i as int)),
        decreases n - i,
    {
        let c = s.get_char(i);
        if c == '.' {
            r.append("_");
        } else {
            r.append(s.substring_char(i, i + 1));
        }
        proof {
            reveal_strlit("_");
            assert(dots_replaced(s@.subrange(0, i + 1)) =~= dots_replaced(s@.subrange(0, i as int)).push(
                dot_to_underscore(c),
            ));
        }
        assert(r@ =~= dots_replaced(s@.subrange(0, i + 1)));
        i = i + 1;
    }
    assert(s@.subrange(0, n as int) =~= s@);
    r
}

/// The constant identifier of a file name (`triangle.frag` gives
/// `TRIANGLE_FRAG`).
pub fn constant_identifier(name: &str) -> (r: String)
    ensures
        r@ == constant_ident_of(name@),
{
    let replaced = replace_dots(name);
    to_upper(replaced.as_str())
}

/// The type identifier of a file stem: its pascal-case form.
pub fn type_identifier(stem: &str) -> (r: String)
    ensures
        r@ == camel_of(stem@),
{
    to_camel(stem)
}

/// Whether `s` can stand as a module identifier unchanged.
pub fn is_module_identifier(s: &str) -> (r: bool)
    ensures
        r == is_identifier(s@),
{
    let n = s.unicode_len();
    if n == 0 {
        return false;
    }
    let first = s.get_char(0);
    if !(('a' <= first && first <= 'z') || ('A' <= first && first <= 'Z') || first == '_') {
        return false;
    }
    if n == 1 && first == '_' {
        return false;
    }
    let mut i: usize = 0;
    while i < n
        invariant
            n == s@.len(),
            i <= n,
            forall|j: int| 0 <= j < i ==> is_ident_char(#[trigger] s@[j]),
        decreases n - i,
    {
        let c = s.get_char(i);
        if !(('a' <= c && c <= 'z') || ('A' <= c && c <= 'Z') || ('0' <= c && c <= '9') || c
            == '_') {
            assert(!is_ident_char(s@[i as int]));
            return false;
        }
        i = i + 1;
    }
    true
}

} // verus!

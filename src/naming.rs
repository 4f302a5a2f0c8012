//! Naming rules: case transforms, keyword renames and variant labels.
use vstd::prelude::*;
use vstd::string::*;
use crate::text::same_text;

verus! {

/// What `char::to_uppercase` yields for `c`.
pub uninterp spec fn upper_of(c: char) -> Seq<char>;

/// What `char::to_lowercase` yields for `c`.
pub uninterp spec fn lower_of(c: char) -> Seq<char>;

/// Relies on `char::to_uppercase`: the upper-case mapping of one character,
/// one or more characters, collected into a string.
#[verifier::external_body]
fn char_upper(c: char) -> (r: String)
    ensures
        r@ == upper_of(c),
        r@.len() >= 1,
{
    c.to_uppercase().collect::<String>()
}

/// Relies on `char::to_lowercase`: the lower-case mapping of one character,
/// one or more characters, collected into a string.
#[verifier::external_body]
fn char_lower(c: char) -> (r: String)
    ensures
        r@ == lower_of(c),
        r@.len() >= 1,
{
    c.to_lowercase().collect::<String>()
}

/// `s` with its first character upper-cased.
pub open spec fn capitalize(s: Seq<char>) -> Seq<char> {
    if s.len() == 0 {
        Seq::empty()
    } else {
        upper_of(s[0]) + s.drop_first()
    }
}

/// `s` with its first character lower-cased.
pub open spec fn decapitalize(s: Seq<char>) -> Seq<char> {
    if s.len() == 0 {
        Seq::empty()
    } else {
        lower_of(s[0]) + s.drop_first()
    }
}

/// The code of `c` after ASCII lower-casing.
pub open spec fn folded(c: char) -> u32 {
    if 65 <= (c as u32) && (c as u32) <= 90 {
        (c as u32 + 32) as u32
    } else {
        c as u32
    }
}

/// Whether `s` starts with `p`, ignoring ASCII case.
pub open spec fn starts_with_folded(s: Seq<char>, p: Seq<char>) -> bool {
    p.len() <= s.len() && forall|i: int| 0 <= i < p.len() ==> folded(#[trigger] s[i]) == folded(p[i])
}

/// The label of constructor `name` inside the sum type `parent`: the name
/// with the parent's name cut off its front when it begins with it (ignoring
/// ASCII case) and is longer, else the whole name; capitalized either way.
pub open spec fn variant_label(name: Seq<char>, parent: Seq<char>) -> Seq<char> {
    if parent.len() < name.len() && starts_with_folded(name, parent) {
        capitalize(name.skip(parent.len() as int))
    } else {
        capitalize(name)
    }
}

/// The host identifier for a schema field name: `type` is a keyword.
pub open spec fn host_field(s: Seq<char>) -> Seq<char> {
    if s == "type"@ {
        "type_"@
    } else {
        s
    }
}

/// Code of `c` after ASCII lower-casing.
pub fn fold_char(c: char) -> (r: u32)
    ensures
        r == folded(c),
{
    let u = c as u32;
    if 65 <= u && u <= 90 {
        u + 32
    } else {
        u
    }
}

/// `s` with its first character upper-cased.
pub fn uppercase_first_letter(s: &str) -> (r: String)
    ensures
        r@ == capitalize(s@),
        s@.len() > 0 ==> r@.len() > 0,
{
    let n = s.unicode_len();
    if n == 0 {
        String::new()
    } else {
        let mut r = char_upper(s.get_char(0));
        r.append(s.substring_char(1, n));
        assert(s@.subrange(1, n as int) =~= s@.drop_first());
        r
    }
}

/// `s` with its first character lower-cased.
pub fn lowercase_first_letter(s: &str) -> (r: String)
    ensures
        r@ == decapitalize(s@),
        s@.len() > 0 ==> r@.len() > 0,
{
    let n = s.unicode_len();
    if n == 0 {
        String::new()
    } else {
        let mut r = char_lower(s.get_char(0));
        r.append(s.substring_char(1, n));
        assert(s@.subrange(1, n as int) =~= s@.drop_first());
        r
    }
}

/// Whether `s` starts with `p`, ignoring ASCII case.
pub fn starts_with_ignoring_case(s: &str, p: &str) -> (r: bool)
    ensures
        r == starts_with_folded(s@, p@),
{
    let n = p.unicode_len();
    if n > s.unicode_len() {
        return false;
    }
    let mut i: usize = 0;
    while i < n
        invariant
            n == p@.len(),
            n <= s@.len(),
            i <= n,
            forall|k: int| 0 <= k < i ==> folded(#[trigger] s@[k]) == folded(p@[k]),
        decreases n - i,
    {
        if fold_char(s.get_char(i)) != fold_char(p.get_char(i)) {
            return false;
        }
        i = i + 1;
    }
    true
}

/// The variant label of constructor `name` inside the sum type `abs`; never
/// empty for a non-empty name.
pub fn name_for_variant(name: &str, abs: &str) -> (r: String)
    ensures
        r@ == variant_label(name@, abs@),
        name@.len() > 0 ==> r@.len() > 0,
{
    let n = name.unicode_len();
    let m = abs.unicode_len();
    if m < n && starts_with_ignoring_case(name, abs) {
        uppercase_first_letter(name.substring_char(m, n))
    } else {
        uppercase_first_letter(name)
    }
}

/// The host identifier for a schema field name, and whether it differs.
pub fn rename_var(s: &str) -> (r: (bool, String))
    ensures
        r.0 == (s@ == "type"@),
        r.1@ == host_field(s@),
{
    if same_text(s, "type") {
        (true, String::from_str("type_"))
    } else {
        (false, String::from_str(s))
    }
}

} // verus!

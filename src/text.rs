//! Character-level helpers on strings, each specified over `Seq<char>`.
use vstd::prelude::*;
use vstd::string::*;

verus! {

/// Index of the first `c` in `s` at or after `i`, or `s.len()` when there is none.
pub open spec fn first_from(s: Seq<char>, c: char, i: int) -> int
    decreases s.len() - i,
{
    if i < 0 || i >= s.len() {
        s.len() as int
    } else if s[i] == c {
        i
    } else {
        first_from(s, c, i + 1)
    }
}

/// Index of the first `c` in `s`, or `s.len()` when there is none.
pub open spec fn first_of(s: Seq<char>, c: char) -> int {
    first_from(s, c, 0)
}

/// Whitespace that separates tokens of a schema line.
pub open spec fn is_blank(c: char) -> bool {
    c == ' ' || c == '\t' || c == '\r' || c == '\n'
}

/// Index of the first blank in `s` at or after `i`, or `s.len()`.
pub open spec fn blank_from(s: Seq<char>, i: int) -> int
    decreases s.len() - i,
{
    if i < 0 || i >= s.len() {
        s.len() as int
    } else if is_blank(s[i]) {
        i
    } else {
        blank_from(s, i + 1)
    }
}

/// Index of the first non-blank in `s` at or after `i`, or `s.len()`.
pub open spec fn solid_from(s: Seq<char>, i: int) -> int
    decreases s.len() - i,
{
    if i < 0 || i >= s.len() {
        s.len() as int
    } else if !is_blank(s[i]) {
        i
    } else {
        solid_from(s, i + 1)
    }
}

/// One past the last non-blank in `s.take(j)`, or 0.
pub open spec fn solid_until(s: Seq<char>, j: int) -> int
    decreases j,
{
    if j <= 0 || j > s.len() {
        0
    } else if !is_blank(s[j - 1]) {
        j
    } else {
        solid_until(s, j - 1)
    }
}

/// `s` without leading and trailing blanks.
pub open spec fn trim(s: Seq<char>) -> Seq<char> {
    let a = solid_from(s, 0);
    let b = solid_until(s, s.len() as int);
    if a < b {
        s.subrange(a, b)
    } else {
        Seq::empty()
    }
}

/// The maximal runs of non-blank characters of `s` from index `i` on.
pub open spec fn tokens_from(s: Seq<char>, i: int) -> Seq<Seq<char>>
    decreases s.len() - i,
{
    if i < 0 || i >= s.len() {
        Seq::empty()
    } else if is_blank(s[i]) {
        tokens_from(s, i + 1)
    } else {
        let j = blank_from(s, i);
        if j <= i || j > s.len() {
            Seq::empty()
        } else {
            seq![s.subrange(i, j)] + tokens_from(s, j)
        }
    }
}

/// The blank-separated tokens of `s`, in order.
pub open spec fn tokens(s: Seq<char>) -> Seq<Seq<char>> {
    tokens_from(s, 0)
}

pub proof fn lemma_blank_from_bounds(s: Seq<char>, i: int)
    requires
        0 <= i <= s.len(),
    ensures
        i <= blank_from(s, i) <= s.len(),
    decreases s.len() - i,
{
    if i < s.len() && !is_blank(s[i]) {
        lemma_blank_from_bounds(s, i + 1);
    }
}

/// Whether two strings hold the same characters.
pub fn same_text(a: &str, b: &str) -> (r: bool)
    ensures
        r == (a@ == b@),
{
    let n = a.unicode_len();
    if n != b.unicode_len() {
        return false;
    }
    let mut i: usize = 0;
    while i < n
        invariant
            n == a@.len(),
            n == b@.len(),
            i <= n,
            forall|k: int| 0 <= k < i ==> a@[k] == b@[k],
        decreases n - i,
    {
        if a.get_char(i) != b.get_char(i) {
            return false;
        }
        i = i + 1;
    }
    assert(a@ =~= b@);
    true
}

/// Index of the first `c` in `s` at or after `from`.
pub fn find_char(s: &str, c: char, from: usize) -> (r: usize)
    requires
        from <= s@.len(),
    ensures
        r == first_from(s@, c, from as int),
        from <= r <= s@.len(),
{
    let n = s.unicode_len();
    let mut i: usize = from;
    while i < n
        invariant
            n == s@.len(),
            from <= i <= n,
            first_from(s@, c, i as int) == first_from(s@, c, from as int),
        decreases n - i,
    {
        if s.get_char(i) == c {
            return i;
        }
        i = i + 1;
    }
    i
}

/// `s` without leading and trailing blanks.
pub fn trim_blanks(s: &str) -> (r: String)
    ensures
        r@ == trim(s@),
{
    let n = s.unicode_len();
    let mut a: usize = 0;
    while a < n && is_blank_char(s.get_char(a))
        invariant
            n == s@.len(),
            a <= n,
            solid_from(s@, a as int) == solid_from(s@, 0),
        decreases n - a,
    {
        a = a + 1;
    }
    let mut b: usize = n;
    while b > 0 && is_blank_char(s.get_char(b - 1))
        invariant
            n == s@.len(),
            b <= n,
            solid_until(s@, b as int) == solid_until(s@, n as int),
        decreases b,
    {
        b = b - 1;
    }
    if a < b {
        String::from_str(s.substring_char(a, b))
    } else {
        String::new()
    }
}

/// Whether `c` is a blank.
pub fn is_blank_char(c: char) -> (r: bool)
    ensures
        r == is_blank(c),
{
    c == ' ' || c == '\t' || c == '\r' || c == '\n'
}

/// The blank-separated tokens of `s`.
pub fn split_tokens(s: &str) -> (r: Vec<String>)
    ensures
        r@.map_values(|t: String| t@) == tokens(s@),
{
    let n = s.unicode_len();
    let mut out: Vec<String> = Vec::new();
    let mut i: usize = 0;
    while i < n
        invariant
            n == s@.len(),
            i <= n,
            out@.map_values(|t: String| t@) + tokens_from(s@, i as int) == tokens(s@),
        decreases n - i,
    {
        if is_blank_char(s.get_char(i)) {
            i = i + 1;
        } else {
            let mut j: usize = i + 1;
            while j < n && !is_blank_char(s.get_char(j))
                invariant
                    n == s@.len(),
                    i < j <= n,
                    blank_from(s@, j as int) == blank_from(s@, i as int),
                decreases n - j,
            {
                j = j + 1;
            }
            let t = String::from_str(s.substring_char(i, j));
            let ghost before = out@.map_values(|t: String| t@);
            out.push(t);
            assert(out@.map_values(|t: String| t@) =~= before.push(s@.subrange(i as int, j as int)));
            assert(before.push(s@.subrange(i as int, j as int)) + tokens_from(s@, j as int)
                =~= before + (seq![s@.subrange(i as int, j as int)] + tokens_from(s@, j as int)));
            i = j;
        }
    }
    assert(out@.map_values(|t: String| t@) + tokens_from(s@, i as int) =~= out@.map_values(|t: String| t@));
    out
}


/// Every token is non-empty.
pub proof fn lemma_tokens_nonempty(s: Seq<char>, i: int)
    ensures
        forall|k: int| 0 <= k < tokens_from(s, i).len() ==> (#[trigger] tokens_from(s, i)[k]).len() > 0,
    decreases s.len() - i,
{
    if !(0 <= i < s.len()) {
        assert(tokens_from(s, i).len() == 0);
    } else {
        if is_blank(s[i]) {
            lemma_tokens_nonempty(s, i + 1);
            assert(tokens_from(s, i) == tokens_from(s, i + 1));
        } else {
            let j = blank_from(s, i);
            lemma_blank_from_bounds(s, i + 1);
            if i < j <= s.len() {
                lemma_tokens_nonempty(s, j);
                let t = tokens_from(s, i);
                assert(t == seq![s.subrange(i, j)] + tokens_from(s, j));
                assert(t[0] == s.subrange(i, j));
                assert forall|k: int| 0 <= k < tokens_from(s, i).len() implies (#[trigger] tokens_from(s, i)[k]).len() > 0 by {
                    if k > 0 {
                        assert(tokens_from(s, i)[k] == tokens_from(s, j)[k - 1]);
                    } else {
                        assert(tokens_from(s, i)[k] == s.subrange(i, j));
                    }
                }
            }
        }
    }
}

} // verus!

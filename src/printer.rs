//! Minimal printer for declarations, and the law that parsing inverts it.
use vstd::prelude::*;
use vstd::string::*;
use crate::parser::{
    DeclModel, Declaration, LineFault, has_colon, is_comment, pair_view, parse_line, split_param,
    statement,
};
use crate::text::{
    blank_from, first_from, is_blank, lemma_blank_from_bounds, solid_from, solid_until,
    tokens, tokens_from, trim,
};

verus! {

/// A parameter as a token: `name:Type`.
pub open spec fn param_token(p: (Seq<char>, Seq<char>)) -> Seq<char> {
    p.0 + seq![':'] + p.1
}

/// The parameters, each after one space, then one more space.
pub open spec fn spaced(ps: Seq<(Seq<char>, Seq<char>)>) -> Seq<char>
    decreases ps.len(),
{
    if ps.len() == 0 {
        seq![' ']
    } else {
        seq![' '] + param_token(ps[0]) + spaced(ps.drop_first())
    }
}

/// The line `name a:A b:B ... = Result;` of a declaration.
pub open spec fn print_decl(d: DeclModel) -> Seq<char> {
    d.name + spaced(d.params) + seq!['=', ' '] + d.result + seq![';']
}

/// Characters that may stand anywhere in a printed name or type.
pub open spec fn plain(s: Seq<char>) -> bool {
    forall|i: int| 0 <= i < s.len() ==> !is_blank(#[trigger] s[i]) && s[i] != '=' && s[i] != ';'
}

/// A declaration that prints to a line that parses back to it: a non-empty
/// name that does not start with `//`, no blanks, `=` or `;` anywhere, and
/// no `:` in a parameter name.
pub open spec fn printable(d: DeclModel) -> bool {
    &&& d.name.len() > 0
    &&& !(d.name.len() >= 2 && d.name[0] == '/' && d.name[1] == '/')
    &&& plain(d.name)
    &&& plain(d.result)
    &&& forall|k: int| 0 <= k < d.params.len() ==> {
        &&& plain((#[trigger] d.params[k]).0)
        &&& plain(d.params[k].1)
        &&& forall|i: int| 0 <= i < d.params[k].0.len() ==> d.params[k].0[i] != ':'
    }
}

proof fn lemma_first_exact(s: Seq<char>, c: char, i: int, j: int)
    requires
        0 <= i <= j <= s.len(),
        forall|k: int| i <= k < j ==> s[k] != c,
        j < s.len() ==> s[j] == c,
    ensures
        first_from(s, c, i) == j,
    decreases j - i,
{
    if i < j {
        lemma_first_exact(s, c, i + 1, j);
    }
}

proof fn lemma_blank_exact(s: Seq<char>, i: int, j: int)
    requires
        0 <= i <= j <= s.len(),
        forall|k: int| i <= k < j ==> !is_blank(s[k]),
        j < s.len() ==> is_blank(s[j]),
    ensures
        blank_from(s, i) == j,
    decreases j - i,
{
    if i < j {
        lemma_blank_exact(s, i + 1, j);
    }
}

proof fn lemma_blank_shift(p: Seq<char>, s: Seq<char>, i: int)
    requires
        0 <= i <= s.len(),
    ensures
        blank_from(p + s, p.len() + i) == p.len() + blank_from(s, i),
    decreases s.len() - i,
{
    if i < s.len() && !is_blank(s[i]) {
        assert((p + s)[p.len() + i] == s[i]);
        lemma_blank_shift(p, s, i + 1);
    } else if i < s.len() {
        assert((p + s)[p.len() + i] == s[i]);
    }
}

/// Tokens after a prefix are the tokens of what follows it.
proof fn lemma_tokens_shift(p: Seq<char>, s: Seq<char>, i: int)
    requires
        0 <= i <= s.len(),
    ensures
        tokens_from(p + s, p.len() + i) == tokens_from(s, i),
    decreases s.len() - i,
{
    if i < s.len() {
        assert((p + s)[p.len() + i] == s[i]);
        if is_blank(s[i]) {
            lemma_tokens_shift(p, s, i + 1);
        } else {
            lemma_blank_shift(p, s, i);
            lemma_blank_from_bounds(s, i + 1);
            let j = blank_from(s, i);
            assert((p + s).subrange(p.len() + i, p.len() + j) =~= s.subrange(i, j));
            lemma_tokens_shift(p, s, j);
        }
    }
}

/// A run of non-blanks ended by a blank is one token.
proof fn lemma_tokens_run(s: Seq<char>, j: int)
    requires
        0 < j < s.len(),
        forall|k: int| 0 <= k < j ==> !is_blank(s[k]),
        is_blank(s[j]),
    ensures
        tokens_from(s, 0) == seq![s.subrange(0, j)] + tokens_from(s, j),
{
    lemma_blank_exact(s, 0, j);
}

proof fn lemma_token_plain(p: (Seq<char>, Seq<char>))
    requires
        plain(p.0),
        plain(p.1),
    ensures
        forall|k: int| 0 <= k < param_token(p).len() ==> !is_blank(#[trigger] param_token(p)[k]) && param_token(p)[k] != '='
            && param_token(p)[k] != ';',
{
    assert forall|k: int| 0 <= k < param_token(p).len() implies !is_blank(#[trigger] param_token(p)[k])
        && param_token(p)[k] != '=' && param_token(p)[k] != ';' by {
        if k < p.0.len() {
            assert(param_token(p)[k] == p.0[k]);
        } else if k > p.0.len() {
            assert(param_token(p)[k] == p.1[k - p.0.len() - 1]);
        }
    }
}

/// The spaced parameters split into their tokens, and hold no `=` or `;`.
proof fn lemma_spaced(ps: Seq<(Seq<char>, Seq<char>)>)
    requires
        forall|k: int| 0 <= k < ps.len() ==> plain((#[trigger] ps[k]).0) && plain(ps[k].1),
    ensures
        tokens(spaced(ps)) == ps.map_values(|p: (Seq<char>, Seq<char>)| param_token(p)),
        spaced(ps).len() > 0,
        spaced(ps)[0] == ' ',
        forall|k: int| 0 <= k < spaced(ps).len() ==> #[trigger] spaced(ps)[k] != '=' && spaced(ps)[k] != ';',
    decreases ps.len(),
{
    let s = spaced(ps);
    if ps.len() == 0 {
        assert(tokens_from(s, 1) == Seq::<Seq<char>>::empty());
        assert(ps.map_values(|p: (Seq<char>, Seq<char>)| param_token(p)) =~= Seq::empty());
    } else {
        let t = param_token(ps[0]);
        let rest = spaced(ps.drop_first());
        assert forall|k: int| 0 <= k < ps.drop_first().len() implies plain((#[trigger] ps.drop_first()[k]).0)
            && plain(ps.drop_first()[k].1) by {
            assert(ps.drop_first()[k] == ps[k + 1]);
        }
        lemma_spaced(ps.drop_first());
        lemma_token_plain(ps[0]);
        assert(s =~= seq![' '] + (t + rest));
        let u = t + rest;
        // The leading blank is skipped.
        assert(tokens_from(s, 0) == tokens_from(s, 1));
        lemma_tokens_shift(seq![' '], u, 0);
        assert(tokens_from(s, 1) == tokens_from(u, 0));
        assert(t.len() > 0);
        assert(u[t.len() as int] == rest[0]);
        lemma_tokens_run(u, t.len() as int);
        assert(u.subrange(0, t.len() as int) =~= t);
        lemma_tokens_shift(t, rest, 0);
        assert(ps.map_values(|p: (Seq<char>, Seq<char>)| param_token(p)) =~= seq![t]
            + ps.drop_first().map_values(|p: (Seq<char>, Seq<char>)| param_token(p)));
        assert forall|k: int| 0 <= k < s.len() implies #[trigger] s[k] != '=' && s[k] != ';' by {
            if 1 <= k < 1 + t.len() {
                assert(s[k] == t[k - 1]);
            } else if k >= 1 + t.len() {
                assert(s[k] == rest[k - 1 - t.len()]);
            }
        }
    }
}

/// Parsing is a left inverse of printing: a printable declaration, printed
/// as `name a:A b:B ... = Result;` and parsed again, is the same declaration.
pub proof fn lemma_parse_print(d: DeclModel)
    requires
        printable(d),
    ensures
        parse_line(print_decl(d)) == Ok::<Option<DeclModel>, LineFault>(Some(d)),
{
    let ps = d.params;
    assert forall|k: int| 0 <= k < ps.len() implies plain((#[trigger] ps[k]).0) && plain(ps[k].1) by {}
    lemma_spaced(ps);
    let sp = spaced(ps);
    let left = d.name + sp;
    let st = left + seq!['=', ' '] + d.result;
    let l = st + seq![';'];
    assert(l =~= print_decl(d));
    let e = left.len() as int;
    // No `=` or `;` before the one that the printer wrote.
    assert forall|k: int| 0 <= k < e implies l[k] != '=' && l[k] != ';' && st[k] != '=' by {
        if k < d.name.len() {
            assert(l[k] == d.name[k]);
            assert(st[k] == d.name[k]);
        } else {
            assert(l[k] == sp[k - d.name.len()]);
            assert(st[k] == sp[k - d.name.len()]);
        }
    }
    assert forall|k: int| 0 <= k < st.len() implies l[k] != ';' by {
        if k >= e + 2 {
            assert(l[k] == d.result[k - e - 2]);
        }
    }
    assert(l[0] == d.name[0]);
    if d.name.len() >= 2 {
        assert(l[1] == d.name[1]);
    } else {
        assert(l[1] == sp[0]);
    }
    assert(!is_comment(l));
    lemma_first_exact(l, '=', 0, e);
    lemma_first_exact(l, ';', 0, st.len() as int);
    assert(statement(l) =~= st);
    lemma_first_exact(st, '=', 0, e);
    // The left side tokenizes into the name, then the parameter tokens.
    assert(st.take(e) =~= left);
    assert(left[d.name.len() as int] == ' ');
    lemma_tokens_run(left, d.name.len() as int);
    assert(left.subrange(0, d.name.len() as int) =~= d.name);
    lemma_tokens_shift(d.name, sp, 0);
    let toks = tokens(left);
    let pt = ps.map_values(|p: (Seq<char>, Seq<char>)| param_token(p));
    assert(toks == seq![d.name] + pt);
    assert(toks.drop_first() =~= pt);
    // Each token splits back at its colon.
    assert forall|k: int| 0 <= k < pt.len() implies has_colon(#[trigger] pt[k]) && split_param(pt[k]) == ps[k] by {
        let p = ps[k];
        assert(pt[k] == param_token(p));
        assert forall|i: int| 0 <= i < p.0.len() implies pt[k][i] != ':' by {
            assert(pt[k][i] == p.0[i]);
        }
        lemma_first_exact(pt[k], ':', 0, p.0.len() as int);
        assert(pt[k].take(p.0.len() as int) =~= p.0);
        assert(pt[k].skip(p.0.len() as int + 1) =~= p.1);
    }
    assert(pt.map_values(|t: Seq<char>| split_param(t)) =~= ps);
    // The right side, trimmed, is the result.
    let right = st.skip(e + 1);
    assert(right =~= seq![' '] + d.result);
    assert(solid_from(right, 1) == 1);
    assert(solid_from(right, 0) == 1);
    if d.result.len() > 0 {
        assert(solid_until(right, right.len() as int) == right.len());
    } else {
        assert(solid_until(right, 0) == 0);
        assert(solid_until(right, 1) == 0);
    }
    assert(trim(right) =~= d.result);
}

/// Prints a declaration as `name a:A b:B ... = Result;`.
pub fn print_fun(d: &Declaration) -> (r: String)
    ensures
        r@ == print_decl(d@),
{
    proof {
        reveal_strlit(" ");
        reveal_strlit(":");
        reveal_strlit("= ");
        reveal_strlit(";");
        assert(" "@ =~= seq![' ']);
        assert(":"@ =~= seq![':']);
        assert("= "@ =~= seq!['=', ' ']);
        assert(";"@ =~= seq![';']);
    }
    let ghost ps = d@.params;
    let mut tail = String::from_str(" ");
    assert(tail@ =~= spaced(ps.skip(ps.len() as int)));
    let mut k: usize = d.params.len();
    while k > 0
        invariant
            ps == d@.params,
            k <= ps.len(),
            tail@ == spaced(ps.skip(k as int)),
            " "@ == seq![' '],
            ":"@ == seq![':'],
        decreases k,
    {
        k = k - 1;
        let p = &d.params[k];
        assert(ps[k as int] == pair_view(*p));
        let mut s = String::from_str(" ");
        s.append(p.0.as_str());
        s.append(":");
        s.append(p.1.as_str());
        s.append(tail.as_str());
        assert(ps.skip(k as int).drop_first() =~= ps.skip(k + 1));
        assert(ps.skip(k as int)[0] == ps[k as int]);
        assert(spaced(ps.skip(k as int)) == seq![' '] + param_token(ps[k as int]) + spaced(ps.skip(k + 1)));
        assert(s@ =~= spaced(ps.skip(k as int)));
        tail = s;
    }
    assert(ps.skip(0) =~= ps);
    let mut r = String::from_str(d.name.as_str());
    r.append(tail.as_str());
    r.append("= ");
    r.append(d.result.as_str());
    r.append(";");
    r
}

} // verus!

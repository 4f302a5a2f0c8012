//! Schema parser: turns schema lines into declaration records.
use vstd::prelude::*;
use vstd::string::*;
use crate::naming::{name_for_variant, variant_label};
use crate::text::{lemma_tokens_nonempty, same_text, find_char, first_of, split_tokens, tokens, trim, trim_blanks};

verus! {

/// A declaration as plain sequences: name, typed parameters, result type.
pub struct DeclModel {
    pub name: Seq<char>,
    pub params: Seq<(Seq<char>, Seq<char>)>,
    pub result: Seq<char>,
}

/// One parsed schema line: `name a:A b:B ... = Result;`.
pub struct Declaration {
    pub name: String,
    pub params: Vec<(String, String)>,
    pub result: String,
}

pub open spec fn pair_view(p: (String, String)) -> (Seq<char>, Seq<char>) {
    (p.0@, p.1@)
}

impl View for Declaration {
    type V = DeclModel;

    open spec fn view(&self) -> DeclModel {
        DeclModel {
            name: self.name@,
            params: self.params@.map_values(|p: (String, String)| pair_view(p)),
            result: self.result@,
        }
    }
}

/// Why a schema line is malformed.
#[derive(Clone, Copy, Debug, PartialEq, Eq, Structural)]
pub enum LineFault {
    /// The statement before `;` has no `=`.
    MissingEquals,
    /// A parameter token has no `:`.
    MissingColon,
    /// Nothing stands before the `=`.
    MissingName,
    /// Two constructors of one result type get the same variant label.
    LabelClash,
    /// The name is already declared earlier in the same section.
    DuplicateName,
}

/// A parameter token split at its first `:`.
pub open spec fn split_param(t: Seq<char>) -> (Seq<char>, Seq<char>) {
    let k = first_of(t, ':');
    (t.take(k), t.skip(k + 1))
}

/// Whether a parameter token has a `:`.
pub open spec fn has_colon(t: Seq<char>) -> bool {
    first_of(t, ':') < t.len()
}

/// Whether `l` is a comment line.
pub open spec fn is_comment(l: Seq<char>) -> bool {
    l.len() >= 2 && l[0] == '/' && l[1] == '/'
}

/// The part of `l` before its first `;`.
pub open spec fn statement(l: Seq<char>) -> Seq<char> {
    l.take(first_of(l, ';'))
}

/// What one schema line holds: nothing (a comment, or no `=` at all), a
/// declaration, or a fault.
pub open spec fn parse_line(l: Seq<char>) -> Result<Option<DeclModel>, LineFault> {
    if is_comment(l) || first_of(l, '=') >= l.len() {
        Ok(None)
    } else {
        let st = statement(l);
        let e = first_of(st, '=');
        if e >= st.len() {
            Err(LineFault::MissingEquals)
        } else {
            let toks = tokens(st.take(e));
            let ps = toks.drop_first();
            if toks.len() == 0 {
                Err(LineFault::MissingName)
            } else if exists|k: int| 0 <= k < ps.len() && !has_colon(#[trigger] ps[k]) {
                Err(LineFault::MissingColon)
            } else {
                Ok(
                    Some(
                        DeclModel {
                            name: toks[0],
                            params: ps.map_values(|t: Seq<char>| split_param(t)),
                            result: trim(st.skip(e + 1)),
                        },
                    ),
                )
            }
        }
    }
}

/// Splits a parameter token at its first `:`, or `None` when it has none.
pub fn parse_param(t: &str) -> (r: Option<(String, String)>)
    ensures
        r is None <==> !has_colon(t@),
        r matches Some(p) ==> pair_view(p) == split_param(t@),
{
    let n = t.unicode_len();
    let k = find_char(t, ':', 0);
    if k >= n {
        None
    } else {
        let name = String::from_str(t.substring_char(0, k));
        let ty = String::from_str(t.substring_char(k + 1, n));
        assert(t@.subrange(0, k as int) =~= t@.take(k as int));
        assert(t@.subrange(k + 1, n as int) =~= t@.skip(k + 1));
        Some((name, ty))
    }
}

/// Parses one schema line.
pub fn parse_fun(l: &str) -> (r: Result<Option<Declaration>, LineFault>)
    ensures
        r matches Ok(Some(d)) ==> parse_line(l@) == Ok::<Option<DeclModel>, LineFault>(Some(d@)),
        r matches Ok(None) ==> parse_line(l@) == Ok::<Option<DeclModel>, LineFault>(None),
        r matches Err(f) ==> parse_line(l@) == Err::<Option<DeclModel>, LineFault>(f),
{
    let n = l.unicode_len();
    if n >= 2 && l.get_char(0) == '/' && l.get_char(1) == '/' {
        return Ok(None);
    }
    if find_char(l, '=', 0) >= n {
        return Ok(None);
    }
    let semi = find_char(l, ';', 0);
    let st = l.substring_char(0, semi);
    assert(st@ =~= statement(l@));
    let m = st.unicode_len();
    let e = find_char(st, '=', 0);
    if e >= m {
        return Err(LineFault::MissingEquals);
    }
    let left = st.substring_char(0, e);
    let right = st.substring_char(e + 1, m);
    assert(left@ =~= st@.take(e as int));
    assert(right@ =~= st@.skip(e + 1));
    let toks = split_tokens(left);
    let ghost tv = toks@.map_values(|t: String| t@);
    let result = trim_blanks(right);
    if toks.len() == 0 {
        return Err(LineFault::MissingName);
    }
    assert(tv[0] == toks@[0]@);
    let name = toks[0].clone();
    let mut params: Vec<(String, String)> = Vec::new();
    let mut i: usize = 1;
    while i < toks.len()
        invariant
            tv == toks@.map_values(|t: String| t@),
            tv == tokens(left@),
            left@ == statement(l@).take(first_of(statement(l@), '=')),
            !is_comment(l@),
            first_of(l@, '=') < l@.len(),
            first_of(statement(l@), '=') < statement(l@).len(),
            1 <= i <= toks.len(),
            params@.len() == i - 1,
            forall|k: int| 0 <= k < i - 1 ==> has_colon(#[trigger] tv.drop_first()[k]),
            forall|k: int| 0 <= k < i - 1 ==> pair_view(#[trigger] params@[k]) == split_param(tv.drop_first()[k]),
        decreases toks.len() - i,
    {
        assert(tv.drop_first()[i - 1] == toks@[i as int]@);
        match parse_param(toks[i].as_str()) {
            None => {
                assert(!has_colon(tv.drop_first()[i - 1]));
                return Err(LineFault::MissingColon);
            },
            Some(p) => {
                params.push(p);
            },
        }
        i = i + 1;
    }
    let d = Declaration { name, params, result };
    assert(d@.params =~= tv.drop_first().map_values(|t: Seq<char>| split_param(t)));
    Ok(Some(d))
}


/// The parsed schema: type constructors and function declarations, in order.
pub struct Schema {
    pub constructors: Vec<Declaration>,
    pub functions: Vec<Declaration>,
}

/// A malformed schema line: its index among the lines, and what is wrong.
#[derive(Clone, Copy, Debug, PartialEq, Eq, Structural)]
pub struct SchemaError {
    pub line: usize,
    pub fault: LineFault,
}

pub open spec fn decls_view(v: Seq<Declaration>) -> Seq<DeclModel> {
    v.map_values(|d: Declaration| d@)
}

pub open spec fn lines_view(v: Seq<String>) -> Seq<Seq<char>> {
    v.map_values(|s: String| s@)
}

/// Whether a constructor among `cs` with the result of `d` has the variant
/// label that `d` would have in that result's sum type.
pub open spec fn label_taken(cs: Seq<DeclModel>, d: DeclModel) -> bool {
    exists|k: int|
        0 <= k < cs.len() && (#[trigger] cs[k]).result == d.result && variant_label(cs[k].name, d.result)
            == variant_label(d.name, d.result)
}

/// Whether a constructor among `cs` with the result of `d` has the variant
/// label that `d` would have in that result's sum type.
pub fn find_label(cs: &Vec<Declaration>, d: &Declaration) -> (r: bool)
    ensures
        r == label_taken(decls_view(cs@), d@),
{
    let label = name_for_variant(d.name.as_str(), d.result.as_str());
    let mut k: usize = 0;
    while k < cs.len()
        invariant
            k <= cs@.len(),
            label@ == variant_label(d@.name, d@.result),
            forall|j: int|
                0 <= j < k ==> !((#[trigger] decls_view(cs@)[j]).result == d@.result && variant_label(
                    decls_view(cs@)[j].name,
                    d@.result,
                ) == variant_label(d@.name, d@.result)),
        decreases cs.len() - k,
    {
        assert(decls_view(cs@)[k as int] == cs@[k as int]@);
        if cs[k].result == d.result && name_for_variant(cs[k].name.as_str(), d.result.as_str()) == label {
            return true;
        }
        k = k + 1;
    }
    false
}

/// Whether one of `ds` is named `n`.
pub open spec fn declares(ds: Seq<DeclModel>, n: Seq<char>) -> bool {
    exists|k: int| 0 <= k < ds.len() && (#[trigger] ds[k]).name == n
}

/// Whether one of `ds` is named `n`.
pub fn find_name(ds: &Vec<Declaration>, n: &String) -> (r: bool)
    ensures
        r == declares(decls_view(ds@), n@),
{
    let mut k: usize = 0;
    while k < ds.len()
        invariant
            k <= ds@.len(),
            forall|j: int| 0 <= j < k ==> (#[trigger] decls_view(ds@)[j]).name != n@,
        decreases ds.len() - k,
    {
        assert(decls_view(ds@)[k as int] == ds@[k as int]@);
        if ds[k].name == *n {
            return true;
        }
        k = k + 1;
    }
    false
}

/// Whether declarations after lines `ls` belong to the types section.
pub open spec fn in_types_after(ls: Seq<Seq<char>>) -> bool
    decreases ls.len(),
{
    if ls.len() == 0 {
        true
    } else if ls.last() == "---functions---"@ {
        false
    } else if ls.last() == "---types---"@ {
        true
    } else {
        in_types_after(ls.drop_last())
    }
}

/// The constructors and functions that the lines `ls` declare, or the index
/// and fault of the first malformed line.
pub open spec fn parse_lines(ls: Seq<Seq<char>>) -> Result<(Seq<DeclModel>, Seq<DeclModel>), (int, LineFault)>
    decreases ls.len(),
{
    if ls.len() == 0 {
        Ok((Seq::empty(), Seq::empty()))
    } else {
        match parse_lines(ls.drop_last()) {
            Err(e) => Err(e),
            Ok((cs, fs)) => match parse_line(ls.last()) {
                Err(f) => Err((ls.len() - 1, f)),
                Ok(None) => Ok((cs, fs)),
                Ok(Some(d)) => if in_types_after(ls) {
                    if declares(cs, d.name) {
                        Err((ls.len() - 1, LineFault::DuplicateName))
                    } else if label_taken(cs, d) {
                        Err((ls.len() - 1, LineFault::LabelClash))
                    } else {
                        Ok((cs.push(d), fs))
                    }
                } else {
                    if declares(fs, d.name) {
                        Err((ls.len() - 1, LineFault::DuplicateName))
                    } else {
                        Ok((cs, fs.push(d)))
                    }
                },
            },
        }
    }
}

/// A fault among the first `k` lines is the fault of the whole schema.
pub proof fn lemma_fault_prefix(ls: Seq<Seq<char>>, k: int)
    requires
        0 <= k <= ls.len(),
        parse_lines(ls.take(k)) is Err,
    ensures
        parse_lines(ls) == parse_lines(ls.take(k)),
    decreases ls.len() - k,
{
    if k < ls.len() {
        assert(ls.take(k + 1).drop_last() =~= ls.take(k));
        lemma_fault_prefix(ls, k + 1);
    } else {
        assert(ls.take(k) =~= ls);
    }
}

/// Parses schema lines into constructors and functions; the
/// `---functions---` and `---types---` lines switch between the two lists.
pub fn parse_schema(lines: &Vec<String>) -> (r: Result<Schema, SchemaError>)
    ensures
        r matches Ok(s) ==> parse_lines(lines_view(lines@)) == Ok::<(Seq<DeclModel>, Seq<DeclModel>), (int, LineFault)>(
            (decls_view(s.constructors@), decls_view(s.functions@)),
        ),
        r matches Err(e) ==> parse_lines(lines_view(lines@)) == Err::<(Seq<DeclModel>, Seq<DeclModel>), (int, LineFault)>(
            (e.line as int, e.fault),
        ),
{
    let ghost ls = lines_view(lines@);
    let mut constructors: Vec<Declaration> = Vec::new();
    let mut functions: Vec<Declaration> = Vec::new();
    let mut in_types = true;
    let mut i: usize = 0;
    assert(decls_view(constructors@) =~= Seq::empty());
    assert(decls_view(functions@) =~= Seq::empty());
    assert(ls.take(0) =~= Seq::empty());
    while i < lines.len()
        invariant
            ls == lines_view(lines@),
            i <= lines.len(),
            in_types == in_types_after(ls.take(i as int)),
            parse_lines(ls.take(i as int)) == Ok::<(Seq<DeclModel>, Seq<DeclModel>), (int, LineFault)>(
                (decls_view(constructors@), decls_view(functions@)),
            ),
        decreases lines.len() - i,
    {
        let l = lines[i].as_str();
        assert(ls.take(i + 1).drop_last() =~= ls.take(i as int));
        assert(ls.take(i + 1).last() == l@);
        if same_text(l, "---functions---") {
            in_types = false;
        } else if same_text(l, "---types---") {
            in_types = true;
        }
        match parse_fun(l) {
            Err(fault) => {
                proof {
                    lemma_fault_prefix(ls, i + 1);
                }
                return Err(SchemaError { line: i, fault });
            },
            Ok(None) => {},
            Ok(Some(d)) => {
                let ghost dv = d@;
                if in_types {
                    if find_name(&constructors, &d.name) {
                        proof {
                            lemma_fault_prefix(ls, i + 1);
                        }
                        return Err(SchemaError { line: i, fault: LineFault::DuplicateName });
                    }
                    if find_label(&constructors, &d) {
                        proof {
                            lemma_fault_prefix(ls, i + 1);
                        }
                        return Err(SchemaError { line: i, fault: LineFault::LabelClash });
                    }
                    let ghost before = decls_view(constructors@);
                    constructors.push(d);
                    assert(decls_view(constructors@) =~= before.push(dv));
                } else {
                    if find_name(&functions, &d.name) {
                        proof {
                            lemma_fault_prefix(ls, i + 1);
                        }
                        return Err(SchemaError { line: i, fault: LineFault::DuplicateName });
                    }
                    let ghost before = decls_view(functions@);
                    functions.push(d);
                    assert(decls_view(functions@) =~= before.push(dv));
                }
            },
        }
        i = i + 1;
    }
    assert(ls.take(i as int) =~= ls);
    Ok(Schema { constructors, functions })
}


/// Section toggling: a declaration on line `k` is filed among the
/// constructors when the last section marker up to that line is
/// `---types---` or there is none, and among the functions when it is
/// `---functions---`, in whatever order the sections come.
pub proof fn lemma_sections(ls: Seq<Seq<char>>, k: int, d: DeclModel)
    requires
        0 <= k < ls.len(),
        parse_line(ls[k]) == Ok::<Option<DeclModel>, LineFault>(Some(d)),
    ensures
        parse_lines(ls) matches Ok((cs, fs)) ==> {
            &&& in_types_after(ls.take(k + 1)) ==> cs.contains(d)
            &&& !in_types_after(ls.take(k + 1)) ==> fs.contains(d)
        },
    decreases ls.len(),
{
    let pre = ls.drop_last();
    if ls.len() == k + 1 {
        assert(ls.take(k + 1) =~= ls);
        if let Ok((cs, fs)) = parse_lines(ls) {
            if in_types_after(ls) {
                assert(cs[cs.len() - 1] == d);
            } else {
                assert(fs[fs.len() - 1] == d);
            }
        }
    } else {
        assert(pre[k] == ls[k]);
        assert(pre.take(k + 1) =~= ls.take(k + 1));
        lemma_sections(pre, k, d);
        if let Ok((cs, fs)) = parse_lines(ls) {
            if let Ok((cs0, fs0)) = parse_lines(pre) {
                if in_types_after(ls.take(k + 1)) {
                    let i = choose|i: int| 0 <= i < cs0.len() && cs0[i] == d;
                    assert(cs[i] == d);
                } else {
                    let i = choose|i: int| 0 <= i < fs0.len() && fs0[i] == d;
                    assert(fs[i] == d);
                }
            }
        }
    }
}

/// In a parsed schema no two constructors of one result type share a
/// variant label, and every constructor has a non-empty name.
pub proof fn lemma_labels_distinct(ls: Seq<Seq<char>>)
    ensures
        parse_lines(ls) matches Ok((cs, fs)) ==> {
            &&& forall|i: int, j: int|
                #![trigger cs[i], cs[j]]
                0 <= i < j < cs.len() && cs[i].result == cs[j].result ==> variant_label(cs[i].name, cs[i].result)
                    != variant_label(cs[j].name, cs[j].result)
            &&& forall|i: int| 0 <= i < cs.len() ==> (#[trigger] cs[i]).name.len() > 0
        },
    decreases ls.len(),
{
    if ls.len() > 0 {
        let pre = ls.drop_last();
        lemma_labels_distinct(pre);
        if let Ok((cs, fs)) = parse_lines(ls) {
            if let Ok((cs0, fs0)) = parse_lines(pre) {
                if cs.len() > cs0.len() {
                    let d = cs[cs.len() - 1];
                    assert(cs =~= cs0.push(d));
                    assert(!label_taken(cs0, d));
                    let l = ls.last();
                    lemma_tokens_nonempty(statement(l).take(first_of(statement(l), '=')), 0);
                    assert forall|i: int, j: int|
                        #![trigger cs[i], cs[j]]
                        0 <= i < j < cs.len() && cs[i].result == cs[j].result implies variant_label(
                            cs[i].name,
                            cs[i].result,
                        ) != variant_label(cs[j].name, cs[j].result) by {
                        assert(cs[i] == cs0[i]);
                        if j < cs0.len() {
                            assert(cs[j] == cs0[j]);
                        }
                    }
                    assert forall|i: int| 0 <= i < cs.len() implies (#[trigger] cs[i]).name.len() > 0 by {
                        if i < cs0.len() {
                            assert(cs[i] == cs0[i]);
                        }
                    }
                } else {
                    assert(cs =~= cs0);
                }
            }
        }
    }
}

} // verus!

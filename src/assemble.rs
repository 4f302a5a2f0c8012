//! Assembles the whole generated module: aliases, sum types, records,
//! upcast conversions and the two root unions.
use vstd::prelude::*;
use vstd::string::*;
use crate::emit::{
    fields_of, is_native, is_native_name, leaf_text, native_table, natives_text,
    plan_fields, render_leaf, render_natives, render_union, union_text,
};
use crate::graph::{
    TypeGraph, build_graph, ctor_parent, function_union, is_abstract_in, members, names_view,
    object_union, results,
};
use crate::naming::{capitalize, name_for_variant, uppercase_first_letter, variant_label};
use crate::parser::{DeclModel, Declaration, LineFault, SchemaError, decls_view, lines_view, parse_lines, parse_schema};

verus! {

/// The parent union of declaration `d`: functions join the function union,
/// constructors go by `ctor_parent`.
pub open spec fn decl_parent(cs: Seq<DeclModel>, d: DeclModel, func: bool) -> Seq<char> {
    if func {
        function_union()
    } else {
        ctor_parent(cs, d)
    }
}

/// A declaration gets a record unless it or its parent is a primitive.
pub open spec fn kept(cs: Seq<DeclModel>, d: DeclModel, func: bool) -> bool {
    !is_native_name(d.name) && !is_native_name(decl_parent(cs, d, func))
}

/// The records of the kept declarations among `ds`.
pub open spec fn leaves_text(cs: Seq<DeclModel>, ds: Seq<DeclModel>, func: bool) -> Seq<char>
    decreases ds.len(),
{
    if ds.len() == 0 {
        Seq::empty()
    } else {
        let d = ds.last();
        leaves_text(cs, ds.drop_last(), func) + if kept(cs, d, func) {
            leaf_text(d.name, fields_of(cs, decl_parent(cs, d, func), d.params))
        } else {
            Seq::empty()
        }
    }
}

/// The conversion of type `ty` into its parent union `parent`.
pub open spec fn from_text(ty: Seq<char>, parent: Seq<char>) -> Seq<char> {
    let u = capitalize(ty);
    "impl From<"@ + u + "> for "@ + parent + " {\n    fn from(x: "@ + u + ") -> Self {\n        "@ + parent + "::"@
        + variant_label(ty, parent) + "(x)\n    }\n}\n\n"@
}

/// The conversions of the kept declarations among `ds`.
pub open spec fn froms_text(cs: Seq<DeclModel>, ds: Seq<DeclModel>, func: bool) -> Seq<char>
    decreases ds.len(),
{
    if ds.len() == 0 {
        Seq::empty()
    } else {
        let d = ds.last();
        froms_text(cs, ds.drop_last(), func) + if kept(cs, d, func) {
            from_text(d.name, decl_parent(cs, d, func))
        } else {
            Seq::empty()
        }
    }
}

/// The sum types of the abstract, non-primitive result types among `rs`.
pub open spec fn sums_text(cs: Seq<DeclModel>, rs: Seq<Seq<char>>) -> Seq<char>
    decreases rs.len(),
{
    if rs.len() == 0 {
        Seq::empty()
    } else {
        let r = rs.last();
        sums_text(cs, rs.drop_last()) + if is_abstract_in(cs, r) && !is_native_name(r) {
            union_text(r, members(cs, r))
        } else {
            Seq::empty()
        }
    }
}

/// The abstract result types among `rs`.
pub open spec fn abstract_names(cs: Seq<DeclModel>, rs: Seq<Seq<char>>) -> Seq<Seq<char>>
    decreases rs.len(),
{
    if rs.len() == 0 {
        Seq::empty()
    } else if is_abstract_in(cs, rs.last()) {
        abstract_names(cs, rs.drop_last()).push(rs.last())
    } else {
        abstract_names(cs, rs.drop_last())
    }
}

/// The conversions of the abstract types `ns` into the object union.
pub open spec fn abstract_froms_text(ns: Seq<Seq<char>>) -> Seq<char>
    decreases ns.len(),
{
    if ns.len() == 0 {
        Seq::empty()
    } else {
        abstract_froms_text(ns.drop_last()) + from_text(ns.last(), object_union())
    }
}

/// The names of the kept declarations among `ds` whose parent is `root`.
pub open spec fn root_names(cs: Seq<DeclModel>, ds: Seq<DeclModel>, func: bool, root: Seq<char>) -> Seq<Seq<char>>
    decreases ds.len(),
{
    if ds.len() == 0 {
        Seq::empty()
    } else if kept(cs, ds.last(), func) && decl_parent(cs, ds.last(), func) == root {
        root_names(cs, ds.drop_last(), func, root).push(ds.last().name)
    } else {
        root_names(cs, ds.drop_last(), func, root)
    }
}

/// The short-name aliases of the kept declarations among `ds`.
pub open spec fn aliases_text(cs: Seq<DeclModel>, ds: Seq<DeclModel>, func: bool) -> Seq<char>
    decreases ds.len(),
{
    if ds.len() == 0 {
        Seq::empty()
    } else {
        let d = ds.last();
        aliases_text(cs, ds.drop_last(), func) + if kept(cs, d, func) {
            "type "@ + d.name + " = "@ + capitalize(d.name) + ";\n\n"@
        } else {
            Seq::empty()
        }
    }
}

/// The generated module for constructors `cs` and functions `fs`.
pub open spec fn generated(cs: Seq<DeclModel>, fs: Seq<DeclModel>) -> Seq<char> {
    let abs = abstract_names(cs, results(cs));
    "use serde::{Deserialize, Serialize};\n\n"@ + natives_text(native_table()) + "\n"@ + sums_text(cs, results(cs))
        + leaves_text(cs, cs, false) + leaves_text(cs, fs, true) + froms_text(cs, cs, false)
        + froms_text(cs, fs, true) + abstract_froms_text(abs)
        + union_text(object_union(), root_names(cs, cs, false, object_union()) + abs)
        + union_text(function_union(), root_names(cs, fs, true, function_union()))
        + aliases_text(cs, cs, false) + aliases_text(cs, fs, true)
}

/// The generated module for a schema, or the first malformed line.
pub open spec fn generate_spec(ls: Seq<Seq<char>>) -> Result<Seq<char>, (int, LineFault)> {
    match parse_lines(ls) {
        Ok((cs, fs)) => Ok(generated(cs, fs)),
        Err(e) => Err(e),
    }
}


/// The parent union of declaration `d`.
pub fn parent_of(g: &TypeGraph, d: &Declaration, func: bool) -> (p: String)
    requires
        g.wf(),
    ensures
        p@ == decl_parent(g.decls@, d@, func),
{
    if func {
        String::from_str("TLFunction")
    } else {
        g.parent_of_constructor(d)
    }
}

/// Whether a declaration named `name` with parent `parent` gets a record.
pub fn keeps(name: &str, parent: &str) -> (r: bool)
    ensures
        r == (!is_native_name(name@) && !is_native_name(parent@)),
{
    !is_native(name) && !is_native(parent)
}

/// The records of the kept declarations among `ds`.
pub fn render_leaves(g: &TypeGraph, ds: &Vec<Declaration>, func: bool) -> (r: String)
    requires
        g.wf(),
    ensures
        r@ == leaves_text(g.decls@, decls_view(ds@), func),
{
    let ghost dv = decls_view(ds@);
    let ghost cs = g.decls@;
    let mut r = String::new();
    let mut k: usize = 0;
    while k < ds.len()
        invariant
            g.wf(),
            cs == g.decls@,
            dv == decls_view(ds@),
            k <= ds@.len(),
            r@ == leaves_text(cs, dv.take(k as int), func),
        decreases ds.len() - k,
    {
        let d = &ds[k];
        assert(dv.take(k + 1).drop_last() =~= dv.take(k as int));
        assert(dv.take(k + 1).last() == d@);
        let p = parent_of(g, d, func);
        if keeps(d.name.as_str(), p.as_str()) {
            let fs = plan_fields(g, d, p.as_str());
            let leaf = render_leaf(d.name.as_str(), &fs);
            r.append(leaf.as_str());
        }
        k = k + 1;
    }
    assert(dv.take(k as int) =~= dv);
    r
}

/// The conversion of type `ty` into its parent union `parent`.
pub fn render_from(ty: &str, parent: &str) -> (r: String)
    ensures
        r@ == from_text(ty@, parent@),
{
    let u = uppercase_first_letter(ty);
    let label = name_for_variant(ty, parent);
    let mut r = String::from_str("impl From<");
    r.append(u.as_str());
    r.append("> for ");
    r.append(parent);
    r.append(" {\n    fn from(x: ");
    r.append(u.as_str());
    r.append(") -> Self {\n        ");
    r.append(parent);
    r.append("::");
    r.append(label.as_str());
    r.append("(x)\n    }\n}\n\n");
    r
}

/// The conversions of the kept declarations among `ds`.
pub fn render_froms(g: &TypeGraph, ds: &Vec<Declaration>, func: bool) -> (r: String)
    requires
        g.wf(),
    ensures
        r@ == froms_text(g.decls@, decls_view(ds@), func),
{
    let ghost dv = decls_view(ds@);
    let ghost cs = g.decls@;
    let mut r = String::new();
    let mut k: usize = 0;
    while k < ds.len()
        invariant
            g.wf(),
            cs == g.decls@,
            dv == decls_view(ds@),
            k <= ds@.len(),
            r@ == froms_text(cs, dv.take(k as int), func),
        decreases ds.len() - k,
    {
        let d = &ds[k];
        assert(dv.take(k + 1).drop_last() =~= dv.take(k as int));
        assert(dv.take(k + 1).last() == d@);
        let p = parent_of(g, d, func);
        if keeps(d.name.as_str(), p.as_str()) {
            let conv = render_from(d.name.as_str(), p.as_str());
            r.append(conv.as_str());
        }
        k = k + 1;
    }
    assert(dv.take(k as int) =~= dv);
    r
}

/// The aliases of the kept declarations among `ds`.
pub fn render_aliases(g: &TypeGraph, ds: &Vec<Declaration>, func: bool) -> (r: String)
    requires
        g.wf(),
    ensures
        r@ == aliases_text(g.decls@, decls_view(ds@), func),
{
    let ghost dv = decls_view(ds@);
    let ghost cs = g.decls@;
    let mut r = String::new();
    let mut k: usize = 0;
    while k < ds.len()
        invariant
            g.wf(),
            cs == g.decls@,
            dv == decls_view(ds@),
            k <= ds@.len(),
            r@ == aliases_text(cs, dv.take(k as int), func),
        decreases ds.len() - k,
    {
        let d = &ds[k];
        assert(dv.take(k + 1).drop_last() =~= dv.take(k as int));
        assert(dv.take(k + 1).last() == d@);
        let p = parent_of(g, d, func);
        if keeps(d.name.as_str(), p.as_str()) {
            let u = uppercase_first_letter(d.name.as_str());
            r.append("type ");
            r.append(d.name.as_str());
            r.append(" = ");
            r.append(u.as_str());
            r.append(";\n\n");
        }
        k = k + 1;
    }
    assert(dv.take(k as int) =~= dv);
    r
}

/// The names of the kept declarations among `ds` whose parent is `root`.
pub fn root_list(g: &TypeGraph, ds: &Vec<Declaration>, func: bool, root: &str) -> (r: Vec<String>)
    requires
        g.wf(),
    ensures
        names_view(r@) == root_names(g.decls@, decls_view(ds@), func, root@),
{
    let ghost dv = decls_view(ds@);
    let ghost cs = g.decls@;
    let mut r: Vec<String> = Vec::new();
    let mut k: usize = 0;
    assert(names_view(r@) =~= Seq::empty());
    while k < ds.len()
        invariant
            g.wf(),
            cs == g.decls@,
            dv == decls_view(ds@),
            k <= ds@.len(),
            names_view(r@) == root_names(cs, dv.take(k as int), func, root@),
        decreases ds.len() - k,
    {
        let d = &ds[k];
        assert(dv.take(k + 1).drop_last() =~= dv.take(k as int));
        assert(dv.take(k + 1).last() == d@);
        let p = parent_of(g, d, func);
        if keeps(d.name.as_str(), p.as_str()) && crate::text::same_text(p.as_str(), root) {
            let ghost before = names_view(r@);
            r.push(d.name.clone());
            assert(names_view(r@) =~= before.push(d@.name));
        }
        k = k + 1;
    }
    assert(dv.take(k as int) =~= dv);
    r
}

/// The sum types of the abstract, non-primitive result types.
pub fn render_sums(g: &TypeGraph) -> (r: String)
    requires
        g.wf(),
    ensures
        r@ == sums_text(g.decls@, results(g.decls@)),
{
    let ghost cs = g.decls@;
    let ghost rs = results(cs);
    let mut r = String::new();
    let mut k: usize = 0;
    while k < g.groups.len()
        invariant
            g.wf(),
            cs == g.decls@,
            rs == results(cs),
            k <= g.groups@.len(),
            r@ == sums_text(cs, rs.take(k as int)),
        decreases g.groups.len() - k,
    {
        let grp = &g.groups[k];
        assert(rs.take(k + 1).drop_last() =~= rs.take(k as int));
        assert(rs.take(k + 1).last() == grp.result@);
        assert(names_view(grp.members@) == members(cs, rs[k as int]));
        if grp.members.len() > 1 && !is_native(grp.result.as_str()) {
            let u = render_union(grp.result.as_str(), &grp.members);
            r.append(u.as_str());
        }
        k = k + 1;
    }
    assert(rs.take(k as int) =~= rs);
    r
}

/// The abstract result types, in order of first appearance.
pub fn abstract_list(g: &TypeGraph) -> (r: Vec<String>)
    requires
        g.wf(),
    ensures
        names_view(r@) == abstract_names(g.decls@, results(g.decls@)),
{
    let ghost cs = g.decls@;
    let ghost rs = results(cs);
    let mut r: Vec<String> = Vec::new();
    let mut k: usize = 0;
    assert(names_view(r@) =~= Seq::empty());
    while k < g.groups.len()
        invariant
            g.wf(),
            cs == g.decls@,
            rs == results(cs),
            k <= g.groups@.len(),
            names_view(r@) == abstract_names(cs, rs.take(k as int)),
        decreases g.groups.len() - k,
    {
        let grp = &g.groups[k];
        assert(rs.take(k + 1).drop_last() =~= rs.take(k as int));
        assert(rs.take(k + 1).last() == grp.result@);
        assert(names_view(grp.members@) == members(cs, rs[k as int]));
        if grp.members.len() > 1 {
            let ghost before = names_view(r@);
            r.push(grp.result.clone());
            assert(names_view(r@) =~= before.push(grp.result@));
        }
        k = k + 1;
    }
    assert(rs.take(k as int) =~= rs);
    r
}

/// The conversions of the abstract types `ns` into the object union.
pub fn render_abstract_froms(ns: &Vec<String>) -> (r: String)
    ensures
        r@ == abstract_froms_text(names_view(ns@)),
{
    let ghost nv = names_view(ns@);
    let mut r = String::new();
    let mut k: usize = 0;
    while k < ns.len()
        invariant
            nv == names_view(ns@),
            k <= ns@.len(),
            r@ == abstract_froms_text(nv.take(k as int)),
        decreases ns.len() - k,
    {
        assert(nv.take(k + 1).drop_last() =~= nv.take(k as int));
        assert(nv.take(k + 1).last() == ns@[k as int]@);
        let conv = render_from(ns[k].as_str(), "TLObject");
        r.append(conv.as_str());
        k = k + 1;
    }
    assert(nv.take(k as int) =~= nv);
    r
}

/// `a` followed by copies of `b`.
pub fn append_names(a: Vec<String>, b: &Vec<String>) -> (r: Vec<String>)
    ensures
        names_view(r@) == names_view(a@) + names_view(b@),
{
    let mut r = a;
    let ghost start = names_view(r@);
    let mut k: usize = 0;
    while k < b.len()
        invariant
            k <= b@.len(),
            names_view(r@) == start + names_view(b@).take(k as int),
        decreases b.len() - k,
    {
        let ghost before = names_view(r@);
        r.push(b[k].clone());
        assert(names_view(r@) =~= before.push(b@[k as int]@));
        assert(names_view(b@).take(k + 1) =~= names_view(b@).take(k as int).push(b@[k as int]@));
        k = k + 1;
    }
    assert(names_view(b@).take(k as int) =~= names_view(b@));
    r
}


/// The generated module for the parsed declarations.
pub fn emit_model(constructors: &Vec<Declaration>, functions: &Vec<Declaration>) -> (r: String)
    ensures
        r@ == generated(decls_view(constructors@), decls_view(functions@)),
{
    let g = build_graph(constructors);
    let abs = abstract_list(&g);
    let objects = append_names(root_list(&g, constructors, false, "TLObject"), &abs);
    let funcs = root_list(&g, functions, true, "TLFunction");
    let mut r = String::from_str("use serde::{Deserialize, Serialize};\n\n");
    r.append(render_natives().as_str());
    r.append("\n");
    r.append(render_sums(&g).as_str());
    r.append(render_leaves(&g, constructors, false).as_str());
    r.append(render_leaves(&g, functions, true).as_str());
    r.append(render_froms(&g, constructors, false).as_str());
    r.append(render_froms(&g, functions, true).as_str());
    r.append(render_abstract_froms(&abs).as_str());
    r.append(render_union("TLObject", &objects).as_str());
    r.append(render_union("TLFunction", &funcs).as_str());
    r.append(render_aliases(&g, constructors, false).as_str());
    r.append(render_aliases(&g, functions, true).as_str());
    r
}

/// Parses schema lines and generates the module, or reports the first
/// malformed line.
pub fn generate(lines: &Vec<String>) -> (r: Result<String, SchemaError>)
    ensures
        r matches Ok(t) ==> generate_spec(lines_view(lines@)) == Ok::<Seq<char>, (int, LineFault)>(t@),
        r matches Err(e) ==> generate_spec(lines_view(lines@)) == Err::<Seq<char>, (int, LineFault)>((e.line as int, e.fault)),
{
    match parse_schema(lines) {
        Ok(s) => Ok(emit_model(&s.constructors, &s.functions)),
        Err(e) => Err(e),
    }
}

} // verus!

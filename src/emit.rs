//! Model emitter: renders the Rust type model of a schema as source text.
use vstd::prelude::*;
use vstd::string::*;
use crate::parser::{DeclModel, Declaration};
use crate::naming::{host_field, rename_var};
use crate::graph::{TypeGraph, names_view, is_abstract_in};
use crate::naming::{
    capitalize, decapitalize, lowercase_first_letter, name_for_variant, starts_with_folded,
    starts_with_ignoring_case, uppercase_first_letter, variant_label,
};

verus! {

/// What `char::is_uppercase` says of `c`.
pub uninterp spec fn upper_case(c: char) -> bool;

/// Relies on `char::is_uppercase`: whether `c` has the Unicode `Uppercase`
/// property.
#[verifier::external_body]
fn char_is_upper(c: char) -> (r: bool)
    ensures
        r == upper_case(c),
{
    c.is_uppercase()
}

/// Schema primitives and the host types they stand for.
pub open spec fn native_table() -> Seq<(Seq<char>, Seq<char>)> {
    seq![
        ("Int32"@, "i32"@),
        ("Int53"@, "i64"@),
        ("Int64"@, "String"@),
        ("Double"@, "f64"@),
        ("Vector<T>"@, "Vec<T>"@),
        ("string"@, "String"@),
        ("Bytes"@, "String"@),
        ("Bool"@, "bool"@),
    ]
}

/// Whether `n` names a schema primitive.
pub open spec fn is_native_name(n: Seq<char>) -> bool {
    exists|k: int| 0 <= k < native_table().len() && (#[trigger] native_table()[k]).0 == n
}

/// Whether `a` and `b` are equal ignoring ASCII case.
pub open spec fn same_folded(a: Seq<char>, b: Seq<char>) -> bool {
    a.len() == b.len() && starts_with_folded(a, b)
}

/// The alias lines of one primitive: `type A = B;`, and `type a = A;` when
/// `A` starts upper-case and differs from `B` beyond ASCII case.
pub open spec fn native_text(a: Seq<char>, b: Seq<char>) -> Seq<char> {
    "type "@ + a + " = "@ + b + ";\n"@ + if a.len() > 0 && upper_case(a[0]) && !same_folded(a, b) {
        "type "@ + decapitalize(a) + " = "@ + a + ";\n"@
    } else {
        Seq::empty()
    }
}

/// The alias lines of the primitives in `t`, in order.
pub open spec fn natives_text(t: Seq<(Seq<char>, Seq<char>)>) -> Seq<char>
    decreases t.len(),
{
    if t.len() == 0 {
        Seq::empty()
    } else {
        natives_text(t.drop_last()) + native_text(t.last().0, t.last().1)
    }
}

/// One variant of an untagged sum type: `    Label(Type),`.
pub open spec fn variant_line(label: Seq<char>, ty: Seq<char>) -> Seq<char> {
    "    "@ + label + "("@ + ty + "),\n"@
}

/// The variant lines of the union `parent` whose members are `ms`.
pub open spec fn variants_text(parent: Seq<char>, ms: Seq<Seq<char>>) -> Seq<char>
    decreases ms.len(),
{
    if ms.len() == 0 {
        Seq::empty()
    } else {
        variants_text(parent, ms.drop_last()) + variant_line(variant_label(ms.last(), parent), capitalize(ms.last()))
    }
}

/// The first lines of an untagged sum type named `name`.
pub open spec fn union_head(name: Seq<char>) -> Seq<char> {
    "#[derive(Serialize, Deserialize, Clone, Debug)]\n#[serde(untagged)]\npub enum "@ + name + " {\n"@
}

/// An untagged sum type named `name` with one variant per member of `ms`.
pub open spec fn union_text(name: Seq<char>, ms: Seq<Seq<char>>) -> Seq<char> {
    union_head(name) + variants_text(name, ms) + "}\n\n"@
}

/// The variants of the union `parent` whose members are `ms`: the label
/// that the naming rule gives each member, and the member's type name.
pub open spec fn union_variants(parent: Seq<char>, ms: Seq<Seq<char>>) -> Seq<(Seq<char>, Seq<char>)> {
    ms.map_values(|m: Seq<char>| (variant_label(m, parent), capitalize(m)))
}

pub open spec fn pairs_view(v: Seq<(String, String)>) -> Seq<(Seq<char>, Seq<char>)> {
    v.map_values(|p: (String, String)| (p.0@, p.1@))
}

/// The primitive table.
pub fn natives() -> (r: Vec<(String, String)>)
    ensures
        pairs_view(r@) == native_table(),
{
    let r = vec![
        (String::from_str("Int32"), String::from_str("i32")),
        (String::from_str("Int53"), String::from_str("i64")),
        (String::from_str("Int64"), String::from_str("String")),
        (String::from_str("Double"), String::from_str("f64")),
        (String::from_str("Vector<T>"), String::from_str("Vec<T>")),
        (String::from_str("string"), String::from_str("String")),
        (String::from_str("Bytes"), String::from_str("String")),
        (String::from_str("Bool"), String::from_str("bool")),
    ];
    assert(pairs_view(r@) =~= native_table());
    r
}

/// Whether `n` names a schema primitive.
pub fn is_native(n: &str) -> (r: bool)
    ensures
        r == is_native_name(n@),
{
    let t = natives();
    let mut k: usize = 0;
    while k < t.len()
        invariant
            pairs_view(t@) == native_table(),
            k <= t@.len(),
            forall|j: int| 0 <= j < k ==> (#[trigger] native_table()[j]).0 != n@,
        decreases t.len() - k,
    {
        assert(pairs_view(t@)[k as int].0 == t@[k as int].0@);
        if t[k].0 == String::from_str(n) {
            return true;
        }
        k = k + 1;
    }
    false
}

/// The alias lines of one primitive.
pub fn render_native(a: &str, b: &str) -> (r: String)
    ensures
        r@ == native_text(a@, b@),
{
    let mut r = String::from_str("type ");
    r.append(a);
    r.append(" = ");
    r.append(b);
    r.append(";\n");
    let n = a.unicode_len();
    if n > 0 && char_is_upper(a.get_char(0)) && !(n == b.unicode_len() && starts_with_ignoring_case(a, b)) {
        let low = lowercase_first_letter(a);
        r.append("type ");
        r.append(low.as_str());
        r.append(" = ");
        r.append(a);
        r.append(";\n");
    }
    r
}

/// The alias lines of every primitive.
pub fn render_natives() -> (r: String)
    ensures
        r@ == natives_text(native_table()),
{
    let t = natives();
    let mut r = String::new();
    let mut k: usize = 0;
    while k < t.len()
        invariant
            pairs_view(t@) == native_table(),
            k <= t@.len(),
            r@ == natives_text(native_table().take(k as int)),
        decreases t.len() - k,
    {
        assert(native_table().take(k + 1).drop_last() =~= native_table().take(k as int));
        assert(native_table()[k as int] == (t@[k as int].0@, t@[k as int].1@));
        let line = render_native(t[k].0.as_str(), t[k].1.as_str());
        r.append(line.as_str());
        k = k + 1;
    }
    assert(native_table().take(k as int) =~= native_table());
    r
}

/// The variants of the union `parent` with members `ms`.
pub fn sum_type_variants(parent: &str, ms: &Vec<String>) -> (r: Vec<(String, String)>)
    ensures
        r@.len() == ms@.len(),
        pairs_view(r@) == union_variants(parent@, names_view(ms@)),
{
    let mut r: Vec<(String, String)> = Vec::new();
    let mut k: usize = 0;
    while k < ms.len()
        invariant
            k <= ms@.len(),
            r@.len() == k,
            pairs_view(r@) == union_variants(parent@, names_view(ms@)).take(k as int),
        decreases ms.len() - k,
    {
        let m = ms[k].as_str();
        let v = (name_for_variant(m, parent), uppercase_first_letter(m));
        let ghost before = pairs_view(r@);
        r.push(v);
        assert(pairs_view(r@) =~= before.push((v.0@, v.1@)));
        assert(union_variants(parent@, names_view(ms@)).take(k + 1) =~= union_variants(parent@, names_view(ms@)).take(k as int).push((v.0@, v.1@)));
        k = k + 1;
    }
    assert(union_variants(parent@, names_view(ms@)).take(k as int) =~= union_variants(parent@, names_view(ms@)));
    r
}

/// An untagged sum type named `name` with one variant per member of `ms`.
pub fn render_union(name: &str, ms: &Vec<String>) -> (r: String)
    ensures
        r@ == union_text(name@, names_view(ms@)),
{
    let vs = sum_type_variants(name, ms);
    let mut body = String::new();
    let mut k: usize = 0;
    let ghost msv = names_view(ms@);
    while k < vs.len()
        invariant
            msv == names_view(ms@),
            vs@.len() == ms@.len(),
            pairs_view(vs@) == union_variants(name@, msv),
            k <= vs@.len(),
            body@ == variants_text(name@, msv.take(k as int)),
        decreases vs.len() - k,
    {
        assert(msv.take(k + 1).drop_last() =~= msv.take(k as int));
        assert(pairs_view(vs@)[k as int] == (vs@[k as int].0@, vs@[k as int].1@));
        body.append("    ");
        body.append(vs[k].0.as_str());
        body.append("(");
        body.append(vs[k].1.as_str());
        body.append("),\n");
        k = k + 1;
    }
    assert(msv.take(k as int) =~= msv);
    let mut r = String::from_str("#[derive(Serialize, Deserialize, Clone, Debug)]\n#[serde(untagged)]\npub enum ");
    r.append(name);
    r.append(" {\n");
    r.append(body.as_str());
    r.append("}\n\n");
    r
}


/// How one parameter of a declaration becomes a field of its record.
pub struct FieldModel {
    /// The key on the wire: the schema's parameter name.
    pub wire: Seq<char>,
    /// The field's host identifier.
    pub host: Seq<char>,
    /// The field's host type name.
    pub ty: Seq<char>,
    /// Held behind a `Box`: the type is the record's own parent union.
    pub boxed: bool,
    /// The factory takes anything convertible: the type is an abstract union.
    pub upcast: bool,
}

/// The field for parameter `p` of a declaration whose parent union is
/// `parent`, among constructors `cs`.
pub open spec fn field_model(cs: Seq<DeclModel>, parent: Seq<char>, p: (Seq<char>, Seq<char>)) -> FieldModel {
    FieldModel {
        wire: p.0,
        host: host_field(p.0),
        ty: capitalize(p.1),
        boxed: p.1 == parent,
        upcast: is_abstract_in(cs, p.1),
    }
}

/// The fields of a declaration with parameters `ps` and parent `parent`.
pub open spec fn fields_of(cs: Seq<DeclModel>, parent: Seq<char>, ps: Seq<(Seq<char>, Seq<char>)>) -> Seq<FieldModel> {
    ps.map_values(|p: (Seq<char>, Seq<char>)| field_model(cs, parent, p))
}

/// The field's line(s) in the record: a rename attribute when the host name
/// differs from the wire name, then the field itself.
pub open spec fn field_text(f: FieldModel) -> Seq<char> {
    (if f.host != f.wire {
        "    #[serde(rename = \""@ + f.wire + "\")]\n"@
    } else {
        Seq::empty()
    }) + "    pub "@ + f.host + " : "@ + (if f.boxed {
        "Box<"@ + f.ty + ">"@
    } else {
        f.ty
    }) + ",\n"@
}

/// The field's parameter in the factory.
pub open spec fn param_text(f: FieldModel) -> Seq<char> {
    f.host + " : "@ + (if f.upcast {
        "impl Into<"@ + f.ty + ">"@
    } else {
        f.ty
    }) + ", "@
}

/// The field's initializer in the factory.
pub open spec fn init_text(f: FieldModel) -> Seq<char> {
    "            "@ + f.host + (if f.boxed {
        " : Box::new("@ + f.host + ".into())"@
    } else if f.upcast {
        " : "@ + f.host + ".into()"@
    } else {
        Seq::empty()
    }) + ",\n"@
}

pub open spec fn fields_text(fs: Seq<FieldModel>) -> Seq<char>
    decreases fs.len(),
{
    if fs.len() == 0 {
        Seq::empty()
    } else {
        fields_text(fs.drop_last()) + field_text(fs.last())
    }
}

pub open spec fn params_text(fs: Seq<FieldModel>) -> Seq<char>
    decreases fs.len(),
{
    if fs.len() == 0 {
        Seq::empty()
    } else {
        params_text(fs.drop_last()) + param_text(fs.last())
    }
}

pub open spec fn inits_text(fs: Seq<FieldModel>) -> Seq<char>
    decreases fs.len(),
{
    if fs.len() == 0 {
        Seq::empty()
    } else {
        inits_text(fs.drop_last()) + init_text(fs.last())
    }
}

/// The record of declaration `name` with fields `fs`: a one-member enum whose
/// only value is written as `name`; the record, which keeps that value under
/// the `@type` key beside its fields and refuses any other key; and its
/// factory.
pub open spec fn leaf_text(name: Seq<char>, fs: Seq<FieldModel>) -> Seq<char> {
    let u = capitalize(name);
    "#[derive(Serialize, Deserialize, Clone, Debug)]\npub enum E"@
        + u + " {\n    #[serde(rename = \""@ + name + "\")]\n    "@ + u + ",\n}\n"@
        + "#[derive(Serialize, Deserialize, Clone, Debug)]\n#[serde(deny_unknown_fields)]\npub struct "@ + u
        + " {\n    #[serde(rename = \"@type\")]\n    tag : E"@ + u + ",\n"@ + fields_text(fs) + "}\n"@
        + "impl "@ + u + " {\n    pub fn new("@ + params_text(fs)
        + ") -> Self {\n        Self {\n            tag : E"@ + u + "::"@ + u + ",\n"@
        + inits_text(fs) + "        }\n    }\n}\n\n"@
}

/// A field of a generated record.
pub struct FieldPlan {
    pub wire_name: String,
    pub host_name: String,
    pub host_type: String,
    pub boxed: bool,
    pub upcast: bool,
}

impl View for FieldPlan {
    type V = FieldModel;

    open spec fn view(&self) -> FieldModel {
        FieldModel {
            wire: self.wire_name@,
            host: self.host_name@,
            ty: self.host_type@,
            boxed: self.boxed,
            upcast: self.upcast,
        }
    }
}

/// The field for parameter `pn : pt` of a declaration whose parent union is
/// `parent`.
pub fn plan_field(g: &TypeGraph, parent: &str, pn: &str, pt: &String) -> (r: FieldPlan)
    requires
        g.wf(),
    ensures
        r@ == field_model(g.decls@, parent@, (pn@, pt@)),
{
    let (_, host) = rename_var(pn);
    FieldPlan {
        wire_name: String::from_str(pn),
        host_name: host,
        host_type: uppercase_first_letter(pt.as_str()),
        boxed: crate::text::same_text(pt.as_str(), parent),
        upcast: g.is_abstract(pt),
    }
}

/// The fields of declaration `d` whose parent union is `parent`.
pub fn plan_fields(g: &TypeGraph, d: &Declaration, parent: &str) -> (r: Vec<FieldPlan>)
    requires
        g.wf(),
    ensures
        r@.map_values(|f: FieldPlan| f@) == fields_of(g.decls@, parent@, d@.params),
{
    let mut r: Vec<FieldPlan> = Vec::new();
    let mut k: usize = 0;
    let ghost want = fields_of(g.decls@, parent@, d@.params);
    while k < d.params.len()
        invariant
            g.wf(),
            want == fields_of(g.decls@, parent@, d@.params),
            k <= d.params@.len(),
            r@.map_values(|f: FieldPlan| f@) == want.take(k as int),
        decreases d.params.len() - k,
    {
        let f = plan_field(g, parent, d.params[k].0.as_str(), &d.params[k].1);
        let ghost before = r@.map_values(|f: FieldPlan| f@);
        let ghost fv = f@;
        r.push(f);
        assert(r@.map_values(|f: FieldPlan| f@) =~= before.push(fv));
        assert(want.take(k + 1) =~= want.take(k as int).push(fv));
        k = k + 1;
    }
    assert(want.take(k as int) =~= want);
    r
}

/// The record line(s) of field `f`.
pub fn render_field(f: &FieldPlan) -> (r: String)
    ensures
        r@ == field_text(f@),
{
    let mut r = String::new();
    if !crate::text::same_text(f.host_name.as_str(), f.wire_name.as_str()) {
        r.append("    #[serde(rename = \"");
        r.append(f.wire_name.as_str());
        r.append("\")]\n");
    }
    r.append("    pub ");
    r.append(f.host_name.as_str());
    r.append(" : ");
    if f.boxed {
        r.append("Box<");
        r.append(f.host_type.as_str());
        r.append(">");
    } else {
        r.append(f.host_type.as_str());
    }
    r.append(",\n");
    r
}

/// The factory parameter of field `f`.
pub fn render_param(f: &FieldPlan) -> (r: String)
    ensures
        r@ == param_text(f@),
{
    let mut r = String::from_str(f.host_name.as_str());
    r.append(" : ");
    if f.upcast {
        r.append("impl Into<");
        r.append(f.host_type.as_str());
        r.append(">");
    } else {
        r.append(f.host_type.as_str());
    }
    r.append(", ");
    r
}

/// The factory initializer of field `f`.
pub fn render_init(f: &FieldPlan) -> (r: String)
    ensures
        r@ == init_text(f@),
{
    let mut r = String::from_str("            ");
    r.append(f.host_name.as_str());
    if f.boxed {
        r.append(" : Box::new(");
        r.append(f.host_name.as_str());
        r.append(".into())");
    } else if f.upcast {
        r.append(" : ");
        r.append(f.host_name.as_str());
        r.append(".into()");
    }
    r.append(",\n");
    r
}

/// The record, tag enum and factory of declaration `name` with fields `fs`.
pub fn render_leaf(name: &str, fs: &Vec<FieldPlan>) -> (r: String)
    ensures
        r@ == leaf_text(name@, fs@.map_values(|f: FieldPlan| f@)),
{
    let ghost fv = fs@.map_values(|f: FieldPlan| f@);
    let mut fields = String::new();
    let mut params = String::new();
    let mut inits = String::new();
    let mut k: usize = 0;
    while k < fs.len()
        invariant
            fv == fs@.map_values(|f: FieldPlan| f@),
            k <= fs@.len(),
            fields@ == fields_text(fv.take(k as int)),
            params@ == params_text(fv.take(k as int)),
            inits@ == inits_text(fv.take(k as int)),
        decreases fs.len() - k,
    {
        let f = &fs[k];
        assert(fv.take(k + 1).drop_last() =~= fv.take(k as int));
        assert(fv.take(k + 1).last() == f@);
        fields.append(render_field(f).as_str());
        params.append(render_param(f).as_str());
        inits.append(render_init(f).as_str());
        k = k + 1;
    }
    assert(fv.take(k as int) =~= fv);
    let u = uppercase_first_letter(name);
    let u = u.as_str();
    let mut r = String::from_str(
        "#[derive(Serialize, Deserialize, Clone, Debug)]\npub enum E",
    );
    r.append(u);
    r.append(" {\n    #[serde(rename = \"");
    r.append(name);
    r.append("\")]\n    ");
    r.append(u);
    r.append(",\n}\n");
    r.append("#[derive(Serialize, Deserialize, Clone, Debug)]\n#[serde(deny_unknown_fields)]\npub struct ");
    r.append(u);
    r.append(" {\n    #[serde(rename = \"@type\")]\n    tag : E");
    r.append(u);
    r.append(",\n");
    r.append(fields.as_str());
    r.append("}\n");
    r.append("impl ");
    r.append(u);
    r.append(" {\n    pub fn new(");
    r.append(params.as_str());
    r.append(") -> Self {\n        Self {\n            tag : E");
    r.append(u);
    r.append("::");
    r.append(u);
    r.append(",\n");
    r.append(inits.as_str());
    r.append("        }\n    }\n}\n\n");
    r
}

} // verus!

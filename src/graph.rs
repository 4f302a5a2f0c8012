//! Type graph: groups constructors by result type, and tells abstract
//! result types (more than one constructor) from concrete ones.
use vstd::prelude::*;
use vstd::string::*;
use crate::parser::{DeclModel, Declaration, decls_view};

verus! {

/// The names of the constructors among `cs` whose result is `r`, in order.
pub open spec fn members(cs: Seq<DeclModel>, r: Seq<char>) -> Seq<Seq<char>>
    decreases cs.len(),
{
    if cs.len() == 0 {
        Seq::empty()
    } else if cs.last().result == r {
        members(cs.drop_last(), r).push(cs.last().name)
    } else {
        members(cs.drop_last(), r)
    }
}

/// The result types of `cs`, each once, in order of first appearance.
pub open spec fn results(cs: Seq<DeclModel>) -> Seq<Seq<char>>
    decreases cs.len(),
{
    if cs.len() == 0 {
        Seq::empty()
    } else if results(cs.drop_last()).contains(cs.last().result) {
        results(cs.drop_last())
    } else {
        results(cs.drop_last()).push(cs.last().result)
    }
}

/// A result type is abstract when more than one constructor produces it.
pub open spec fn is_abstract_in(cs: Seq<DeclModel>, r: Seq<char>) -> bool {
    members(cs, r).len() > 1
}

/// The union that every object type without a more specific parent joins.
pub open spec fn object_union() -> Seq<char> {
    "TLObject"@
}

/// The union that every function joins.
pub open spec fn function_union() -> Seq<char> {
    "TLFunction"@
}

/// The parent of a constructor: its result type when that is abstract, else
/// the object union.
pub open spec fn ctor_parent(cs: Seq<DeclModel>, c: DeclModel) -> Seq<char> {
    if is_abstract_in(cs, c.result) {
        c.result
    } else {
        object_union()
    }
}

/// A result type with all the constructors that produce it.
pub struct Group {
    pub result: String,
    pub members: Vec<String>,
}

/// The subtype groups of a list of constructors.
pub struct TypeGraph {
    pub groups: Vec<Group>,
    /// The constructors the groups were built from.
    pub decls: Ghost<Seq<DeclModel>>,
}

pub open spec fn names_view(v: Seq<String>) -> Seq<Seq<char>> {
    v.map_values(|s: String| s@)
}

impl TypeGraph {
    /// The groups are those of `cs`: one per result type, in order of first
    /// appearance, each with its constructors in order.
    pub open spec fn wf(&self) -> bool {
        self.models(self.decls@)
    }

    pub open spec fn models(&self, cs: Seq<DeclModel>) -> bool {
        &&& self.groups@.len() == results(cs).len()
        &&& forall|k: int|
            0 <= k < self.groups@.len() ==> {
                &&& (#[trigger] self.groups@[k]).result@ == results(cs)[k]
                &&& names_view(self.groups@[k].members@) == members(cs, results(cs)[k])
            }
    }

    /// Index of the group of result `r`, or `None` when no constructor has it.
    pub fn find_group(&self, r: &String) -> (k: Option<usize>)
        ensures
            k matches Some(i) ==> i < self.groups@.len() && self.groups@[i as int].result@ == r@,
            k is None ==> forall|i: int| 0 <= i < self.groups@.len() ==> (#[trigger] self.groups@[i]).result@ != r@,
    {
        let mut i: usize = 0;
        while i < self.groups.len()
            invariant
                i <= self.groups@.len(),
                forall|j: int| 0 <= j < i ==> (#[trigger] self.groups@[j]).result@ != r@,
            decreases self.groups.len() - i,
        {
            if self.groups[i].result == *r {
                return Some(i);
            }
            i = i + 1;
        }
        None
    }

    /// Whether result type `r` is abstract.
    pub fn is_abstract(&self, r: &String) -> (b: bool)
        requires
            self.wf(),
        ensures
            b == is_abstract_in(self.decls@, r@),
    {
        let ghost cs = self.decls@;
        match self.find_group(r) {
            Some(k) => self.groups[k].members.len() > 1,
            None => {
                assert(!results(cs).contains(r@)) by {
                    if results(cs).contains(r@) {
                        let j = choose|j: int| 0 <= j < results(cs).len() && results(cs)[j] == r@;
                        assert(self.groups@[j].result@ == results(cs)[j]);
                    }
                }
                proof {
                    lemma_absent_result(cs, r@);
                }
                false
            },
        }
    }

    /// The parent union of constructor `c`.
    pub fn parent_of_constructor(&self, c: &Declaration) -> (p: String)
        requires
            self.wf(),
        ensures
            p@ == ctor_parent(self.decls@, c@),
    {
        if self.is_abstract(&c.result) {
            c.result.clone()
        } else {
            String::from_str("TLObject")
        }
    }
}

/// A result type that no constructor has has no members.
pub proof fn lemma_absent_result(cs: Seq<DeclModel>, r: Seq<char>)
    requires
        !results(cs).contains(r),
    ensures
        members(cs, r).len() == 0,
    decreases cs.len(),
{
    if cs.len() > 0 {
        if !results(cs.drop_last()).contains(cs.last().result) {
            assert(results(cs).last() == cs.last().result);
        }
        if results(cs.drop_last()).contains(r) {
            let k = choose|k: int| 0 <= k < results(cs.drop_last()).len() && results(cs.drop_last())[k] == r;
            assert(results(cs)[k] == r);
        }
        lemma_absent_result(cs.drop_last(), r);
    }
}

/// Each result type stands once among the results.
pub proof fn lemma_results_distinct(cs: Seq<DeclModel>)
    ensures
        forall|i: int, j: int| 0 <= i < j < results(cs).len() ==> results(cs)[i] != results(cs)[j],
    decreases cs.len(),
{
    if cs.len() > 0 {
        let pre = results(cs.drop_last());
        lemma_results_distinct(cs.drop_last());
        if !pre.contains(cs.last().result) {
            assert forall|i: int, j: int| 0 <= i < j < results(cs).len() implies results(cs)[i] != results(cs)[j] by {
                if j == pre.len() {
                    assert(pre[i] != cs.last().result);
                } else {
                    assert(results(cs)[i] == pre[i]);
                }
            }
        }
    }
}

/// Groups the constructors by result type.
pub fn build_graph(constructors: &Vec<Declaration>) -> (g: TypeGraph)
    ensures
        g.wf(),
        g.decls@ == decls_view(constructors@),
{
    let ghost all = decls_view(constructors@);
    let mut g = TypeGraph { groups: Vec::new(), decls: Ghost(all.take(0)) };
    let mut i: usize = 0;
    assert(all.take(0) =~= Seq::empty());
    while i < constructors.len()
        invariant
            all == decls_view(constructors@),
            i <= constructors@.len(),
            g.decls@ == all.take(i as int),
            g.wf(),
        decreases constructors.len() - i,
    {
        let c = &constructors[i];
        let ghost pre = all.take(i as int);
        let ghost cur = all.take(i + 1);
        assert(cur.drop_last() =~= pre);
        assert(cur.last() == c@);
        match g.find_group(&c.result) {
            Some(k) => {
                assert(results(pre)[k as int] == c.result@);
                assert(results(cur) == results(pre));
                proof {
                    lemma_results_distinct(pre);
                }
                let ghost old_groups = g.groups@;
                let mut grp = g.groups.remove(k);
                let ghost before = names_view(grp.members@);
                grp.members.push(c.name.clone());
                assert(names_view(grp.members@) =~= before.push(c.name@));
                g.groups.insert(k, grp);
                assert forall|j: int| 0 <= j < g.groups@.len() implies {
                    &&& (#[trigger] g.groups@[j]).result@ == results(cur)[j]
                    &&& names_view(g.groups@[j].members@) == members(cur, results(cur)[j])
                } by {
                    if j != k {
                        assert(g.groups@[j] == old_groups[j]);
                        assert(old_groups[j].result@ == results(pre)[j]);
                        assert(results(pre)[j] != results(pre)[k as int]);
                    } else {
                        assert(g.groups@[j] == grp);
                    }
                }
            },
            None => {
                assert(!results(pre).contains(c.result@)) by {
                    if results(pre).contains(c.result@) {
                        let j = choose|j: int| 0 <= j < results(pre).len() && results(pre)[j] == c.result@;
                        assert(g.groups@[j].result@ == results(pre)[j]);
                    }
                }
                proof {
                    lemma_absent_result(pre, c.result@);
                }
                assert(results(cur) == results(pre).push(c.result@));
                let ghost old_groups = g.groups@;
                let mut ms: Vec<String> = Vec::new();
                ms.push(c.name.clone());
                assert(names_view(ms@) =~= members(pre, c.result@).push(c.name@));
                g.groups.push(Group { result: c.result.clone(), members: ms });
                assert forall|j: int| 0 <= j < g.groups@.len() implies {
                    &&& (#[trigger] g.groups@[j]).result@ == results(cur)[j]
                    &&& names_view(g.groups@[j].members@) == members(cur, results(cur)[j])
                } by {
                    if j < old_groups.len() {
                        assert(g.groups@[j] == old_groups[j]);
                        assert(old_groups[j].result@ == results(pre)[j]);
                        assert(results(pre)[j] != c.result@);
                    }
                }
            },
        }
        g.decls = Ghost(cur);
        i = i + 1;
    }
    assert(all.take(i as int) =~= all);
    g
}

} // verus!

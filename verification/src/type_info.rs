//! The unit of resolved type knowledge.
//!
//! A [`TypeInfo`] is an immutable value holding a canonical Python type
//! annotation (`name`) together with the set of Python module names whose
//! import the annotation requires.  The import set is kept as a vector in
//! strictly increasing lexicographic order, so it is duplicate-free and its
//! layout is canonical: two `TypeInfo` values holding the same set of modules
//! hold them in the same order.

use vstd::prelude::*;
use crate::order::{lex_lt, lemma_lex_lt_irreflexive, lemma_lex_lt_total, lemma_lex_lt_transitive,
    sorted_strict, str_eq, str_lt};

verus! {

/// The mathematical content of a [`TypeInfo`]: the annotation's characters
/// and the required module names, as a strictly sorted sequence.
pub struct TypeInfoModel {
    pub name: Seq<char>,
    pub imports: Seq<Seq<char>>,
}

impl TypeInfoModel {
    /// A well-formed value has a non-empty annotation and a strictly sorted
    /// (hence duplicate-free) import list.
    pub open spec fn wf(self) -> bool {
        self.name.len() > 0 && sorted_strict(self.imports)
    }
}

/// A canonical Python type annotation plus the Python modules it requires.
pub struct TypeInfo {
    /// Python-syntax type expression, e.g. `list[int]` or `typing.Any`.
    pub name: String,
    /// Module names required by `name`, strictly sorted, without duplicates.
    pub imports: Vec<String>,
}

impl View for TypeInfo {
    type V = TypeInfoModel;

    open spec fn view(&self) -> TypeInfoModel {
        TypeInfoModel { name: self.name@, imports: self.imports.deep_view() }
    }
}

impl DeepView for TypeInfo {
    type V = TypeInfoModel;

    open spec fn deep_view(&self) -> TypeInfoModel {
        self.view()
    }
}

/// Every element of a sequence of models is well-formed.
pub open spec fn all_wf(ts: Seq<TypeInfoModel>) -> bool {
    forall|i: int| 0 <= i < ts.len() ==> (#[trigger] ts[i]).wf()
}

impl TypeInfo {
    pub open spec fn wf(&self) -> bool {
        self@.wf()
    }

    /// An annotation that resolves with no import at all, e.g. `int`.
    pub fn simple(name: &str) -> (r: TypeInfo)
        requires
            name@.len() > 0,
        ensures
            r.wf(),
            r@.name == name@,
            r@.imports == Seq::<Seq<char>>::empty(),
    {
        let r = TypeInfo { name: name.to_owned(), imports: Vec::new() };
        proof {
            assert(r@.imports =~= Seq::<Seq<char>>::empty());
        }
        r
    }

    /// An annotation that requires exactly one module, e.g. `typing.Any`
    /// requiring `typing`.
    pub fn with_import(name: &str, module: &str) -> (r: TypeInfo)
        requires
            name@.len() > 0,
        ensures
            r.wf(),
            r@.name == name@,
            r@.imports == seq![module@],
    {
        let mut imports: Vec<String> = Vec::new();
        imports.push(module.to_owned());
        let r = TypeInfo { name: name.to_owned(), imports };
        proof {
            assert(r@.imports =~= seq![module@]);
        }
        r
    }

    /// An exact copy; `TypeInfo` is a value, so copying is the only way to
    /// reuse one in several places.
    pub fn duplicate(&self) -> (r: TypeInfo)
        ensures
            r@ == self@,
    {
        let mut imports: Vec<String> = Vec::new();
        let mut i: usize = 0;
        while i < self.imports.len()
            invariant
                i <= self.imports.len(),
                imports.deep_view() == self.imports.deep_view().take(i as int),
            decreases self.imports.len() - i,
        {
            let elem: String = self.imports[i].clone();
            proof {
                assert(elem@ == self.imports.deep_view()[i as int]);
            }
            let ghost prev: Seq<String> = imports@;
            proof {
                assert(imports.deep_view().len() == prev.len());
                assert(self.imports.deep_view().take(i as int).len() == i as int);
                assert(prev.len() == i as int);
            }
            imports.push(elem);
            proof {
                assert forall|k: int| 0 <= k < imports.deep_view().len()
                    implies imports.deep_view()[k]
                        == self.imports.deep_view().take(i + 1)[k] by {
                    if k < i {
                        assert(imports@[k] == prev[k]);
                        assert(prev[k]@ == self.imports.deep_view().take(i as int)[k]);
                    }
                }
                assert(imports.deep_view() =~= self.imports.deep_view().take(i + 1));
            }
            i = i + 1;
        }
        let r = TypeInfo { name: self.name.clone(), imports };
        proof {
            assert(self.imports.deep_view().take(self.imports.len() as int)
                =~= self.imports.deep_view());
        }
        r
    }
}

/// Step lemma for accumulating a sequence's elements into a set one at a
/// time, front to back.
pub proof fn lemma_take_set_step<A>(s: Seq<A>, j: int)
    requires
        0 <= j < s.len(),
    ensures
        s.take(j + 1).to_set() == s.take(j).to_set().insert(s[j]),
{
    assert forall|x: A| s.take(j + 1).to_set().contains(x)
        implies s.take(j).to_set().insert(s[j]).contains(x) by {
        let k = choose|k: int| 0 <= k < s.take(j + 1).len() && #[trigger] s.take(j + 1)[k] == x;
        if k < j {
            assert(s.take(j)[k] == x);
            assert(s.take(j).contains(x));
        } else {
            assert(x == s[j]);
        }
    }
    assert forall|x: A| s.take(j).to_set().insert(s[j]).contains(x)
        implies s.take(j + 1).to_set().contains(x) by {
        if s.take(j).to_set().contains(x) {
            let k = choose|k: int| 0 <= k < s.take(j).len() && #[trigger] s.take(j)[k] == x;
            assert(s.take(j + 1)[k] == x);
            assert(s.take(j + 1).contains(x));
        } else {
            assert(s.take(j + 1)[j] == x);
            assert(s.take(j + 1).contains(x));
        }
    }
    assert(s.take(j + 1).to_set() =~= s.take(j).to_set().insert(s[j]));
}

/// Inserts one module name into a sorted import list, keeping it sorted and
/// duplicate-free.  Inserting a name that is already present changes nothing.
pub fn insert_import(imports: &mut Vec<String>, module: String)
    requires
        sorted_strict(old(imports).deep_view()),
    ensures
        sorted_strict(final(imports).deep_view()),
        final(imports).deep_view().to_set()
            == old(imports).deep_view().to_set().insert(module@),
        old(imports).deep_view().to_set().contains(module@)
            ==> final(imports).deep_view() == old(imports).deep_view(),
{
    let ghost orig: Seq<Seq<char>> = imports.deep_view();
    let mut i: usize = 0;
    loop
        invariant
            i <= imports.len(),
            imports.deep_view() == orig,
            orig == old(imports).deep_view(),
            sorted_strict(orig),
            forall|k: int| 0 <= k < i ==> lex_lt(orig[k], module@),
        decreases imports.len() - i,
    {
        if i == imports.len() {
            imports.push(module);
            proof {
                let dv = imports.deep_view();
                assert(dv =~= orig.push(module@));
                assert forall|p: int, q: int| 0 <= p < q < dv.len()
                    implies lex_lt(dv[p], dv[q]) by {
                    if q < dv.len() - 1 {
                        assert(lex_lt(orig[p], orig[q]));
                    } else {
                        assert(lex_lt(orig[p], module@));
                    }
                }
                assert forall|x: Seq<char>| dv.to_set().contains(x)
                    implies orig.to_set().insert(module@).contains(x) by {
                    let k = choose|k: int| 0 <= k < dv.len() && dv[k] == x;
                    if k < orig.len() {
                        assert(orig[k] == x);
                        assert(orig.contains(x));
                    }
                }
                assert forall|x: Seq<char>| orig.to_set().insert(module@).contains(x)
                    implies dv.to_set().contains(x) by {
                    if orig.to_set().contains(x) {
                        let k = choose|k: int| 0 <= k < orig.len() && orig[k] == x;
                        assert(dv[k] == x);
                        assert(dv.contains(x));
                    } else {
                        assert(dv[dv.len() - 1] == x);
                        assert(dv.contains(x));
                    }
                }
                assert(dv.to_set() =~= orig.to_set().insert(module@));
                assert forall|k: int| 0 <= k < orig.len()
                    implies orig[k] != module@ by {
                    if orig[k] == module@ {
                        lemma_lex_lt_irreflexive(module@);
                    }
                }
                if orig.to_set().contains(module@) {
                    let k = choose|k: int| 0 <= k < orig.len() && orig[k] == module@;
                    assert(false);
                }
            }
            return;
        }
        let same: bool = str_eq(module.as_str(), imports[i].as_str());
        if same {
            proof {
                assert(orig[i as int] == module@);
                assert(orig.contains(module@));
                assert(orig.to_set().contains(module@));
                assert(orig.to_set().insert(module@) =~= orig.to_set());
            }
            return;
        }
        let before: bool = str_lt(module.as_str(), imports[i].as_str());
        if before {
            let ghost pos: int = i as int;
            imports.insert(i, module);
            proof {
                orig.insert_ensures(pos, module@);
                let sv = imports@;
                let dv = imports.deep_view();
                assert(dv.len() == orig.len() + 1);
                assert forall|k: int| 0 <= k < dv.len() implies
                    (if k < pos { dv[k] == orig[k] }
                     else if k == pos { dv[k] == module@ }
                     else { dv[k] == orig[k - 1] }) by {
                    assert(dv[k] == sv[k]@);
                }
                assert forall|p: int, q: int| 0 <= p < q < dv.len()
                    implies lex_lt(dv[p], dv[q]) by {
                    if p < pos && q < pos {
                        assert(lex_lt(orig[p], orig[q]));
                    } else if p < pos && q == pos {
                        assert(lex_lt(orig[p], module@));
                    } else if p < pos && q > pos {
                        assert(lex_lt(orig[p], orig[q - 1]));
                    } else if p == pos {
                        if q - 1 == pos {
                            assert(lex_lt(module@, orig[pos]));
                        } else {
                            lemma_lex_lt_transitive(module@, orig[pos], orig[q - 1]);
                        }
                    } else {
                        assert(lex_lt(orig[p - 1], orig[q - 1]));
                    }
                }
                assert forall|x: Seq<char>| dv.to_set().contains(x)
                    implies orig.to_set().insert(module@).contains(x) by {
                    let k = choose|k: int| 0 <= k < dv.len() && dv[k] == x;
                    if k < pos {
                        assert(orig[k] == x);
                        assert(orig.contains(x));
                    } else if k > pos {
                        assert(orig[k - 1] == x);
                        assert(orig.contains(x));
                    }
                }
                assert forall|x: Seq<char>| orig.to_set().insert(module@).contains(x)
                    implies dv.to_set().contains(x) by {
                    if orig.to_set().contains(x) {
                        let k = choose|k: int| 0 <= k < orig.len() && orig[k] == x;
                        if k < pos {
                            assert(dv[k] == x);
                        } else {
                            assert(dv[k + 1] == x);
                        }
                        assert(dv.contains(x));
                    } else {
                        assert(dv[pos] == x);
                        assert(dv.contains(x));
                    }
                }
                assert(dv.to_set() =~= orig.to_set().insert(module@));
                assert forall|k: int| 0 <= k < orig.len()
                    implies orig[k] != module@ by {
                    if k < pos {
                        if orig[k] == module@ {
                            lemma_lex_lt_irreflexive(module@);
                        }
                    } else if k == pos {
                        if orig[k] == module@ {
                            lemma_lex_lt_irreflexive(module@);
                        }
                    } else {
                        if orig[k] == module@ {
                            lemma_lex_lt_transitive(module@, orig[pos], orig[k]);
                            lemma_lex_lt_irreflexive(module@);
                        }
                    }
                }
                if orig.to_set().contains(module@) {
                    let k = choose|k: int| 0 <= k < orig.len() && orig[k] == module@;
                    assert(false);
                }
            }
            return;
        }
        proof {
            lemma_lex_lt_total(module@, orig[i as int]);
        }
        i = i + 1;
    }
}

/// Unions a second import list into a sorted one.  The result is sorted and
/// duplicate-free, holds exactly the union of the two sets of names, and is
/// untouched when the second list brings nothing new — so merging a list
/// into itself, any number of times, leaves it as it was.
pub fn merge_imports(dst: &mut Vec<String>, src: &Vec<String>)
    requires
        sorted_strict(old(dst).deep_view()),
    ensures
        sorted_strict(final(dst).deep_view()),
        final(dst).deep_view().to_set()
            == old(dst).deep_view().to_set().union(src.deep_view().to_set()),
        src.deep_view().to_set().subset_of(old(dst).deep_view().to_set())
            ==> final(dst).deep_view() == old(dst).deep_view(),
{
    let ghost orig: Seq<Seq<char>> = dst.deep_view();
    let ghost sv: Seq<Seq<char>> = src.deep_view();
    let mut j: usize = 0;
    while j < src.len()
        invariant
            j <= src.len(),
            orig == old(dst).deep_view(),
            sv == src.deep_view(),
            sorted_strict(dst.deep_view()),
            dst.deep_view().to_set() == orig.to_set().union(sv.take(j as int).to_set()),
            sv.take(j as int).to_set().subset_of(orig.to_set())
                ==> dst.deep_view() == orig,
        decreases src.len() - j,
    {
        proof {
            assert(sv.take(0int).to_set() =~= Set::<Seq<char>>::empty());
        }
        let ghost before: Seq<Seq<char>> = dst.deep_view();
        insert_import(dst, src[j].clone());
        proof {
            lemma_take_set_step(sv, j as int);
            assert(dst.deep_view().to_set()
                =~= orig.to_set().union(sv.take(j + 1).to_set()));
            if sv.take(j + 1).to_set().subset_of(orig.to_set()) {
                assert(sv.take(j as int).to_set().subset_of(orig.to_set()));
                assert(sv.take(j + 1).to_set().contains(sv[j as int]));
                assert(before.to_set().contains(sv[j as int]));
            }
        }
        j = j + 1;
    }
    proof {
        if j == 0 {
            assert(sv.take(0int).to_set() =~= Set::<Seq<char>>::empty());
        }
        assert(sv.take(sv.len() as int) =~= sv);
    }
}

} // verus!

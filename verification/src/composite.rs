//! The composite-type resolver.
//!
//! Parametrized and container shapes — optionals, unions, sequences,
//! mappings, fixed-arity tuples, iterators — are resolved by combining the
//! already-resolved [`TypeInfo`] of their component types: annotation
//! strings are composed and import requirements are unioned.  Nesting to any
//! depth is resolution by repeated combination; a self-referential class is
//! resolved to its declared stub name (a forward string reference, see
//! [`class_ref`]) rather than expanded structurally.

use vstd::prelude::*;
use vstd::string::*;
use crate::order::{lemma_merge_sorted, lemma_sorted_unique, merge_sorted, sorted_strict};
use crate::type_info::{TypeInfo, TypeInfoModel, all_wf, insert_import, merge_imports};

verus! {

/// Where a type occurrence sits at a function boundary: as a parameter
/// (contravariant acceptance) or as a return value (covariant guarantee).
/// A container may accept an abstract capability in input position while
/// committing to a concrete container in output position.
#[derive(Clone, Copy, PartialEq, Eq, Structural, Debug)]
pub enum TypePosition {
    Input,
    Output,
}

/// The union of two sorted import lists, in canonical sorted layout.
fn union_imports(a: &TypeInfo, b: &TypeInfo) -> (r: Vec<String>)
    requires
        a.wf(),
        b.wf(),
    ensures
        r.deep_view() == merge_sorted(a@.imports, b@.imports),
{
    let da = a.duplicate();
    let mut imports = da.imports;
    merge_imports(&mut imports, &b.imports);
    proof {
        lemma_merge_sorted(a@.imports, b@.imports);
        lemma_sorted_unique(imports.deep_view(), merge_sorted(a@.imports, b@.imports));
    }
    imports
}

/// A sorted import list extended with one more module, in canonical sorted
/// layout.
fn imports_plus(t: &TypeInfo, module: &str) -> (r: Vec<String>)
    requires
        t.wf(),
    ensures
        r.deep_view() == merge_sorted(t@.imports, seq![module@]),
{
    let d = t.duplicate();
    let mut imports = d.imports;
    insert_import(&mut imports, module.to_owned());
    proof {
        assert(sorted_strict(seq![module@]));
        lemma_merge_sorted(t@.imports, seq![module@]);
        assert(seq![module@].to_set() =~= Set::<Seq<char>>::empty().insert(module@));
        assert(imports.deep_view().to_set()
            =~= t@.imports.to_set().union(seq![module@].to_set()));
        lemma_sorted_unique(imports.deep_view(), merge_sorted(t@.imports, seq![module@]));
    }
    imports
}

/// An optional `T`: the component's annotation united with `None`.  Union
/// syntax is builtin, so no import is added.
pub fn optional(t: &TypeInfo) -> (r: TypeInfo)
    requires
        t.wf(),
    ensures
        r.wf(),
        r@.name == t@.name + " | None"@,
        r@.imports == t@.imports,
{
    let d = t.duplicate();
    let name = d.name.concat(" | None");
    TypeInfo { name, imports: d.imports }
}

/// The union of two alternatives, `A | B`; imports are unioned.
pub fn union_of(a: &TypeInfo, b: &TypeInfo) -> (r: TypeInfo)
    requires
        a.wf(),
        b.wf(),
    ensures
        r.wf(),
        r@.name == a@.name + " | "@ + b@.name,
        r@.imports == merge_sorted(a@.imports, b@.imports),
{
    let imports = union_imports(a, b);
    let name = a.name.clone().concat(" | ").concat(b.name.as_str());
    proof {
        lemma_merge_sorted(a@.imports, b@.imports);
    }
    TypeInfo { name, imports }
}

/// A homogeneous sequence of `T`.  In output position the stub commits to
/// the concrete container `list[T]`; in input position it accepts the
/// abstract capability `collections.abc.Sequence[T]`, which requires the
/// `collections.abc` import.
pub fn sequence_of(t: &TypeInfo, pos: TypePosition) -> (r: TypeInfo)
    requires
        t.wf(),
    ensures
        r.wf(),
        pos == TypePosition::Output ==> r@.name == "list["@ + t@.name + "]"@
            && r@.imports == t@.imports,
        pos == TypePosition::Input ==> r@.name == "collections.abc.Sequence["@ + t@.name + "]"@
            && r@.imports == merge_sorted(t@.imports, seq!["collections.abc"@]),
{
    match pos {
        TypePosition::Output => {
            let d = t.duplicate();
            let name = String::from_str("list[").concat(d.name.as_str()).concat("]");
            proof {
                reveal_strlit("list[");
            }
            TypeInfo { name, imports: d.imports }
        },
        TypePosition::Input => {
            let imports = imports_plus(t, "collections.abc");
            let name = String::from_str("collections.abc.Sequence[")
                .concat(t.name.as_str())
                .concat("]");
            proof {
                reveal_strlit("collections.abc.Sequence[");
                lemma_merge_sorted(t@.imports, seq!["collections.abc"@]);
            }
            TypeInfo { name, imports }
        },
    }
}

/// A mapping from `K` to `V`: `dict[K, V]`, imports unioned.
pub fn mapping_of(k: &TypeInfo, v: &TypeInfo) -> (r: TypeInfo)
    requires
        k.wf(),
        v.wf(),
    ensures
        r.wf(),
        r@.name == "dict["@ + k@.name + ", "@ + v@.name + "]"@,
        r@.imports == merge_sorted(k@.imports, v@.imports),
{
    let imports = union_imports(k, v);
    let name = String::from_str("dict[")
        .concat(k.name.as_str())
        .concat(", ")
        .concat(v.name.as_str())
        .concat("]");
    proof {
        reveal_strlit("dict[");
        lemma_merge_sorted(k@.imports, v@.imports);
    }
    TypeInfo { name, imports }
}

/// A generic iterator over `T`: `collections.abc.Iterator[T]`, which
/// requires the `collections.abc` import.
pub fn iterator_of(t: &TypeInfo) -> (r: TypeInfo)
    requires
        t.wf(),
    ensures
        r.wf(),
        r@.name == "collections.abc.Iterator["@ + t@.name + "]"@,
        r@.imports == merge_sorted(t@.imports, seq!["collections.abc"@]),
{
    let imports = imports_plus(t, "collections.abc");
    let name = String::from_str("collections.abc.Iterator[")
        .concat(t.name.as_str())
        .concat("]");
    proof {
        reveal_strlit("collections.abc.Iterator[");
        lemma_merge_sorted(t@.imports, seq!["collections.abc"@]);
    }
    TypeInfo { name, imports }
}

/// The component annotations of a fixed tuple, joined by `, `.
pub open spec fn joined_names(ts: Seq<TypeInfoModel>) -> Seq<char>
    decreases ts.len(),
{
    if ts.len() == 0 {
        Seq::empty()
    } else if ts.len() == 1 {
        ts[0].name
    } else {
        joined_names(ts.drop_last()) + ", "@ + ts.last().name
    }
}

/// The union of the import lists of a sequence of components, in canonical
/// sorted layout.
pub open spec fn merged_imports(ts: Seq<TypeInfoModel>) -> Seq<Seq<char>>
    decreases ts.len(),
{
    if ts.len() == 0 {
        Seq::empty()
    } else {
        merge_sorted(merged_imports(ts.drop_last()), ts.last().imports)
    }
}

/// A fixed-arity tuple of the given components: `tuple[T1, ..., Tn]`, with
/// imports unioned across all components.  The empty arity renders as
/// `tuple[()]`, the annotation of the empty tuple.
pub fn tuple_of(items: &Vec<TypeInfo>) -> (r: TypeInfo)
    requires
        all_wf(items.deep_view()),
    ensures
        r.wf(),
        items@.len() == 0 ==> r@.name == "tuple[()]"@,
        items@.len() > 0 ==> r@.name == "tuple["@ + joined_names(items.deep_view()) + "]"@,
        r@.imports == merged_imports(items.deep_view()),
{
    let ghost dv: Seq<TypeInfoModel> = items.deep_view();
    if items.len() == 0 {
        proof {
            reveal_strlit("tuple[()]");
        }
        let r = TypeInfo::simple("tuple[()]");
        proof {
            assert(dv.len() == 0);
        }
        return r;
    }
    let mut name = String::from_str("tuple[");
    let mut imports: Vec<String> = Vec::new();
    let mut i: usize = 0;
    proof {
        reveal_strlit("tuple[");
        assert(imports.deep_view() =~= Seq::<Seq<char>>::empty());
        assert(sorted_strict(imports.deep_view()));
    }
    while i < items.len()
        invariant
            i <= items.len(),
            dv == items.deep_view(),
            dv.len() == items@.len(),
            all_wf(dv),
            i == 0 ==> name@ == "tuple["@,
            i > 0 ==> name@ == "tuple["@ + joined_names(dv.take(i as int)),
            imports.deep_view() == merged_imports(dv.take(i as int)),
            sorted_strict(imports.deep_view()),
        decreases items.len() - i,
    {
        if i > 0 {
            name.append(", ");
        }
        name.append(items[i].name.as_str());
        let ghost pre: Seq<Seq<char>> = imports.deep_view();
        merge_imports(&mut imports, &items[i].imports);
        proof {
            let tk1 = dv.take(i + 1);
            assert(tk1.drop_last() =~= dv.take(i as int));
            assert(tk1.last() == dv[i as int]);
            assert(dv[i as int].wf());
            lemma_merge_sorted(pre, dv[i as int].imports);
            lemma_sorted_unique(imports.deep_view(),
                merge_sorted(pre, dv[i as int].imports));
            assert(merged_imports(tk1)
                == merge_sorted(merged_imports(dv.take(i as int)), dv[i as int].imports));
            if i == 0 {
                assert(tk1.len() == 1);
                assert(joined_names(tk1) == tk1[0].name);
                assert(name@ =~= "tuple["@ + joined_names(tk1));
            } else {
                assert(joined_names(tk1)
                    == joined_names(dv.take(i as int)) + ", "@ + dv[i as int].name);
                assert(name@ =~= "tuple["@ + joined_names(tk1));
            }
        }
        i = i + 1;
    }
    name.append("]");
    proof {
        assert(dv.take(dv.len() as int) =~= dv);
        assert(name@ =~= "tuple["@ + joined_names(dv) + "]"@);
        assert(name@.len() > 0);
    }
    TypeInfo { name, imports }
}

/// A forward reference to a class declared in the same stub, by its declared
/// stub name.  Self-referential and mutually recursive class definitions
/// resolve through this, so resolution never re-expands a class structurally.
pub fn class_ref(name: &str) -> (r: TypeInfo)
    requires
        name@.len() > 0,
    ensures
        r.wf(),
        r@.name == name@,
        r@.imports == Seq::<Seq<char>>::empty(),
{
    TypeInfo::simple(name)
}

} // verus!

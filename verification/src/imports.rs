//! The import-set merger.
//!
//! Every annotation used anywhere in a module's declarations brings a set of
//! required Python modules; the merger folds them all into one deduplicated
//! import list in lexicographic order, so the generated import block is
//! reproducible and diff-stable.  Union over sets cannot fail; an empty
//! result is valid and renders as no import block at all.

use vstd::prelude::*;
use crate::description::{ClassDef, ClassModel, FieldModel, FunctionDef, FunctionModel,
    ModuleDef, ModuleModel, ParamModel};
use crate::order::{lemma_merge_sorted, lemma_sorted_unique, merge_sorted, sorted_strict};
use crate::type_info::merge_imports;

verus! {

/// The imports of a parameter list, folded left to right onto `acc`.
pub open spec fn fold_params(acc: Seq<Seq<char>>, ps: Seq<ParamModel>) -> Seq<Seq<char>>
    decreases ps.len(),
{
    if ps.len() == 0 {
        acc
    } else {
        merge_sorted(fold_params(acc, ps.drop_last()), ps.last().ty.imports)
    }
}

/// The imports of one signature: its parameters' in order, then its return
/// type's.
pub open spec fn fold_function(acc: Seq<Seq<char>>, f: FunctionModel) -> Seq<Seq<char>> {
    merge_sorted(fold_params(acc, f.params), f.ret.imports)
}

/// The imports of a list of signatures, folded left to right.
pub open spec fn fold_functions(acc: Seq<Seq<char>>, fs: Seq<FunctionModel>) -> Seq<Seq<char>>
    decreases fs.len(),
{
    if fs.len() == 0 {
        acc
    } else {
        fold_function(fold_functions(acc, fs.drop_last()), fs.last())
    }
}

/// The imports of a field list, folded left to right.
pub open spec fn fold_fields(acc: Seq<Seq<char>>, fs: Seq<FieldModel>) -> Seq<Seq<char>>
    decreases fs.len(),
{
    if fs.len() == 0 {
        acc
    } else {
        merge_sorted(fold_fields(acc, fs.drop_last()), fs.last().ty.imports)
    }
}

/// The imports of one class: its fields' in order, then its methods'.
pub open spec fn fold_class(acc: Seq<Seq<char>>, c: ClassModel) -> Seq<Seq<char>> {
    fold_functions(fold_fields(acc, c.fields), c.methods)
}

/// The imports of a list of classes, folded left to right.
pub open spec fn fold_classes(acc: Seq<Seq<char>>, cs: Seq<ClassModel>) -> Seq<Seq<char>>
    decreases cs.len(),
{
    if cs.len() == 0 {
        acc
    } else {
        fold_class(fold_classes(acc, cs.drop_last()), cs.last())
    }
}

/// Every import required anywhere in the module, in canonical sorted layout:
/// classes first, then free functions.  Enums carry no typed positions.
pub open spec fn module_imports(m: ModuleModel) -> Seq<Seq<char>> {
    fold_functions(fold_classes(Seq::empty(), m.classes), m.functions)
}

proof fn lemma_fold_params_sorted(acc: Seq<Seq<char>>, ps: Seq<ParamModel>)
    requires
        sorted_strict(acc),
        forall|i: int| 0 <= i < ps.len() ==> (#[trigger] ps[i]).imports_wf(),
    ensures
        sorted_strict(fold_params(acc, ps)),
    decreases ps.len(),
{
    if ps.len() > 0 {
        assert forall|i: int| 0 <= i < ps.drop_last().len()
            implies (#[trigger] ps.drop_last()[i]).imports_wf() by {
            assert(ps.drop_last()[i] == ps[i]);
        }
        lemma_fold_params_sorted(acc, ps.drop_last());
        assert(ps.last().imports_wf());
        lemma_merge_sorted(fold_params(acc, ps.drop_last()), ps.last().ty.imports);
    }
}

proof fn lemma_fold_function_sorted(acc: Seq<Seq<char>>, f: FunctionModel)
    requires
        sorted_strict(acc),
        f.imports_wf(),
    ensures
        sorted_strict(fold_function(acc, f)),
{
    lemma_fold_params_sorted(acc, f.params);
    lemma_merge_sorted(fold_params(acc, f.params), f.ret.imports);
}

proof fn lemma_fold_functions_sorted(acc: Seq<Seq<char>>, fs: Seq<FunctionModel>)
    requires
        sorted_strict(acc),
        forall|i: int| 0 <= i < fs.len() ==> (#[trigger] fs[i]).imports_wf(),
    ensures
        sorted_strict(fold_functions(acc, fs)),
    decreases fs.len(),
{
    if fs.len() > 0 {
        assert forall|i: int| 0 <= i < fs.drop_last().len()
            implies (#[trigger] fs.drop_last()[i]).imports_wf() by {
            assert(fs.drop_last()[i] == fs[i]);
        }
        lemma_fold_functions_sorted(acc, fs.drop_last());
        assert(fs.last().imports_wf());
        lemma_fold_function_sorted(fold_functions(acc, fs.drop_last()), fs.last());
    }
}

proof fn lemma_fold_fields_sorted(acc: Seq<Seq<char>>, fs: Seq<FieldModel>)
    requires
        sorted_strict(acc),
        forall|i: int| 0 <= i < fs.len() ==> sorted_strict((#[trigger] fs[i]).ty.imports),
    ensures
        sorted_strict(fold_fields(acc, fs)),
    decreases fs.len(),
{
    if fs.len() > 0 {
        assert forall|i: int| 0 <= i < fs.drop_last().len()
            implies sorted_strict((#[trigger] fs.drop_last()[i]).ty.imports) by {
            assert(fs.drop_last()[i] == fs[i]);
        }
        lemma_fold_fields_sorted(acc, fs.drop_last());
        assert(sorted_strict(fs.last().ty.imports));
        lemma_merge_sorted(fold_fields(acc, fs.drop_last()), fs.last().ty.imports);
    }
}

proof fn lemma_fold_class_sorted(acc: Seq<Seq<char>>, c: ClassModel)
    requires
        sorted_strict(acc),
        c.imports_wf(),
    ensures
        sorted_strict(fold_class(acc, c)),
{
    lemma_fold_fields_sorted(acc, c.fields);
    lemma_fold_functions_sorted(fold_fields(acc, c.fields), c.methods);
}

proof fn lemma_fold_classes_sorted(acc: Seq<Seq<char>>, cs: Seq<ClassModel>)
    requires
        sorted_strict(acc),
        forall|i: int| 0 <= i < cs.len() ==> (#[trigger] cs[i]).imports_wf(),
    ensures
        sorted_strict(fold_classes(acc, cs)),
    decreases cs.len(),
{
    if cs.len() > 0 {
        assert forall|i: int| 0 <= i < cs.drop_last().len()
            implies (#[trigger] cs.drop_last()[i]).imports_wf() by {
            assert(cs.drop_last()[i] == cs[i]);
        }
        lemma_fold_classes_sorted(acc, cs.drop_last());
        assert(cs.last().imports_wf());
        lemma_fold_class_sorted(fold_classes(acc, cs.drop_last()), cs.last());
    }
}

/// Ordering stability: the import block of any well-formed module
/// description is in strictly increasing lexicographic order, with no
/// duplicates.
pub proof fn lemma_module_imports_sorted(m: ModuleModel)
    requires
        m.imports_wf(),
    ensures
        sorted_strict(module_imports(m)),
{
    lemma_fold_classes_sorted(Seq::empty(), m.classes);
    lemma_fold_functions_sorted(fold_classes(Seq::empty(), m.classes), m.functions);
}

/// Folds one signature's imports into the accumulator.
fn merge_function_imports(acc: &mut Vec<String>, f: &FunctionDef)
    requires
        sorted_strict(old(acc).deep_view()),
        f.deep_view().imports_wf(),
    ensures
        sorted_strict(final(acc).deep_view()),
        final(acc).deep_view() == fold_function(old(acc).deep_view(), f.deep_view()),
{
    let ghost acc0: Seq<Seq<char>> = acc.deep_view();
    let ghost ps: Seq<ParamModel> = f.deep_view().params;
    let mut i: usize = 0;
    proof {
        assert(ps.take(0int) =~= Seq::<ParamModel>::empty());
    }
    while i < f.params.len()
        invariant
            i <= f.params.len(),
            ps == f.deep_view().params,
            ps.len() == f.params@.len(),
            f.deep_view().imports_wf(),
            sorted_strict(acc.deep_view()),
            acc.deep_view() == fold_params(acc0, ps.take(i as int)),
        decreases f.params.len() - i,
    {
        let ghost pre: Seq<Seq<char>> = acc.deep_view();
        merge_imports(acc, &f.params[i].ty.imports);
        proof {
            let tk1 = ps.take(i + 1);
            assert(tk1.drop_last() =~= ps.take(i as int));
            assert(tk1.last() == ps[i as int]);
            assert(ps[i as int].imports_wf());
            lemma_merge_sorted(pre, ps[i as int].ty.imports);
            lemma_sorted_unique(acc.deep_view(), merge_sorted(pre, ps[i as int].ty.imports));
        }
        i = i + 1;
    }
    proof {
        assert(ps.take(ps.len() as int) =~= ps);
    }
    let ghost pre: Seq<Seq<char>> = acc.deep_view();
    merge_imports(acc, &f.ret.imports);
    proof {
        lemma_merge_sorted(pre, f.deep_view().ret.imports);
        lemma_sorted_unique(acc.deep_view(), merge_sorted(pre, f.deep_view().ret.imports));
    }
}

/// Folds one class's imports into the accumulator.
fn merge_class_imports(acc: &mut Vec<String>, c: &ClassDef)
    requires
        sorted_strict(old(acc).deep_view()),
        c.deep_view().imports_wf(),
    ensures
        sorted_strict(final(acc).deep_view()),
        final(acc).deep_view() == fold_class(old(acc).deep_view(), c.deep_view()),
{
    let ghost acc0: Seq<Seq<char>> = acc.deep_view();
    let ghost fs: Seq<FieldModel> = c.deep_view().fields;
    let ghost ms: Seq<FunctionModel> = c.deep_view().methods;
    let mut i: usize = 0;
    proof {
        assert(fs.take(0int) =~= Seq::<FieldModel>::empty());
    }
    while i < c.fields.len()
        invariant
            i <= c.fields.len(),
            fs == c.deep_view().fields,
            fs.len() == c.fields@.len(),
            c.deep_view().imports_wf(),
            sorted_strict(acc.deep_view()),
            acc.deep_view() == fold_fields(acc0, fs.take(i as int)),
        decreases c.fields.len() - i,
    {
        let ghost pre: Seq<Seq<char>> = acc.deep_view();
        merge_imports(acc, &c.fields[i].ty.imports);
        proof {
            let tk1 = fs.take(i + 1);
            assert(tk1.drop_last() =~= fs.take(i as int));
            assert(tk1.last() == fs[i as int]);
            assert(sorted_strict(fs[i as int].ty.imports));
            lemma_merge_sorted(pre, fs[i as int].ty.imports);
            lemma_sorted_unique(acc.deep_view(), merge_sorted(pre, fs[i as int].ty.imports));
        }
        i = i + 1;
    }
    proof {
        assert(fs.take(fs.len() as int) =~= fs);
    }
    let ghost mid: Seq<Seq<char>> = acc.deep_view();
    let mut j: usize = 0;
    proof {
        assert(ms.take(0int) =~= Seq::<FunctionModel>::empty());
    }
    while j < c.methods.len()
        invariant
            j <= c.methods.len(),
            ms == c.deep_view().methods,
            ms.len() == c.methods@.len(),
            c.deep_view().imports_wf(),
            sorted_strict(acc.deep_view()),
            acc.deep_view() == fold_functions(mid, ms.take(j as int)),
        decreases c.methods.len() - j,
    {
        proof {
            assert(c.methods[j as int].deep_view() == ms[j as int]);
            assert(ms[j as int].imports_wf());
        }
        merge_function_imports(acc, &c.methods[j]);
        proof {
            let tk1 = ms.take(j + 1);
            assert(tk1.drop_last() =~= ms.take(j as int));
            assert(tk1.last() == ms[j as int]);
        }
        j = j + 1;
    }
    proof {
        assert(ms.take(ms.len() as int) =~= ms);
    }
}

/// The whole module's import block content: deduplicated and sorted
/// lexicographically, so rendering is deterministic.
pub fn collect_module_imports(m: &ModuleDef) -> (r: Vec<String>)
    requires
        m.deep_view().imports_wf(),
    ensures
        sorted_strict(r.deep_view()),
        r.deep_view() == module_imports(m.deep_view()),
{
    let mut acc: Vec<String> = Vec::new();
    let ghost cs: Seq<ClassModel> = m.deep_view().classes;
    let ghost fs: Seq<FunctionModel> = m.deep_view().functions;
    proof {
        assert(acc.deep_view() =~= Seq::<Seq<char>>::empty());
        assert(sorted_strict(acc.deep_view()));
        assert(cs.take(0int) =~= Seq::<ClassModel>::empty());
    }
    let mut i: usize = 0;
    while i < m.classes.len()
        invariant
            i <= m.classes.len(),
            cs == m.deep_view().classes,
            cs.len() == m.classes@.len(),
            m.deep_view().imports_wf(),
            sorted_strict(acc.deep_view()),
            acc.deep_view() == fold_classes(Seq::empty(), cs.take(i as int)),
        decreases m.classes.len() - i,
    {
        proof {
            assert(m.classes[i as int].deep_view() == cs[i as int]);
            assert(cs[i as int].imports_wf());
        }
        merge_class_imports(&mut acc, &m.classes[i]);
        proof {
            let tk1 = cs.take(i + 1);
            assert(tk1.drop_last() =~= cs.take(i as int));
            assert(tk1.last() == cs[i as int]);
        }
        i = i + 1;
    }
    proof {
        assert(cs.take(cs.len() as int) =~= cs);
        assert(fs.take(0int) =~= Seq::<FunctionModel>::empty());
    }
    let ghost mid: Seq<Seq<char>> = acc.deep_view();
    let mut j: usize = 0;
    while j < m.functions.len()
        invariant
            j <= m.functions.len(),
            fs == m.deep_view().functions,
            fs.len() == m.functions@.len(),
            m.deep_view().imports_wf(),
            sorted_strict(acc.deep_view()),
            acc.deep_view() == fold_functions(mid, fs.take(j as int)),
        decreases m.functions.len() - j,
    {
        proof {
            assert(m.functions[j as int].deep_view() == fs[j as int]);
            assert(fs[j as int].imports_wf());
        }
        merge_function_imports(&mut acc, &m.functions[j]);
        proof {
            let tk1 = fs.take(j + 1);
            assert(tk1.drop_last() =~= fs.take(j as int));
            assert(tk1.last() == fs[j as int]);
        }
        j = j + 1;
    }
    proof {
        assert(fs.take(fs.len() as int) =~= fs);
    }
    acc
}

} // verus!

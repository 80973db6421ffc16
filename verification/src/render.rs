//! The stub renderer.
//!
//! Consumes a fully resolved [`ModuleDef`] — every typed position already
//! carrying a [`TypeInfo`] — and emits literal stub-file text: the import
//! block (sorted, deduplicated), an `__all__` list, then class, function and
//! enum declarations in exactly the order the description gives them.  The
//! text produced is pinned down, character for character, by the spec
//! functions in this module, so rendering the same description always
//! yields identical text.
//!
//! A typed position whose annotation is empty is malformed input: rendering
//! reports it as an error rather than emitting invalid syntax.

use vstd::prelude::*;
use vstd::string::*;
use crate::description::{ClassDef, ClassModel, EnumDef, EnumModel, Field, FieldModel,
    FunctionDef, FunctionModel, ModuleDef, ModuleModel, Param, ParamModel};
use crate::imports::{collect_module_imports, module_imports};

verus! {

/// Why rendering refused a module description.
#[derive(Clone, Copy, PartialEq, Eq, Structural, Debug)]
pub enum RenderError {
    /// Some typed position carries a `TypeInfo` whose annotation is empty.
    EmptyTypeName,
}

/// `name: T`, with ` = default` appended when a default is present.
pub open spec fn param_text(p: ParamModel) -> Seq<char> {
    match p.default_value {
        Option::Some(d) => p.name + ": "@ + p.ty.name + " = "@ + d,
        Option::None => p.name + ": "@ + p.ty.name,
    }
}

/// Parameters joined by `, `.
pub open spec fn params_join(ps: Seq<ParamModel>) -> Seq<char>
    decreases ps.len(),
{
    if ps.len() == 0 {
        Seq::empty()
    } else if ps.len() == 1 {
        param_text(ps[0])
    } else {
        params_join(ps.drop_last()) + ", "@ + param_text(ps.last())
    }
}

/// The parameters of a method as they follow `self`.
pub open spec fn method_params(ps: Seq<ParamModel>) -> Seq<char> {
    if ps.len() == 0 {
        Seq::empty()
    } else {
        ", "@ + params_join(ps)
    }
}

/// One indented method signature line.
pub open spec fn method_text(f: FunctionModel) -> Seq<char> {
    "    def "@ + f.name + "(self"@ + method_params(f.params) + ") -> "@ + f.ret.name
        + ": ...\n"@
}

/// One module-scope function signature line.
pub open spec fn function_text(f: FunctionModel) -> Seq<char> {
    "def "@ + f.name + "("@ + params_join(f.params) + ") -> "@ + f.ret.name + ": ...\n"@
}

/// Names joined by `, `.
pub open spec fn join_names(ns: Seq<Seq<char>>) -> Seq<char>
    decreases ns.len(),
{
    if ns.len() == 0 {
        Seq::empty()
    } else if ns.len() == 1 {
        ns[0]
    } else {
        join_names(ns.drop_last()) + ", "@ + ns.last()
    }
}

/// The parenthesised base-class list, or nothing when there are no bases.
pub open spec fn bases_part(bs: Seq<Seq<char>>) -> Seq<char> {
    if bs.len() == 0 {
        Seq::empty()
    } else {
        "("@ + join_names(bs) + ")"@
    }
}

/// The annotated field lines of a class, in declaration order.
pub open spec fn fields_text(fs: Seq<FieldModel>) -> Seq<char>
    decreases fs.len(),
{
    if fs.len() == 0 {
        Seq::empty()
    } else {
        fields_text(fs.drop_last()) + "    "@ + fs.last().name + ": "@ + fs.last().ty.name
            + "\n"@
    }
}

/// The method lines of a class, in declaration order.
pub open spec fn methods_text(ms: Seq<FunctionModel>) -> Seq<char>
    decreases ms.len(),
{
    if ms.len() == 0 {
        Seq::empty()
    } else {
        methods_text(ms.drop_last()) + method_text(ms.last())
    }
}

/// One class block: header, then fields, then methods; a class with no
/// members gets an ellipsis body.
pub open spec fn class_text(c: ClassModel) -> Seq<char> {
    "class "@ + c.name + bases_part(c.bases) + ":\n"@ + (if c.fields.len() == 0
        && c.methods.len() == 0 {
        "    ...\n"@
    } else {
        fields_text(c.fields) + methods_text(c.methods)
    })
}

/// All class blocks, each preceded by a blank line.
pub open spec fn classes_text(cs: Seq<ClassModel>) -> Seq<char>
    decreases cs.len(),
{
    if cs.len() == 0 {
        Seq::empty()
    } else {
        classes_text(cs.drop_last()) + "\n"@ + class_text(cs.last())
    }
}

/// All module-scope function lines, each preceded by a blank line.
pub open spec fn functions_text(fs: Seq<FunctionModel>) -> Seq<char>
    decreases fs.len(),
{
    if fs.len() == 0 {
        Seq::empty()
    } else {
        functions_text(fs.drop_last()) + "\n"@ + function_text(fs.last())
    }
}

/// The member lines of an enum: names with no associated value.
pub open spec fn member_lines(ms: Seq<Seq<char>>) -> Seq<char>
    decreases ms.len(),
{
    if ms.len() == 0 {
        Seq::empty()
    } else {
        member_lines(ms.drop_last()) + "    "@ + ms.last() + " = ...\n"@
    }
}

/// One enum block: a class header, then its members.
pub open spec fn enum_text(e: EnumModel) -> Seq<char> {
    "class "@ + e.name + ":\n"@ + (if e.members.len() == 0 {
        "    ...\n"@
    } else {
        member_lines(e.members)
    })
}

/// All enum blocks, each preceded by a blank line.
pub open spec fn enums_text(es: Seq<EnumModel>) -> Seq<char>
    decreases es.len(),
{
    if es.len() == 0 {
        Seq::empty()
    } else {
        enums_text(es.drop_last()) + "\n"@ + enum_text(es.last())
    }
}

/// A name in double quotes.
pub open spec fn quoted(n: Seq<char>) -> Seq<char> {
    "\""@ + n + "\""@
}

/// Quoted names joined by `, `.
pub open spec fn join_quoted(ns: Seq<Seq<char>>) -> Seq<char>
    decreases ns.len(),
{
    if ns.len() == 0 {
        Seq::empty()
    } else if ns.len() == 1 {
        quoted(ns[0])
    } else {
        join_quoted(ns.drop_last()) + ", "@ + quoted(ns.last())
    }
}

/// The class names of a module, in declaration order.
pub open spec fn class_names(cs: Seq<ClassModel>) -> Seq<Seq<char>> {
    Seq::new(cs.len(), |i: int| cs[i].name)
}

/// The function names of a module, in declaration order.
pub open spec fn function_names(fs: Seq<FunctionModel>) -> Seq<Seq<char>> {
    Seq::new(fs.len(), |i: int| fs[i].name)
}

/// The enum names of a module, in declaration order.
pub open spec fn enum_names(es: Seq<EnumModel>) -> Seq<Seq<char>> {
    Seq::new(es.len(), |i: int| es[i].name)
}

/// Everything `__all__` declares: classes, then functions, then enums.
pub open spec fn declared_names(m: ModuleModel) -> Seq<Seq<char>> {
    class_names(m.classes) + function_names(m.functions) + enum_names(m.enums)
}

/// One `import` line per module name, in the order given.
pub open spec fn import_lines(is_: Seq<Seq<char>>) -> Seq<char>
    decreases is_.len(),
{
    if is_.len() == 0 {
        Seq::empty()
    } else {
        import_lines(is_.drop_last()) + "import "@ + is_.last() + "\n"@
    }
}

/// The import block: the lines plus a separating blank line, or nothing at
/// all when no import is required.
pub open spec fn import_block(is_: Seq<Seq<char>>) -> Seq<char> {
    if is_.len() == 0 {
        Seq::empty()
    } else {
        import_lines(is_) + "\n"@
    }
}

/// The whole stub text of a module: a function of the description alone, so
/// rendering is deterministic and diff-stable.
pub open spec fn module_text(m: ModuleModel) -> Seq<char> {
    import_block(module_imports(m)) + "__all__ = ["@ + join_quoted(declared_names(m))
        + "]\n"@ + classes_text(m.classes) + functions_text(m.functions)
        + enums_text(m.enums)
}

fn render_param(p: &Param) -> (r: String)
    ensures
        r@ == param_text(p.deep_view()),
{
    let mut s = p.name.clone();
    s.append(": ");
    s.append(p.ty.name.as_str());
    match &p.default_value {
        Option::Some(d) => {
            s.append(" = ");
            s.append(d.as_str());
            proof {
                assert(s@ =~= param_text(p.deep_view()));
            }
        },
        Option::None => {
            proof {
                assert(s@ =~= param_text(p.deep_view()));
            }
        },
    }
    s
}

fn render_params_join(ps: &Vec<Param>) -> (r: String)
    ensures
        r@ == params_join(ps.deep_view()),
{
    let ghost dv: Seq<ParamModel> = ps.deep_view();
    let mut s = String::new();
    let mut i: usize = 0;
    proof {
        assert(s@ =~= params_join(dv.take(0int)));
    }
    while i < ps.len()
        invariant
            i <= ps.len(),
            dv == ps.deep_view(),
            dv.len() == ps@.len(),
            s@ == params_join(dv.take(i as int)),
        decreases ps.len() - i,
    {
        if i > 0 {
            s.append(", ");
        }
        let t = render_param(&ps[i]);
        s.append(t.as_str());
        proof {
            let tk1 = dv.take(i + 1);
            assert(tk1.drop_last() =~= dv.take(i as int));
            assert(tk1.last() == dv[i as int]);
            assert(ps[i as int].deep_view() == dv[i as int]);
            assert(s@ =~= params_join(tk1));
        }
        i = i + 1;
    }
    proof {
        assert(dv.take(dv.len() as int) =~= dv);
    }
    s
}

fn render_method(f: &FunctionDef) -> (r: String)
    ensures
        r@ == method_text(f.deep_view()),
{
    let mut s = String::from_str("    def ");
    s.append(f.name.as_str());
    s.append("(self");
    if f.params.len() > 0 {
        s.append(", ");
        let pj = render_params_join(&f.params);
        s.append(pj.as_str());
    }
    s.append(") -> ");
    s.append(f.ret.name.as_str());
    s.append(": ...\n");
    proof {
        assert(f.deep_view().params.len() == f.params@.len());
        assert(s@ =~= method_text(f.deep_view()));
    }
    s
}

fn render_function(f: &FunctionDef) -> (r: String)
    ensures
        r@ == function_text(f.deep_view()),
{
    let mut s = String::from_str("def ");
    s.append(f.name.as_str());
    s.append("(");
    let pj = render_params_join(&f.params);
    s.append(pj.as_str());
    s.append(") -> ");
    s.append(f.ret.name.as_str());
    s.append(": ...\n");
    proof {
        assert(s@ =~= function_text(f.deep_view()));
    }
    s
}

fn render_names_join(ns: &Vec<String>) -> (r: String)
    ensures
        r@ == join_names(ns.deep_view()),
{
    let ghost dv: Seq<Seq<char>> = ns.deep_view();
    let mut s = String::new();
    let mut i: usize = 0;
    proof {
        assert(s@ =~= join_names(dv.take(0int)));
    }
    while i < ns.len()
        invariant
            i <= ns.len(),
            dv == ns.deep_view(),
            dv.len() == ns@.len(),
            s@ == join_names(dv.take(i as int)),
        decreases ns.len() - i,
    {
        if i > 0 {
            s.append(", ");
        }
        s.append(ns[i].as_str());
        proof {
            let tk1 = dv.take(i + 1);
            assert(tk1.drop_last() =~= dv.take(i as int));
            assert(tk1.last() == dv[i as int]);
            assert(s@ =~= join_names(tk1));
        }
        i = i + 1;
    }
    proof {
        assert(dv.take(dv.len() as int) =~= dv);
    }
    s
}

fn render_quoted_join(ns: &Vec<String>) -> (r: String)
    ensures
        r@ == join_quoted(ns.deep_view()),
{
    let ghost dv: Seq<Seq<char>> = ns.deep_view();
    let mut s = String::new();
    let mut i: usize = 0;
    proof {
        assert(s@ =~= join_quoted(dv.take(0int)));
    }
    while i < ns.len()
        invariant
            i <= ns.len(),
            dv == ns.deep_view(),
            dv.len() == ns@.len(),
            s@ == join_quoted(dv.take(i as int)),
        decreases ns.len() - i,
    {
        if i > 0 {
            s.append(", ");
        }
        s.append("\"");
        s.append(ns[i].as_str());
        s.append("\"");
        proof {
            let tk1 = dv.take(i + 1);
            assert(tk1.drop_last() =~= dv.take(i as int));
            assert(tk1.last() == dv[i as int]);
            assert(s@ =~= join_quoted(tk1));
        }
        i = i + 1;
    }
    proof {
        assert(dv.take(dv.len() as int) =~= dv);
    }
    s
}

fn render_class(c: &ClassDef) -> (r: String)
    ensures
        r@ == class_text(c.deep_view()),
{
    let mut s = String::from_str("class ");
    s.append(c.name.as_str());
    if c.bases.len() > 0 {
        s.append("(");
        let bj = render_names_join(&c.bases);
        s.append(bj.as_str());
        s.append(")");
    }
    s.append(":\n");
    proof {
        assert(c.deep_view().bases.len() == c.bases@.len());
        assert(s@ =~= "class "@ + c.deep_view().name + bases_part(c.deep_view().bases)
            + ":\n"@);
    }
    if c.fields.len() == 0 && c.methods.len() == 0 {
        s.append("    ...\n");
        proof {
            assert(c.deep_view().fields.len() == 0);
            assert(c.deep_view().methods.len() == 0);
            assert(s@ =~= class_text(c.deep_view()));
        }
        return s;
    }
    let ghost header: Seq<char> = s@;
    let ghost fdv: Seq<FieldModel> = c.deep_view().fields;
    let mut i: usize = 0;
    proof {
        assert(s@ =~= header + fields_text(fdv.take(0int)));
    }
    while i < c.fields.len()
        invariant
            i <= c.fields.len(),
            fdv == c.deep_view().fields,
            fdv.len() == c.fields@.len(),
            s@ == header + fields_text(fdv.take(i as int)),
        decreases c.fields.len() - i,
    {
        s.append("    ");
        s.append(c.fields[i].name.as_str());
        s.append(": ");
        s.append(c.fields[i].ty.name.as_str());
        s.append("\n");
        proof {
            let tk1 = fdv.take(i + 1);
            assert(tk1.drop_last() =~= fdv.take(i as int));
            assert(tk1.last() == fdv[i as int]);
            assert(c.fields[i as int].deep_view() == fdv[i as int]);
            assert(s@ =~= header + fields_text(tk1));
        }
        i = i + 1;
    }
    proof {
        assert(fdv.take(fdv.len() as int) =~= fdv);
    }
    let ghost mid: Seq<char> = s@;
    let ghost mdv: Seq<FunctionModel> = c.deep_view().methods;
    let mut j: usize = 0;
    proof {
        assert(s@ =~= mid + methods_text(mdv.take(0int)));
    }
    while j < c.methods.len()
        invariant
            j <= c.methods.len(),
            mdv == c.deep_view().methods,
            mdv.len() == c.methods@.len(),
            mid == header + fields_text(fdv),
            s@ == mid + methods_text(mdv.take(j as int)),
        decreases c.methods.len() - j,
    {
        let mt = render_method(&c.methods[j]);
        s.append(mt.as_str());
        proof {
            let tk1 = mdv.take(j + 1);
            assert(tk1.drop_last() =~= mdv.take(j as int));
            assert(tk1.last() == mdv[j as int]);
            assert(c.methods[j as int].deep_view() == mdv[j as int]);
            assert(s@ =~= mid + methods_text(tk1));
        }
        j = j + 1;
    }
    proof {
        assert(mdv.take(mdv.len() as int) =~= mdv);
        assert(s@ =~= class_text(c.deep_view()));
    }
    s
}

fn render_enum(e: &EnumDef) -> (r: String)
    ensures
        r@ == enum_text(e.deep_view()),
{
    let mut s = String::from_str("class ");
    s.append(e.name.as_str());
    s.append(":\n");
    if e.members.len() == 0 {
        s.append("    ...\n");
        proof {
            assert(e.deep_view().members.len() == 0);
            assert(s@ =~= enum_text(e.deep_view()));
        }
        return s;
    }
    let ghost header: Seq<char> = s@;
    let ghost dv: Seq<Seq<char>> = e.deep_view().members;
    let mut i: usize = 0;
    proof {
        assert(s@ =~= header + member_lines(dv.take(0int)));
    }
    while i < e.members.len()
        invariant
            i <= e.members.len(),
            dv == e.deep_view().members,
            dv.len() == e.members@.len(),
            s@ == header + member_lines(dv.take(i as int)),
        decreases e.members.len() - i,
    {
        s.append("    ");
        s.append(e.members[i].as_str());
        s.append(" = ...\n");
        proof {
            let tk1 = dv.take(i + 1);
            assert(tk1.drop_last() =~= dv.take(i as int));
            assert(tk1.last() == dv[i as int]);
            assert(s@ =~= header + member_lines(tk1));
        }
        i = i + 1;
    }
    proof {
        assert(dv.take(dv.len() as int) =~= dv);
        assert(s@ =~= enum_text(e.deep_view()));
    }
    s
}

fn render_imports_block(imps: &Vec<String>) -> (r: String)
    ensures
        r@ == import_block(imps.deep_view()),
{
    let ghost dv: Seq<Seq<char>> = imps.deep_view();
    if imps.len() == 0 {
        let s = String::new();
        proof {
            assert(s@ =~= import_block(dv));
        }
        return s;
    }
    let mut s = String::new();
    let mut i: usize = 0;
    proof {
        assert(s@ =~= import_lines(dv.take(0int)));
    }
    while i < imps.len()
        invariant
            i <= imps.len(),
            dv == imps.deep_view(),
            dv.len() == imps@.len(),
            s@ == import_lines(dv.take(i as int)),
        decreases imps.len() - i,
    {
        s.append("import ");
        s.append(imps[i].as_str());
        s.append("\n");
        proof {
            let tk1 = dv.take(i + 1);
            assert(tk1.drop_last() =~= dv.take(i as int));
            assert(tk1.last() == dv[i as int]);
            assert(s@ =~= import_lines(tk1));
        }
        i = i + 1;
    }
    s.append("\n");
    proof {
        assert(dv.take(dv.len() as int) =~= dv);
        assert(s@ =~= import_block(dv));
    }
    s
}

fn check_function_named(f: &FunctionDef) -> (b: bool)
    ensures
        b == f.deep_view().named(),
{
    if f.ret.name.as_str().is_empty() {
        return false;
    }
    let ghost dv: Seq<ParamModel> = f.deep_view().params;
    let mut i: usize = 0;
    while i < f.params.len()
        invariant
            i <= f.params.len(),
            dv == f.deep_view().params,
            dv.len() == f.params@.len(),
            f.deep_view().ret.name.len() > 0,
            forall|k: int| 0 <= k < i ==> (#[trigger] dv[k]).named(),
        decreases f.params.len() - i,
    {
        if f.params[i].ty.name.as_str().is_empty() {
            proof {
                assert(f.params[i as int].deep_view() == dv[i as int]);
                assert(!dv[i as int].named());
            }
            return false;
        }
        proof {
            assert(f.params[i as int].deep_view() == dv[i as int]);
            assert(dv[i as int].named());
        }
        i = i + 1;
    }
    true
}

fn check_class_named(c: &ClassDef) -> (b: bool)
    ensures
        b == c.deep_view().named(),
{
    let ghost fdv: Seq<FieldModel> = c.deep_view().fields;
    let mut i: usize = 0;
    while i < c.fields.len()
        invariant
            i <= c.fields.len(),
            fdv == c.deep_view().fields,
            fdv.len() == c.fields@.len(),
            forall|k: int| 0 <= k < i ==> (#[trigger] fdv[k]).ty.name.len() > 0,
        decreases c.fields.len() - i,
    {
        if c.fields[i].ty.name.as_str().is_empty() {
            proof {
                assert(c.fields[i as int].deep_view() == fdv[i as int]);
            }
            return false;
        }
        proof {
            assert(c.fields[i as int].deep_view() == fdv[i as int]);
        }
        i = i + 1;
    }
    let ghost mdv: Seq<FunctionModel> = c.deep_view().methods;
    let mut j: usize = 0;
    while j < c.methods.len()
        invariant
            j <= c.methods.len(),
            mdv == c.deep_view().methods,
            mdv.len() == c.methods@.len(),
            forall|k: int| 0 <= k < c.deep_view().fields.len()
                ==> (#[trigger] c.deep_view().fields[k]).ty.name.len() > 0,
            forall|k: int| 0 <= k < j ==> (#[trigger] mdv[k]).named(),
        decreases c.methods.len() - j,
    {
        let ok = check_function_named(&c.methods[j]);
        proof {
            assert(c.methods[j as int].deep_view() == mdv[j as int]);
        }
        if !ok {
            return false;
        }
        j = j + 1;
    }
    true
}

fn check_module_named(m: &ModuleDef) -> (b: bool)
    ensures
        b == m.deep_view().named(),
{
    let ghost cdv: Seq<ClassModel> = m.deep_view().classes;
    let mut i: usize = 0;
    while i < m.classes.len()
        invariant
            i <= m.classes.len(),
            cdv == m.deep_view().classes,
            cdv.len() == m.classes@.len(),
            forall|k: int| 0 <= k < i ==> (#[trigger] cdv[k]).named(),
        decreases m.classes.len() - i,
    {
        let ok = check_class_named(&m.classes[i]);
        proof {
            assert(m.classes[i as int].deep_view() == cdv[i as int]);
        }
        if !ok {
            return false;
        }
        i = i + 1;
    }
    let ghost fdv: Seq<FunctionModel> = m.deep_view().functions;
    let mut j: usize = 0;
    while j < m.functions.len()
        invariant
            j <= m.functions.len(),
            fdv == m.deep_view().functions,
            fdv.len() == m.functions@.len(),
            forall|k: int| 0 <= k < m.deep_view().classes.len()
                ==> (#[trigger] m.deep_view().classes[k]).named(),
            forall|k: int| 0 <= k < j ==> (#[trigger] fdv[k]).named(),
        decreases m.functions.len() - j,
    {
        let ok = check_function_named(&m.functions[j]);
        proof {
            assert(m.functions[j as int].deep_view() == fdv[j as int]);
        }
        if !ok {
            return false;
        }
        j = j + 1;
    }
    true
}

/// The names `__all__` declares, in declaration order.
fn declared_names_vec(m: &ModuleDef) -> (r: Vec<String>)
    ensures
        r.deep_view() == declared_names(m.deep_view()),
{
    let ghost mm: ModuleModel = m.deep_view();
    let mut names: Vec<String> = Vec::new();
    let mut i: usize = 0;
    proof {
        assert(names.deep_view() =~= class_names(mm.classes).take(0int));
    }
    while i < m.classes.len()
        invariant
            i <= m.classes.len(),
            mm == m.deep_view(),
            mm.classes.len() == m.classes@.len(),
            names.deep_view() == class_names(mm.classes).take(i as int),
        decreases m.classes.len() - i,
    {
        let ghost prev: Seq<String> = names@;
        proof {
            assert(names.deep_view().len() == prev.len());
            assert(class_names(mm.classes).take(i as int).len() == i as int);
        }
        names.push(m.classes[i].name.clone());
        proof {
            assert(names@ == prev.push(names@[prev.len() as int]));
            assert(names.deep_view() =~= class_names(mm.classes).take(i + 1));
        }
        i = i + 1;
    }
    proof {
        assert(class_names(mm.classes).take(mm.classes.len() as int)
            =~= class_names(mm.classes));
    }
    let mut j: usize = 0;
    proof {
        assert(names.deep_view()
            =~= class_names(mm.classes) + function_names(mm.functions).take(0int));
    }
    while j < m.functions.len()
        invariant
            j <= m.functions.len(),
            mm == m.deep_view(),
            mm.functions.len() == m.functions@.len(),
            names.deep_view()
                == class_names(mm.classes) + function_names(mm.functions).take(j as int),
        decreases m.functions.len() - j,
    {
        let ghost prev: Seq<String> = names@;
        let ghost prevdeep: Seq<Seq<char>> = names.deep_view();
        proof {
            assert(prevdeep.len() == prev.len());
        }
        names.push(m.functions[j].name.clone());
        proof {
            let cn = class_names(mm.classes);
            let fnames = function_names(mm.functions);
            assert(prevdeep == cn + fnames.take(j as int));
            assert(names@ == prev.push(names@[prev.len() as int]));
            assert forall|idx: int| 0 <= idx < names.deep_view().len()
                implies names.deep_view()[idx] == (cn + fnames.take(j + 1))[idx] by {
                if idx < prev.len() {
                    assert(names@[idx] == prev[idx]);
                    assert(prevdeep[idx] == prev[idx]@);
                    assert(prevdeep[idx] == (cn + fnames.take(j as int))[idx]);
                } else {
                    assert(names@[idx] == m.functions[j as int].name);
                }
            }
            assert(names.deep_view() =~= cn + fnames.take(j + 1));
        }
        j = j + 1;
    }
    proof {
        assert(function_names(mm.functions).take(mm.functions.len() as int)
            =~= function_names(mm.functions));
    }
    let mut k: usize = 0;
    proof {
        assert(names.deep_view() =~= class_names(mm.classes) + function_names(mm.functions)
            + enum_names(mm.enums).take(0int));
    }
    while k < m.enums.len()
        invariant
            k <= m.enums.len(),
            mm == m.deep_view(),
            mm.enums.len() == m.enums@.len(),
            names.deep_view() == class_names(mm.classes) + function_names(mm.functions)
                + enum_names(mm.enums).take(k as int),
        decreases m.enums.len() - k,
    {
        let ghost prev: Seq<String> = names@;
        let ghost prevdeep: Seq<Seq<char>> = names.deep_view();
        proof {
            assert(prevdeep.len() == prev.len());
        }
        names.push(m.enums[k].name.clone());
        proof {
            let cf = class_names(mm.classes) + function_names(mm.functions);
            let enames = enum_names(mm.enums);
            assert(prevdeep == cf + enames.take(k as int));
            assert(names@ == prev.push(names@[prev.len() as int]));
            assert forall|idx: int| 0 <= idx < names.deep_view().len()
                implies names.deep_view()[idx] == (cf + enames.take(k + 1))[idx] by {
                if idx < prev.len() {
                    assert(names@[idx] == prev[idx]);
                    assert(prevdeep[idx] == prev[idx]@);
                    assert(prevdeep[idx] == (cf + enames.take(k as int))[idx]);
                } else {
                    assert(names@[idx] == m.enums[k as int].name);
                }
            }
            assert(names.deep_view() =~= cf + enames.take(k + 1));
        }
        k = k + 1;
    }
    proof {
        assert(enum_names(mm.enums).take(mm.enums.len() as int) =~= enum_names(mm.enums));
        assert(names.deep_view() =~= declared_names(mm));
    }
    names
}

/// Renders a module description to stub text.
///
/// Succeeds exactly when every typed position carries a non-empty
/// annotation; the text is then `module_text` of the description, character
/// for character.  A description with an empty annotation anywhere is
/// malformed and reported, never silently repaired.
pub fn render_module(m: &ModuleDef) -> (r: Result<String, RenderError>)
    requires
        m.deep_view().imports_wf(),
    ensures
        r matches Ok(s) ==> m.deep_view().named() && s@ == module_text(m.deep_view()),
        r is Err ==> !m.deep_view().named(),
{
    let ghost mm: ModuleModel = m.deep_view();
    if !check_module_named(m) {
        return Err(RenderError::EmptyTypeName);
    }
    let imps = collect_module_imports(m);
    let mut s = render_imports_block(&imps);
    s.append("__all__ = [");
    let names = declared_names_vec(m);
    let qj = render_quoted_join(&names);
    s.append(qj.as_str());
    s.append("]\n");
    proof {
        assert(s@ =~= import_block(module_imports(mm)) + "__all__ = ["@
            + join_quoted(declared_names(mm)) + "]\n"@);
    }
    let ghost head: Seq<char> = s@;
    let ghost cdv: Seq<ClassModel> = mm.classes;
    let mut i: usize = 0;
    proof {
        assert(s@ =~= head + classes_text(cdv.take(0int)));
    }
    while i < m.classes.len()
        invariant
            i <= m.classes.len(),
            mm == m.deep_view(),
            cdv == mm.classes,
            cdv.len() == m.classes@.len(),
            s@ == head + classes_text(cdv.take(i as int)),
        decreases m.classes.len() - i,
    {
        s.append("\n");
        let ct = render_class(&m.classes[i]);
        s.append(ct.as_str());
        proof {
            let tk1 = cdv.take(i + 1);
            assert(tk1.drop_last() =~= cdv.take(i as int));
            assert(tk1.last() == cdv[i as int]);
            assert(m.classes[i as int].deep_view() == cdv[i as int]);
            assert(s@ =~= head + classes_text(tk1));
        }
        i = i + 1;
    }
    proof {
        assert(cdv.take(cdv.len() as int) =~= cdv);
    }
    let ghost mid: Seq<char> = s@;
    let ghost fdv: Seq<FunctionModel> = mm.functions;
    let mut j: usize = 0;
    proof {
        assert(s@ =~= mid + functions_text(fdv.take(0int)));
    }
    while j < m.functions.len()
        invariant
            j <= m.functions.len(),
            mm == m.deep_view(),
            fdv == mm.functions,
            fdv.len() == m.functions@.len(),
            s@ == mid + functions_text(fdv.take(j as int)),
        decreases m.functions.len() - j,
    {
        s.append("\n");
        let ft = render_function(&m.functions[j]);
        s.append(ft.as_str());
        proof {
            let tk1 = fdv.take(j + 1);
            assert(tk1.drop_last() =~= fdv.take(j as int));
            assert(tk1.last() == fdv[j as int]);
            assert(m.functions[j as int].deep_view() == fdv[j as int]);
            assert(s@ =~= mid + functions_text(tk1));
        }
        j = j + 1;
    }
    proof {
        assert(fdv.take(fdv.len() as int) =~= fdv);
    }
    let ghost mid2: Seq<char> = s@;
    let ghost edv: Seq<EnumModel> = mm.enums;
    let mut k: usize = 0;
    proof {
        assert(s@ =~= mid2 + enums_text(edv.take(0int)));
    }
    while k < m.enums.len()
        invariant
            k <= m.enums.len(),
            mm == m.deep_view(),
            edv == mm.enums,
            edv.len() == m.enums@.len(),
            s@ == mid2 + enums_text(edv.take(k as int)),
        decreases m.enums.len() - k,
    {
        s.append("\n");
        let et = render_enum(&m.enums[k]);
        s.append(et.as_str());
        proof {
            let tk1 = edv.take(k + 1);
            assert(tk1.drop_last() =~= edv.take(k as int));
            assert(tk1.last() == edv[k as int]);
            assert(m.enums[k as int].deep_view() == edv[k as int]);
            assert(s@ =~= mid2 + enums_text(tk1));
        }
        k = k + 1;
    }
    proof {
        assert(edv.take(edv.len() as int) =~= edv);
        assert(s@ =~= module_text(mm));
    }
    Ok(s)
}

} // verus!

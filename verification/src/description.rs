//! The module stub description: the structural metadata tree that an
//! external extraction collaborator supplies and the renderer consumes.
//!
//! A module holds classes, free functions and enums; a class holds fields
//! and methods; every typed position already carries a resolved
//! [`TypeInfo`].  The core reads this tree and never mutates it, and the
//! renderer emits declarations in exactly the order the tree gives them.

use vstd::prelude::*;
use crate::order::sorted_strict;
use crate::type_info::{TypeInfo, TypeInfoModel};

verus! {

/// One formal parameter: a name, a resolved (input-position) type, and an
/// optional default value already rendered in Python literal syntax.
pub struct Param {
    pub name: String,
    pub ty: TypeInfo,
    pub default_value: Option<String>,
}

/// The mathematical content of a [`Param`].
pub struct ParamModel {
    pub name: Seq<char>,
    pub ty: TypeInfoModel,
    pub default_value: Option<Seq<char>>,
}

/// A function or method signature: ordered parameters (excluding `self` for
/// methods) and one resolved return type.
pub struct FunctionDef {
    pub name: String,
    pub params: Vec<Param>,
    pub ret: TypeInfo,
}

/// The mathematical content of a [`FunctionDef`].
pub struct FunctionModel {
    pub name: Seq<char>,
    pub params: Seq<ParamModel>,
    pub ret: TypeInfoModel,
}

/// One class field with its resolved type.
pub struct Field {
    pub name: String,
    pub ty: TypeInfo,
}

/// The mathematical content of a [`Field`].
pub struct FieldModel {
    pub name: Seq<char>,
    pub ty: TypeInfoModel,
}

/// A class: base-class names, fields, and methods, each list in declaration
/// order.
pub struct ClassDef {
    pub name: String,
    pub bases: Vec<String>,
    pub fields: Vec<Field>,
    pub methods: Vec<FunctionDef>,
}

/// The mathematical content of a [`ClassDef`].
pub struct ClassModel {
    pub name: Seq<char>,
    pub bases: Seq<Seq<char>>,
    pub fields: Seq<FieldModel>,
    pub methods: Seq<FunctionModel>,
}

/// An enum: member names in declaration order; members carry no values.
pub struct EnumDef {
    pub name: String,
    pub members: Vec<String>,
}

/// The mathematical content of an [`EnumDef`].
pub struct EnumModel {
    pub name: Seq<char>,
    pub members: Seq<Seq<char>>,
}

/// A whole module's public surface: classes, free functions and enums, each
/// list in declaration order.
pub struct ModuleDef {
    pub classes: Vec<ClassDef>,
    pub functions: Vec<FunctionDef>,
    pub enums: Vec<EnumDef>,
}

/// The mathematical content of a [`ModuleDef`].
pub struct ModuleModel {
    pub classes: Seq<ClassModel>,
    pub functions: Seq<FunctionModel>,
    pub enums: Seq<EnumModel>,
}

impl DeepView for Param {
    type V = ParamModel;

    open spec fn deep_view(&self) -> ParamModel {
        ParamModel {
            name: self.name@,
            ty: self.ty@,
            default_value: self.default_value.deep_view(),
        }
    }
}

impl DeepView for FunctionDef {
    type V = FunctionModel;

    open spec fn deep_view(&self) -> FunctionModel {
        FunctionModel {
            name: self.name@,
            params: self.params.deep_view(),
            ret: self.ret@,
        }
    }
}

impl DeepView for Field {
    type V = FieldModel;

    open spec fn deep_view(&self) -> FieldModel {
        FieldModel { name: self.name@, ty: self.ty@ }
    }
}

impl DeepView for ClassDef {
    type V = ClassModel;

    open spec fn deep_view(&self) -> ClassModel {
        ClassModel {
            name: self.name@,
            bases: self.bases.deep_view(),
            fields: self.fields.deep_view(),
            methods: self.methods.deep_view(),
        }
    }
}

impl DeepView for EnumDef {
    type V = EnumModel;

    open spec fn deep_view(&self) -> EnumModel {
        EnumModel { name: self.name@, members: self.members.deep_view() }
    }
}

impl DeepView for ModuleDef {
    type V = ModuleModel;

    open spec fn deep_view(&self) -> ModuleModel {
        ModuleModel {
            classes: self.classes.deep_view(),
            functions: self.functions.deep_view(),
            enums: self.enums.deep_view(),
        }
    }
}

impl ParamModel {
    /// The parameter's annotation is present (non-empty).
    pub open spec fn named(self) -> bool {
        self.ty.name.len() > 0
    }

    /// The parameter's type carries a sorted import list.
    pub open spec fn imports_wf(self) -> bool {
        sorted_strict(self.ty.imports)
    }
}

impl FunctionModel {
    /// Every annotation in the signature is present (non-empty).
    pub open spec fn named(self) -> bool {
        &&& self.ret.name.len() > 0
        &&& forall|i: int| 0 <= i < self.params.len() ==> (#[trigger] self.params[i]).named()
    }

    /// Every type in the signature carries a sorted import list.
    pub open spec fn imports_wf(self) -> bool {
        &&& sorted_strict(self.ret.imports)
        &&& forall|i: int| 0 <= i < self.params.len()
            ==> (#[trigger] self.params[i]).imports_wf()
    }
}

impl ClassModel {
    /// Every annotation in the class is present (non-empty).
    pub open spec fn named(self) -> bool {
        &&& forall|i: int| 0 <= i < self.fields.len()
            ==> (#[trigger] self.fields[i]).ty.name.len() > 0
        &&& forall|i: int| 0 <= i < self.methods.len() ==> (#[trigger] self.methods[i]).named()
    }

    /// Every type in the class carries a sorted import list.
    pub open spec fn imports_wf(self) -> bool {
        &&& forall|i: int| 0 <= i < self.fields.len()
            ==> sorted_strict((#[trigger] self.fields[i]).ty.imports)
        &&& forall|i: int| 0 <= i < self.methods.len()
            ==> (#[trigger] self.methods[i]).imports_wf()
    }
}

impl ModuleModel {
    /// Every annotation anywhere in the module is present: the renderer's
    /// malformed-input condition is the negation of this.
    pub open spec fn named(self) -> bool {
        &&& forall|i: int| 0 <= i < self.classes.len() ==> (#[trigger] self.classes[i]).named()
        &&& forall|i: int| 0 <= i < self.functions.len()
            ==> (#[trigger] self.functions[i]).named()
    }

    /// Every type anywhere in the module carries a sorted import list: the
    /// representation invariant that `TypeInfo` constructors maintain.
    pub open spec fn imports_wf(self) -> bool {
        &&& forall|i: int| 0 <= i < self.classes.len()
            ==> (#[trigger] self.classes[i]).imports_wf()
        &&& forall|i: int| 0 <= i < self.functions.len()
            ==> (#[trigger] self.functions[i]).imports_wf()
    }
}

} // verus!

//! Identities of crates, modules and items, and the tagged variants that
//! name an item definition or a reference found at a source location.

use vstd::prelude::*;

verus! {

/// Identity of a crate: a dense index into the table of def maps.
#[derive(Clone, Copy, PartialEq, Eq, Structural, Debug)]
pub struct CrateId(pub usize);

/// A module within one crate: a dense index into that crate's module table.
#[derive(Clone, Copy, PartialEq, Eq, Structural, Debug)]
pub struct LocalModuleId(pub usize);

/// A module, globally: the crate it belongs to and its index there.
#[derive(Clone, Copy, PartialEq, Eq, Structural, Debug)]
pub struct ModuleId {
    pub krate: CrateId,
    pub local_id: LocalModuleId,
}

#[derive(Clone, Copy, PartialEq, Eq, Structural, Debug)]
pub struct FuncId(pub usize);

#[derive(Clone, Copy, PartialEq, Eq, Structural, Debug)]
pub struct StructId(pub usize);

#[derive(Clone, Copy, PartialEq, Eq, Structural, Debug)]
pub struct TypeAliasId(pub usize);

#[derive(Clone, Copy, PartialEq, Eq, Structural, Debug)]
pub struct TraitId(pub usize);

#[derive(Clone, Copy, PartialEq, Eq, Structural, Debug)]
pub struct GlobalId(pub usize);

/// Identity of a local definition (a let binding, a parameter).
#[derive(Clone, Copy, PartialEq, Eq, Structural, Debug)]
pub struct DefinitionId(pub usize);

/// The declared visibility of an item.
#[derive(Clone, Copy, PartialEq, Eq, Structural, Debug)]
pub enum ItemVisibility {
    Public,
    PublicCrate,
    Private,
}

/// What an item definition is: the tagged variant that drives each
/// enumeration routine.
#[derive(Clone, Copy, PartialEq, Eq, Structural, Debug)]
pub enum ModuleDefId {
    Module(ModuleId),
    Type(StructId),
    TypeAlias(TypeAliasId),
    Function(FuncId),
    Trait(TraitId),
    Global(GlobalId),
}

/// What a source location was resolved to refer to.
#[derive(Clone, Copy, PartialEq, Eq, Structural, Debug)]
pub enum ReferenceId {
    Module(ModuleId),
    Struct(StructId),
    Trait(TraitId),
    Function(FuncId),
    Alias(TypeAliasId),
    StructMember(StructId, usize),
    Global(GlobalId),
    Local(DefinitionId),
    Reference(usize),
}

/// What a reference stands for as an item definition, if anything:
/// modules, structs, traits, functions and aliases are items; struct
/// members, globals, locals and plain references are not.
pub open spec fn spec_module_def_id_from_reference_id(reference_id: ReferenceId) -> Option<
    ModuleDefId,
> {
    match reference_id {
        ReferenceId::Module(module_id) => Some(ModuleDefId::Module(module_id)),
        ReferenceId::Struct(struct_id) => Some(ModuleDefId::Type(struct_id)),
        ReferenceId::Trait(trait_id) => Some(ModuleDefId::Trait(trait_id)),
        ReferenceId::Function(func_id) => Some(ModuleDefId::Function(func_id)),
        ReferenceId::Alias(type_alias_id) => Some(ModuleDefId::TypeAlias(type_alias_id)),
        ReferenceId::StructMember(_, _) => None,
        ReferenceId::Global(_) => None,
        ReferenceId::Local(_) => None,
        ReferenceId::Reference(_) => None,
    }
}

pub fn module_def_id_from_reference_id(reference_id: ReferenceId) -> (r: Option<ModuleDefId>)
    ensures
        r == spec_module_def_id_from_reference_id(reference_id),
{
    match reference_id {
        ReferenceId::Module(module_id) => Some(ModuleDefId::Module(module_id)),
        ReferenceId::Struct(struct_id) => Some(ModuleDefId::Type(struct_id)),
        ReferenceId::Trait(trait_id) => Some(ModuleDefId::Trait(trait_id)),
        ReferenceId::Function(func_id) => Some(ModuleDefId::Function(func_id)),
        ReferenceId::Alias(type_alias_id) => Some(ModuleDefId::TypeAlias(type_alias_id)),
        ReferenceId::StructMember(_, _) => None,
        ReferenceId::Global(_) => None,
        ReferenceId::Local(_) => None,
        ReferenceId::Reference(_) => None,
    }
}

} // verus!

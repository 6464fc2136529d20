//! The enumerated configuration of a completion request: what to
//! produce and how to filter it.

use vstd::prelude::*;

use crate::types::MethodKey;

verus! {

/// Whether a function completion inserts just the name or a
/// name-and-parameters snippet.
#[derive(Clone, Copy, PartialEq, Eq, Structural, Debug)]
pub enum FunctionCompletionKind {
    Name,
    NameAndParameters,
}

/// Whether a module enumeration walks the module's own declarations or
/// its full scope, imports included.
#[derive(Clone, Copy, PartialEq, Eq, Structural, Debug)]
pub enum ModuleCompletionKind {
    DirectChildren,
    AllVisibleItems,
}

/// Whether any item may be offered, or only those that can stand in a
/// type position.
#[derive(Clone, Copy, PartialEq, Eq, Structural, Debug)]
pub enum RequestedItems {
    AnyItems,
    OnlyTypes,
}

/// Whether method candidates are restricted to functions that take a
/// receiver of the given type (by its method key), or unrestricted.
#[derive(Clone, Copy, PartialEq, Eq, Structural, Debug)]
pub enum FunctionKind {
    Any,
    SelfType(MethodKey),
}

} // verus!

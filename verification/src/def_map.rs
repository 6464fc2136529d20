//! Per-crate module tables.
//!
//! A crate's modules form a tree held in a flat array: each module names
//! its parent by index, and a parent's index is always strictly below its
//! children's, so walks along parent edges terminate. Each module carries
//! two name views: `definitions` (items declared directly in it) and
//! `scope` (all names visible in it, imports included). A name may occupy
//! a type namespace slot, a value namespace slot, or both.

use vstd::prelude::*;

use crate::ids::{CrateId, ItemVisibility, LocalModuleId, ModuleDefId};
use crate::span::FileId;

verus! {

/// One namespace slot of a name: the item it denotes, the visibility it
/// was declared (or re-exported) with, and whether it arrived through a
/// glob import.
#[derive(Clone, Copy, PartialEq, Eq, Structural, Debug)]
pub struct ScopeSlot {
    pub def_id: ModuleDefId,
    pub visibility: ItemVisibility,
    pub is_glob_import: bool,
}

/// A name of a module's scope together with its namespace slots.
#[derive(Debug)]
pub struct ScopeEntry {
    pub name: String,
    pub types: Option<ScopeSlot>,
    pub values: Option<ScopeSlot>,
}

/// One module of a crate.
#[derive(Debug)]
pub struct ModuleData {
    /// The enclosing module; `None` only for the crate root.
    pub parent: Option<LocalModuleId>,
    /// Child modules declared in this module, by name.
    pub children: Vec<(String, LocalModuleId)>,
    /// True if this is the pseudo-module that holds a struct's items.
    pub is_struct: bool,
    /// The file this module's source lives in.
    pub file: FileId,
    /// Names of items declared directly in this module.
    pub definitions: Vec<ScopeEntry>,
    /// All names visible in this module, imports included.
    pub scope: Vec<ScopeEntry>,
}

/// The module table of one crate.
#[derive(Debug)]
pub struct CrateDefMap {
    pub root: LocalModuleId,
    pub modules: Vec<ModuleData>,
}

impl CrateDefMap {
    /// Well-formedness: the root exists, every parent edge points strictly
    /// downward in the array (so the parent relation is acyclic), and
    /// every child edge stays within the table.
    pub open spec fn wf(self) -> bool {
        &&& self.root.0 < self.modules.len()
        &&& forall|i: int|
            0 <= i < self.modules.len() ==> match (#[trigger] self.modules[i]).parent {
                Some(p) => p.0 < i,
                None => true,
            }
        &&& forall|i: int, j: int|
            0 <= i < self.modules.len() && 0 <= j < self.modules[i].children.len()
                ==> (#[trigger] self.modules[i].children[j]).1.0 < self.modules.len()
    }
}

/// The table of def maps of all crates, indexed by `CrateId`.
pub type DefMaps = Vec<CrateDefMap>;

/// First child of the given name in a module's child list, scanning from
/// position `i` on.
pub open spec fn spec_find_child_from(
    children: Seq<(String, LocalModuleId)>,
    name: Seq<char>,
    i: int,
) -> Option<LocalModuleId>
    decreases children.len() - i,
{
    if i < 0 || i >= children.len() {
        None
    } else if children[i].0@ == name {
        Some(children[i].1)
    } else {
        spec_find_child_from(children, name, i + 1)
    }
}

/// The child module of the given name, if the module declares one.
pub open spec fn spec_find_child(
    children: Seq<(String, LocalModuleId)>,
    name: Seq<char>,
) -> Option<LocalModuleId> {
    spec_find_child_from(children, name, 0)
}

/// The two namespace slots a name occupies in a module's scope.
#[derive(Clone, Copy, PartialEq, Eq, Structural, Debug)]
pub struct PerNs {
    pub types: Option<ScopeSlot>,
    pub values: Option<ScopeSlot>,
}

/// The namespace slots of the given name, scanning from position `i`
/// on; both slots empty when the name is not in the scope.
pub open spec fn spec_find_name_from(scope: Seq<ScopeEntry>, name: Seq<char>, i: int) -> PerNs
    decreases scope.len() - i,
{
    if i < 0 || i >= scope.len() {
        PerNs { types: None, values: None }
    } else if scope[i].name@ == name {
        PerNs { types: scope[i].types, values: scope[i].values }
    } else {
        spec_find_name_from(scope, name, i + 1)
    }
}

impl ModuleData {
    /// Looks up a name in this module's scope.
    pub fn find_name(&self, name: &String) -> (r: PerNs)
        ensures
            r == spec_find_name_from(self.scope@, name@, 0),
    {
        let n = self.scope.len();
        for i in 0..n
            invariant
                n == self.scope.len(),
                spec_find_name_from(self.scope@, name@, 0) == spec_find_name_from(
                    self.scope@,
                    name@,
                    i as int,
                ),
        {
            let entry = &self.scope[i];
            if entry.name.eq(name) {
                return PerNs { types: entry.types, values: entry.values };
            }
        }
        PerNs { types: None, values: None }
    }

    /// Looks up a child module by name.
    pub fn find_child(&self, name: &String) -> (r: Option<LocalModuleId>)
        ensures
            r == spec_find_child(self.children@, name@),
            r matches Some(c) ==> exists|j: int|
                0 <= j < self.children@.len() && (#[trigger] self.children@[j]).1 == c,
    {
        let n = self.children.len();
        for i in 0..n
            invariant
                n == self.children.len(),
                spec_find_child(self.children@, name@) == spec_find_child_from(
                    self.children@,
                    name@,
                    i as int,
                ),
        {
            let entry = &self.children[i];
            if entry.0.eq(name) {
                proof {
                    assert(self.children@[i as int].1 == entry.1);
                }
                return Some(entry.1);
            }
        }
        None
    }
}

} // verus!

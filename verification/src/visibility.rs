//! The visibility predicate: whether an item declared in some module may
//! be referenced from the current module under its declared visibility.
//!
//! `Public` items are reachable from anywhere; `pub(crate)` items from
//! anywhere in the defining crate; private items only from the defining
//! module itself or one of its (transitive) submodules, with one
//! exception: the items of a struct's pseudo-module are reachable from
//! the module the struct is declared in.

use vstd::prelude::*;

use crate::def_map::{CrateDefMap, DefMaps};
use crate::ids::{CrateId, ItemVisibility, LocalModuleId, ModuleId};
use crate::types::StructType;

verus! {

/// Whether `current` is `target` itself or a (transitively) nested
/// submodule of it: walks parent edges upward from `current`.
pub open spec fn spec_module_descendent_of(
    def_map: CrateDefMap,
    target: LocalModuleId,
    current: LocalModuleId,
) -> bool
    decreases current.0,
{
    current == target || (current.0 < def_map.modules.len()
        && match def_map.modules[current.0 as int].parent {
        Some(parent) => parent.0 < current.0 && spec_module_descendent_of(
            def_map,
            target,
            parent,
        ),
        None => false,
    })
}

/// Whether `target` is a struct's pseudo-module whose parent is `current`.
pub open spec fn spec_module_is_parent_of_struct_module(
    def_map: CrateDefMap,
    current: LocalModuleId,
    target: LocalModuleId,
) -> bool {
    &&& target.0 < def_map.modules.len()
    &&& def_map.modules[target.0 as int].is_struct
    &&& def_map.modules[target.0 as int].parent == Some(current)
}

/// The visibility predicate of the truth table: `Public` is always
/// reachable; `PublicCrate` exactly within the defining crate; `Private`
/// exactly within the same crate from the target module or one of its
/// descendants, or from the parent of a struct's pseudo-module.
pub open spec fn spec_can_reference_module_id(
    def_maps: Seq<CrateDefMap>,
    importing_crate: CrateId,
    current_module: LocalModuleId,
    target_module: ModuleId,
    visibility: ItemVisibility,
) -> bool {
    match visibility {
        ItemVisibility::Public => true,
        ItemVisibility::PublicCrate => target_module.krate == importing_crate,
        ItemVisibility::Private => {
            let def_map = def_maps[target_module.krate.0 as int];
            target_module.krate == importing_crate && (spec_module_descendent_of(
                def_map,
                target_module.local_id,
                current_module,
            ) || spec_module_is_parent_of_struct_module(
                def_map,
                current_module,
                target_module.local_id,
            ))
        },
    }
}

/// Returns true if `current` is `target` or a (potentially nested) child
/// module of `target`.
pub fn module_descendent_of_target(
    def_map: &CrateDefMap,
    target: LocalModuleId,
    current: LocalModuleId,
) -> (r: bool)
    requires
        def_map.wf(),
        current.0 < def_map.modules.len(),
    ensures
        r == spec_module_descendent_of(*def_map, target, current),
    decreases current.0,
{
    if current == target {
        return true;
    }
    match def_map.modules[current.0].parent {
        Some(parent) => module_descendent_of_target(def_map, target, parent),
        None => false,
    }
}

/// Returns true if `target` is a struct's pseudo-module and its parent is
/// `current`.
pub fn module_is_parent_of_struct_module(
    def_map: &CrateDefMap,
    current: LocalModuleId,
    target: LocalModuleId,
) -> (r: bool)
    requires
        target.0 < def_map.modules.len(),
    ensures
        r == spec_module_is_parent_of_struct_module(*def_map, current, target),
{
    let module_data = &def_map.modules[target.0];
    module_data.is_struct && module_data.parent == Some(current)
}

/// Decides whether an item of `target_module`, declared with
/// `visibility`, can be referenced from `current_module` of
/// `importing_crate`.
pub fn can_reference_module_id(
    def_maps: &DefMaps,
    importing_crate: CrateId,
    current_module: LocalModuleId,
    target_module: ModuleId,
    visibility: ItemVisibility,
) -> (r: bool)
    requires
        visibility is Private ==> {
            &&& target_module.krate.0 < def_maps.len()
            &&& def_maps[target_module.krate.0 as int].wf()
            &&& (target_module.krate == importing_crate ==> current_module.0 < def_maps[
                target_module.krate.0 as int
            ].modules.len())
        },
    ensures
        r == spec_can_reference_module_id(
            def_maps@,
            importing_crate,
            current_module,
            target_module,
            visibility,
        ),
{
    let same_crate = target_module.krate == importing_crate;

    match visibility {
        ItemVisibility::Public => true,
        ItemVisibility::PublicCrate => same_crate,
        ItemVisibility::Private => {
            let target_crate_def_map = &def_maps[target_module.krate.0];
            same_crate && (module_descendent_of_target(
                target_crate_def_map,
                target_module.local_id,
                current_module,
            ) || {
                target_module.local_id.0 < target_crate_def_map.modules.len()
                    && module_is_parent_of_struct_module(
                    target_crate_def_map,
                    current_module,
                    target_module.local_id,
                )
            })
        },
    }
}

/// Decides whether a struct field declared with `visibility` is visible
/// from `current_module_id`: public fields always, `pub(crate)` fields
/// within the struct's crate, private fields from the module the struct
/// is declared in or any of its descendants.
pub fn struct_field_is_visible(
    struct_type: &StructType,
    visibility: ItemVisibility,
    current_module_id: ModuleId,
    def_maps: &DefMaps,
) -> (r: bool)
    requires
        visibility is Private && struct_type.parent_module.krate == current_module_id.krate
            && struct_type.parent_module.local_id != current_module_id.local_id ==> {
            &&& current_module_id.krate.0 < def_maps.len()
            &&& def_maps[current_module_id.krate.0 as int].wf()
            &&& current_module_id.local_id.0 < def_maps[
                current_module_id.krate.0 as int
            ].modules.len()
        },
    ensures
        r == match visibility {
            ItemVisibility::Public => true,
            ItemVisibility::PublicCrate => struct_type.parent_module.krate
                == current_module_id.krate,
            ItemVisibility::Private => struct_type.parent_module.krate == current_module_id.krate
                && spec_module_descendent_of(
                def_maps@[current_module_id.krate.0 as int],
                struct_type.parent_module.local_id,
                current_module_id.local_id,
            ),
        },
{
    match visibility {
        ItemVisibility::Public => true,
        ItemVisibility::PublicCrate => {
            struct_type.parent_module_id().krate == current_module_id.krate
        },
        ItemVisibility::Private => {
            let struct_parent_module_id = struct_type.parent_module_id();
            if struct_parent_module_id.krate != current_module_id.krate {
                return false;
            }
            if struct_parent_module_id.local_id == current_module_id.local_id {
                return true;
            }
            let def_map = &def_maps[current_module_id.krate.0];
            module_descendent_of_target(
                def_map,
                struct_parent_module_id.local_id,
                current_module_id.local_id,
            )
        },
    }
}

/// Law: every module descends from itself.
pub proof fn lemma_module_descendent_reflexive(def_map: CrateDefMap, m: LocalModuleId)
    ensures
        spec_module_descendent_of(def_map, m, m),
{
}

/// Law: descent is transitive. If `a` descends from `b` and `b` descends
/// from `c`, then `a` descends from `c`.
pub proof fn lemma_module_descendent_transitive(
    def_map: CrateDefMap,
    a: LocalModuleId,
    b: LocalModuleId,
    c: LocalModuleId,
)
    requires
        spec_module_descendent_of(def_map, b, a),
        spec_module_descendent_of(def_map, c, b),
    ensures
        spec_module_descendent_of(def_map, c, a),
    decreases a.0,
{
    if a == b {
        // a's descent from c is exactly b's.
    } else {
        let parent = def_map.modules[a.0 as int].parent.unwrap();
        lemma_module_descendent_transitive(def_map, parent, b, c);
    }
}

} // verus!

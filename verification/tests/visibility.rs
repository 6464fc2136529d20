//! The visibility predicate against its truth table, and the module
//! descent relation.

use noir_completion::def_map::{CrateDefMap, ModuleData};
use noir_completion::ids::{CrateId, ItemVisibility, LocalModuleId, ModuleId};
use noir_completion::span::FileId;
use noir_completion::types::StructType;
use noir_completion::visibility::{
    can_reference_module_id, module_descendent_of_target, module_is_parent_of_struct_module,
    struct_field_is_visible,
};

fn module(parent: Option<usize>, is_struct: bool) -> ModuleData {
    ModuleData {
        parent: parent.map(LocalModuleId),
        children: vec![],
        is_struct,
        file: FileId(0),
        definitions: vec![],
        scope: vec![],
    }
}

/// A crate with root 0, a child module 1, a grandchild 2, a sibling 3,
/// and a struct pseudo-module 4 under module 1.
fn def_map() -> CrateDefMap {
    CrateDefMap {
        root: LocalModuleId(0),
        modules: vec![
            module(None, false),
            module(Some(0), false),
            module(Some(1), false),
            module(Some(0), false),
            module(Some(1), true),
        ],
    }
}

fn module_id(krate: usize, local: usize) -> ModuleId {
    ModuleId { krate: CrateId(krate), local_id: LocalModuleId(local) }
}

#[test]
fn descendent_is_reflexive() {
    let dm = def_map();
    assert!(module_descendent_of_target(&dm, LocalModuleId(2), LocalModuleId(2)));
}

#[test]
fn descendent_walks_parents_transitively() {
    let dm = def_map();
    // 2 descends 1, 1 descends 0, and 2 descends 0.
    assert!(module_descendent_of_target(&dm, LocalModuleId(1), LocalModuleId(2)));
    assert!(module_descendent_of_target(&dm, LocalModuleId(0), LocalModuleId(1)));
    assert!(module_descendent_of_target(&dm, LocalModuleId(0), LocalModuleId(2)));
}

#[test]
fn descendent_rejects_siblings() {
    let dm = def_map();
    assert!(!module_descendent_of_target(&dm, LocalModuleId(1), LocalModuleId(3)));
    assert!(!module_descendent_of_target(&dm, LocalModuleId(2), LocalModuleId(1)));
}

#[test]
fn struct_module_parent() {
    let dm = def_map();
    assert!(module_is_parent_of_struct_module(&dm, LocalModuleId(1), LocalModuleId(4)));
    // Module 2 is not the parent of the pseudo-module.
    assert!(!module_is_parent_of_struct_module(&dm, LocalModuleId(2), LocalModuleId(4)));
    // Module 2 is not a struct pseudo-module at all.
    assert!(!module_is_parent_of_struct_module(&dm, LocalModuleId(1), LocalModuleId(2)));
}

#[test]
fn public_is_visible_everywhere() {
    let def_maps = vec![def_map()];
    assert!(can_reference_module_id(
        &def_maps,
        CrateId(1),
        LocalModuleId(3),
        module_id(0, 2),
        ItemVisibility::Public,
    ));
}

#[test]
fn public_crate_needs_same_crate() {
    let def_maps = vec![def_map(), def_map()];
    assert!(can_reference_module_id(
        &def_maps,
        CrateId(0),
        LocalModuleId(3),
        module_id(0, 2),
        ItemVisibility::PublicCrate,
    ));
    assert!(!can_reference_module_id(
        &def_maps,
        CrateId(1),
        LocalModuleId(3),
        module_id(0, 2),
        ItemVisibility::PublicCrate,
    ));
}

#[test]
fn private_needs_ancestor_or_struct_parent() {
    let def_maps = vec![def_map()];
    // From the target module itself.
    assert!(can_reference_module_id(
        &def_maps,
        CrateId(0),
        LocalModuleId(1),
        module_id(0, 1),
        ItemVisibility::Private,
    ));
    // From a nested child of the target.
    assert!(can_reference_module_id(
        &def_maps,
        CrateId(0),
        LocalModuleId(2),
        module_id(0, 1),
        ItemVisibility::Private,
    ));
    // From a sibling: no.
    assert!(!can_reference_module_id(
        &def_maps,
        CrateId(0),
        LocalModuleId(3),
        module_id(0, 1),
        ItemVisibility::Private,
    ));
    // A struct pseudo-module is reachable from its parent.
    assert!(can_reference_module_id(
        &def_maps,
        CrateId(0),
        LocalModuleId(1),
        module_id(0, 4),
        ItemVisibility::Private,
    ));
}

#[test]
fn private_needs_same_crate() {
    let def_maps = vec![def_map(), def_map()];
    assert!(!can_reference_module_id(
        &def_maps,
        CrateId(1),
        LocalModuleId(1),
        module_id(0, 1),
        ItemVisibility::Private,
    ));
}

fn sample_struct(krate: usize, local: usize) -> StructType {
    StructType {
        id: noir_completion::ids::StructId(0),
        name: "S".to_string(),
        parent_module: module_id(krate, local),
        generics: vec![],
        fields: vec![],
    }
}

#[test]
fn struct_field_public_always() {
    let def_maps = vec![def_map()];
    let s = sample_struct(0, 1);
    assert!(struct_field_is_visible(&s, ItemVisibility::Public, module_id(1, 0), &def_maps));
}

#[test]
fn struct_field_public_crate_same_crate_only() {
    let def_maps = vec![def_map(), def_map()];
    let s = sample_struct(0, 1);
    assert!(struct_field_is_visible(&s, ItemVisibility::PublicCrate, module_id(0, 3), &def_maps));
    assert!(!struct_field_is_visible(&s, ItemVisibility::PublicCrate, module_id(1, 3), &def_maps));
}

#[test]
fn struct_field_private_from_descendant() {
    let def_maps = vec![def_map()];
    let s = sample_struct(0, 1);
    // From the declaring module and from its child.
    assert!(struct_field_is_visible(&s, ItemVisibility::Private, module_id(0, 1), &def_maps));
    assert!(struct_field_is_visible(&s, ItemVisibility::Private, module_id(0, 2), &def_maps));
    // From a sibling: no.
    assert!(!struct_field_is_visible(&s, ItemVisibility::Private, module_id(0, 3), &def_maps));
}

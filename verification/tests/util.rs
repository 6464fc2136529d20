//! The building blocks: prefix matching, snippets, type rendering,
//! field substitution, lookups and position mapping.

use std::rc::Rc;

use noir_completion::completion_item::{
    function_completion_item, function_snippet, underscore_sort_text, CompletionItemKind,
};
use noir_completion::ids::{
    module_def_id_from_reference_id, CrateId, DefinitionId, FuncId, GlobalId, LocalModuleId,
    ModuleDefId, ModuleId, ReferenceId, StructId, TraitId, TypeAliasId,
};
use noir_completion::kinds::{FunctionCompletionKind, FunctionKind};
use noir_completion::name_matches;
use noir_completion::position::position_to_byte_index;
use noir_completion::span::{FileId, Location, Span};
use noir_completion::types::{
    shallow_method_key, FuncInfo, Interner, MethodKey, Signedness, StructType, Type,
    TypeAliasData,
};

fn empty_interner() -> Interner {
    Interner {
        structs: vec![],
        type_aliases: vec![],
        functions: vec![],
        method_tables: vec![],
        location_types: vec![],
        references: vec![],
        definition_types: vec![],
        type_variable_bindings: vec![],
    }
}

#[test]
fn name_matches_is_prefix_match() {
    assert!(name_matches("hello", ""));
    assert!(name_matches("hello", "he"));
    assert!(name_matches("hello", "hello"));
    assert!(!name_matches("hello", "hello!"));
    assert!(!name_matches("hello", "He"));
    assert!(!name_matches("he", "hello"));
}

#[test]
fn snippet_formula() {
    assert_eq!(
        function_snippet("add", &vec!["a".to_string(), "b".to_string()]),
        "add(${1:a}, ${2:b})"
    );
    assert_eq!(function_snippet("f", &vec![]), "f()");
    assert_eq!(function_snippet("g", &vec!["x".to_string()]), "g(${1:x})");
    let many: Vec<String> = (0..11).map(|i| format!("p{}", i)).collect();
    let snippet = function_snippet("h", &many);
    assert!(snippet.ends_with("${11:p10})"));
}

#[test]
fn function_item_respects_receiver_filter() {
    let free = FuncInfo { params: vec![], has_self: false };
    let method = FuncInfo { params: vec![], has_self: true };
    // A receiver-restricted request drops functions without one.
    let dropped = function_completion_item(
        &"f".to_string(),
        &free,
        FunctionCompletionKind::NameAndParameters,
        FunctionKind::SelfType(MethodKey::Bool),
    );
    assert!(dropped.is_none());
    let kept = function_completion_item(
        &"f".to_string(),
        &method,
        FunctionCompletionKind::NameAndParameters,
        FunctionKind::SelfType(MethodKey::Bool),
    )
    .expect("method kept");
    assert_eq!(kept.kind, CompletionItemKind::Function);
    assert_eq!(kept.insert_text.as_deref(), Some("f()"));
    // A plain name request carries no insert text.
    let plain = function_completion_item(
        &"f".to_string(),
        &free,
        FunctionCompletionKind::Name,
        FunctionKind::Any,
    )
    .expect("free function kept");
    assert!(plain.insert_text.is_none());
}

#[test]
fn underscore_sort_text_collates_last() {
    let text = underscore_sort_text();
    assert_eq!(text, "~");
    assert!(text.as_str() > "zzz");
}

#[test]
fn reference_to_def_id_mapping() {
    let module = ModuleId { krate: CrateId(0), local_id: LocalModuleId(1) };
    assert_eq!(
        module_def_id_from_reference_id(ReferenceId::Module(module)),
        Some(ModuleDefId::Module(module))
    );
    assert_eq!(
        module_def_id_from_reference_id(ReferenceId::Struct(StructId(2))),
        Some(ModuleDefId::Type(StructId(2)))
    );
    assert_eq!(
        module_def_id_from_reference_id(ReferenceId::Trait(TraitId(3))),
        Some(ModuleDefId::Trait(TraitId(3)))
    );
    assert_eq!(
        module_def_id_from_reference_id(ReferenceId::Function(FuncId(4))),
        Some(ModuleDefId::Function(FuncId(4)))
    );
    assert_eq!(
        module_def_id_from_reference_id(ReferenceId::Alias(TypeAliasId(5))),
        Some(ModuleDefId::TypeAlias(TypeAliasId(5)))
    );
    assert_eq!(module_def_id_from_reference_id(ReferenceId::StructMember(StructId(0), 1)), None);
    assert_eq!(module_def_id_from_reference_id(ReferenceId::Global(GlobalId(0))), None);
    assert_eq!(module_def_id_from_reference_id(ReferenceId::Local(DefinitionId(0))), None);
    assert_eq!(module_def_id_from_reference_id(ReferenceId::Reference(0)), None);
}

#[test]
fn type_rendering() {
    let interner = empty_interner();
    assert_eq!(interner.type_to_string(&Type::FieldElement), "Field");
    assert_eq!(interner.type_to_string(&Type::Bool), "bool");
    assert_eq!(
        interner.type_to_string(&Type::Integer(Signedness::Unsigned, 32)),
        "u32"
    );
    assert_eq!(
        interner.type_to_string(&Type::Integer(Signedness::Signed, 64)),
        "i64"
    );
    assert_eq!(
        interner.type_to_string(&Type::Array(3, Box::new(Type::FieldElement))),
        "[Field; 3]"
    );
    assert_eq!(
        interner.type_to_string(&Type::Slice(Box::new(Type::Bool))),
        "[bool]"
    );
    assert_eq!(
        interner.type_to_string(&Type::MutableReference(Box::new(Type::FieldElement))),
        "&mut Field"
    );
    assert_eq!(interner.type_to_string(&Type::Unit), "()");
    assert_eq!(interner.type_to_string(&Type::Str(10)), "str<10>");
}

#[test]
fn struct_name_rendering_via_interner() {
    let mut interner = empty_interner();
    interner.structs = vec![StructType {
        id: StructId(0),
        name: "Point".to_string(),
        parent_module: ModuleId { krate: CrateId(0), local_id: LocalModuleId(0) },
        generics: vec![],
        fields: vec![],
    }];
    assert_eq!(
        interner.type_to_string(&Type::Struct(StructId(0), vec![])),
        "Point"
    );
}

#[test]
fn get_fields_substitutes_generics() {
    let point = StructType {
        id: StructId(0),
        name: "Pair".to_string(),
        parent_module: ModuleId { krate: CrateId(0), local_id: LocalModuleId(0) },
        generics: vec!["T".to_string()],
        fields: vec![
            ("first".to_string(), Rc::new(Type::NamedGeneric("T".to_string()))),
            ("count".to_string(), Rc::new(Type::FieldElement)),
        ],
    };
    let fields = point.get_fields(&vec![Rc::new(Type::Bool)]);
    assert_eq!(fields.len(), 2);
    assert_eq!(fields[0].0, "first");
    assert!(matches!(*fields[0].1, Type::Bool));
    assert!(matches!(*fields[1].1, Type::FieldElement));
}

#[test]
fn method_key_unwraps_aliases_and_references() {
    let mut interner = empty_interner();
    interner.type_aliases = vec![TypeAliasData {
        id: TypeAliasId(0),
        name: "Num".to_string(),
        typ: Rc::new(Type::FieldElement),
    }];
    assert_eq!(
        interner.method_key(&Type::Alias(TypeAliasId(0), vec![])),
        Some(MethodKey::FieldElement)
    );
    assert_eq!(
        interner.method_key(&Type::MutableReference(Box::new(Type::Bool))),
        Some(MethodKey::Bool)
    );
    assert_eq!(interner.method_key(&Type::Error), None);
    assert_eq!(
        shallow_method_key(&Type::Struct(StructId(3), vec![])),
        Some(MethodKey::Struct(StructId(3)))
    );
}

#[test]
fn follow_bindings_resolves_solved_variables() {
    let mut interner = empty_interner();
    interner.type_variable_bindings = vec![(7, Rc::new(Type::Bool))];
    let bound = interner.follow_bindings(&Rc::new(Type::TypeVariable(7)));
    assert!(matches!(*bound, Type::Bool));
    let unbound = interner.follow_bindings(&Rc::new(Type::TypeVariable(8)));
    assert!(matches!(*unbound, Type::TypeVariable(8)));
    let plain = interner.follow_bindings(&Rc::new(Type::Unit));
    assert!(matches!(*plain, Type::Unit));
}

#[test]
fn interner_lookups_degrade_to_nothing() {
    let interner = empty_interner();
    assert!(interner.get_struct(StructId(0)).is_none());
    assert!(interner.get_type_alias(TypeAliasId(0)).is_none());
    assert!(interner.get_function(FuncId(0)).is_none());
    assert!(interner.find_method_table(MethodKey::Bool).is_none());
    assert!(interner
        .type_at_location(Location::new(Span::new(0, 1), FileId(0)))
        .is_none());
    assert!(interner
        .find_referenced(Location::new(Span::new(0, 1), FileId(0)))
        .is_none());
    assert!(interner.definition_type(DefinitionId(0)).is_none());
}

#[test]
fn position_mapping() {
    let source = "abc\ndef\n";
    assert_eq!(position_to_byte_index(source, 0, 0), Some(0));
    assert_eq!(position_to_byte_index(source, 0, 3), Some(3));
    assert_eq!(position_to_byte_index(source, 1, 0), Some(4));
    assert_eq!(position_to_byte_index(source, 1, 2), Some(6));
    assert_eq!(position_to_byte_index(source, 2, 0), Some(8));
    // Past the end of the text, or a line that does not exist.
    assert_eq!(position_to_byte_index(source, 2, 1), None);
    assert_eq!(position_to_byte_index(source, 3, 0), None);
}

#[test]
fn span_boundaries() {
    let span = Span::new(2, 5);
    assert_eq!(span.start, 2);
    assert_eq!(span.end, 5);
    let location = Location::new(span, FileId(1));
    assert_eq!(location.file, FileId(1));
}

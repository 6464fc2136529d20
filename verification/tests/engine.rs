//! End-to-end completion scenarios: the walker run over small parse
//! trees with the cursor at interesting positions.

use std::rc::Rc;

use noir_completion::ast::{
    AssignStatement, BlockExpression, ConstructorExpression, Expression, ExpressionKind,
    FunctionReturnType, Ident, Item, ItemKind, LValue, LetStatement, Literal, NoirFunction,
    ParsedModule, ParsedSubModule, Path, PathKind, PathSegment, Pattern, Statement, StatementKind,
    UnresolvedGeneric, UnresolvedType, UnresolvedTypeData, UseTree, UseTreeKind,
};
use noir_completion::completion_item::{CompletionItem, CompletionItemKind};
use noir_completion::def_map::{CrateDefMap, DefMaps, ModuleData, ScopeEntry, ScopeSlot};
use noir_completion::finder::{Dependency, NodeFinder};
use noir_completion::ids::{
    CrateId, DefinitionId, FuncId, ItemVisibility, LocalModuleId, ModuleDefId, ReferenceId,
    StructId,
};
use noir_completion::span::{FileId, Location, Span};
use noir_completion::types::{
    FuncInfo, Interner, MethodKey, MethodNameGroup, StructType, Type,
};

fn sp(start: u32, end: u32) -> Span {
    Span::new(start, end)
}

fn ident(name: &str, start: u32, end: u32) -> Ident {
    Ident { name: name.to_string(), span: sp(start, end) }
}

fn path(kind: PathKind, names: &[(&str, u32, u32)], start: u32, end: u32) -> Path {
    Path {
        segments: names
            .iter()
            .map(|(name, s, e)| PathSegment { ident: ident(name, *s, *e) })
            .collect(),
        kind,
        span: sp(start, end),
    }
}

fn expr(kind: ExpressionKind, start: u32, end: u32) -> Expression {
    Expression { kind, span: sp(start, end) }
}

fn unspecified_type() -> UnresolvedType {
    UnresolvedType { typ: UnresolvedTypeData::Unspecified, span: None }
}

fn module_data(parent: Option<usize>, file: u32) -> ModuleData {
    ModuleData {
        parent: parent.map(LocalModuleId),
        children: vec![],
        is_struct: false,
        file: FileId(file),
        definitions: vec![],
        scope: vec![],
    }
}

fn entry(name: &str, def_id: ModuleDefId, visibility: ItemVisibility) -> ScopeEntry {
    ScopeEntry {
        name: name.to_string(),
        types: None,
        values: Some(ScopeSlot { def_id, visibility, is_glob_import: false }),
    }
}

fn type_entry(name: &str, def_id: ModuleDefId, visibility: ItemVisibility) -> ScopeEntry {
    ScopeEntry {
        name: name.to_string(),
        types: Some(ScopeSlot { def_id, visibility, is_glob_import: false }),
        values: None,
    }
}

fn empty_interner() -> Interner {
    Interner {
        structs: vec![],
        type_aliases: vec![],
        functions: vec![],
        method_tables: vec![],
        location_types: vec![],
        references: vec![],
        definition_types: vec![],
        type_variable_bindings: vec![],
    }
}

fn single_module_def_maps() -> DefMaps {
    vec![CrateDefMap { root: LocalModuleId(0), modules: vec![module_data(None, 0)] }]
}

fn finder(
    byte_index: usize,
    byte: Option<u8>,
    def_maps: DefMaps,
    dependencies: Vec<Dependency>,
    interner: Interner,
) -> NodeFinder {
    NodeFinder::new(FileId(0), byte_index, byte, CrateId(0), def_maps, dependencies, interner)
}

fn labels(result: &Option<Vec<CompletionItem>>) -> Vec<String> {
    match result {
        Some(items) => items.iter().map(|item| item.label.clone()).collect(),
        None => vec![],
    }
}

/// The parse tree of `fn f() { let foo = 1; let bar = f; }`.
fn local_in_scope_module() -> ParsedModule {
    let let_foo = Statement {
        kind: StatementKind::Let(LetStatement {
            pattern: Pattern::Identifier(ident("foo", 13, 16)),
            typ: unspecified_type(),
            expression: expr(ExpressionKind::Literal(Literal::Integer), 19, 20),
        }),
        span: sp(9, 21),
    };
    let let_bar = Statement {
        kind: StatementKind::Let(LetStatement {
            pattern: Pattern::Identifier(ident("bar", 26, 29)),
            typ: unspecified_type(),
            expression: expr(
                ExpressionKind::Variable(path(PathKind::Plain, &[("f", 32, 33)], 32, 33)),
                32,
                33,
            ),
        }),
        span: sp(22, 34),
    };
    let function = NoirFunction {
        generics: vec![],
        parameters: vec![],
        return_type: FunctionReturnType::Default,
        where_clause: vec![],
        body: BlockExpression { statements: vec![let_foo, let_bar] },
    };
    ParsedModule {
        items: vec![Item { kind: ItemKind::Function(function), span: sp(0, 36) }],
    }
}

fn local_in_scope_interner() -> Interner {
    let mut interner = empty_interner();
    interner.references = vec![
        (Location::new(sp(13, 16), FileId(0)), ReferenceId::Local(DefinitionId(0))),
    ];
    interner.definition_types = vec![(DefinitionId(0), Rc::new(Type::FieldElement))];
    interner
}

#[test]
fn local_in_scope() {
    // `fn f() { let foo = 1; let bar = f|; }`
    let mut finder = finder(
        33,
        Some(b'f'),
        single_module_def_maps(),
        vec![],
        local_in_scope_interner(),
    );
    let result = finder.find(&local_in_scope_module());
    let items = result.expect("expected completions");
    let foo = items.iter().find(|item| item.label == "foo").expect("foo offered");
    assert_eq!(foo.kind, CompletionItemKind::Variable);
    assert_eq!(foo.detail.as_deref(), Some("Field"));
    assert!(!items.iter().any(|item| item.label == "bar"));
}

#[test]
fn cursor_past_path_end_yields_nothing() {
    // One byte past the end of the `f` path: no trailing completion.
    let mut finder = finder(
        34,
        Some(b';'),
        single_module_def_maps(),
        vec![],
        local_in_scope_interner(),
    );
    let result = finder.find(&local_in_scope_module());
    assert!(result.is_none());
}

#[test]
fn engine_is_deterministic_across_runs() {
    let run = || {
        let mut finder = finder(
            33,
            Some(b'f'),
            single_module_def_maps(),
            vec![],
            local_in_scope_interner(),
        );
        finder.find(&local_in_scope_module())
    };
    let first = run();
    let second = run();
    assert_eq!(first, second);
}

/// A crate whose root holds module `math` (module 1), which declares
/// `pub fn add(a: Field, b: Field) -> Field`.
fn math_def_maps() -> DefMaps {
    let mut root = module_data(None, 0);
    root.scope = vec![type_entry(
        "math",
        ModuleDefId::Module(noir_completion::ids::ModuleId {
            krate: CrateId(0),
            local_id: LocalModuleId(1),
        }),
        ItemVisibility::Public,
    )];
    let mut math = module_data(Some(0), 1);
    math.definitions = vec![entry(
        "add",
        ModuleDefId::Function(FuncId(0)),
        ItemVisibility::Public,
    )];
    vec![CrateDefMap { root: LocalModuleId(0), modules: vec![root, math] }]
}

fn math_interner() -> Interner {
    let mut interner = empty_interner();
    interner.functions = vec![FuncInfo {
        params: vec!["a".to_string(), "b".to_string()],
        has_self: false,
    }];
    interner
}

#[test]
fn module_function_after_colons_in_use_tree() {
    // `use crate::math::|`
    // u0 s1 e2 _3 c4 r5 a6 t7 e8 :9 :10 m11 a12 t13 h14 :15 :16
    let use_tree = UseTree {
        prefix: Path { segments: vec![], kind: PathKind::Crate, span: sp(4, 9) },
        kind: UseTreeKind::Path(ident("math", 11, 15), None),
    };
    let module = ParsedModule {
        items: vec![Item { kind: ItemKind::Import(use_tree), span: sp(0, 17) }],
    };
    let mut finder = finder(17, Some(b':'), math_def_maps(), vec![], math_interner());
    let result = finder.find(&module);
    let items = result.expect("expected completions");
    let add = items.iter().find(|item| item.label == "add").expect("add offered");
    assert_eq!(add.kind, CompletionItemKind::Function);
    assert_eq!(add.insert_text.as_deref(), Some("add(${1:a}, ${2:b})"));
}

#[test]
fn aliased_use_import_is_not_completed() {
    // `use crate::math as m|` — the alias suppresses completion.
    let use_tree = UseTree {
        prefix: Path { segments: vec![], kind: PathKind::Crate, span: sp(4, 9) },
        kind: UseTreeKind::Path(ident("math", 11, 15), Some(ident("m", 19, 20))),
    };
    let module = ParsedModule {
        items: vec![Item { kind: ItemKind::Import(use_tree), span: sp(0, 20) }],
    };
    let mut finder = finder(15, Some(b'h'), math_def_maps(), vec![], math_interner());
    let result = finder.find(&module);
    assert!(result.is_none());
}

/// `struct S { x: Field, y: Field }` with a recorded type for the
/// expression `s`.
fn s_struct_interner(s_span: Span) -> Interner {
    let mut interner = empty_interner();
    interner.structs = vec![StructType {
        id: StructId(0),
        name: "S".to_string(),
        parent_module: noir_completion::ids::ModuleId {
            krate: CrateId(0),
            local_id: LocalModuleId(0),
        },
        generics: vec![],
        fields: vec![
            ("x".to_string(), Rc::new(Type::FieldElement)),
            ("y".to_string(), Rc::new(Type::FieldElement)),
        ],
    }];
    interner.location_types = vec![
        (Location::new(s_span, FileId(0)), Rc::new(Type::Struct(StructId(0), vec![]))),
    ];
    interner
}

#[test]
fn member_access_after_dot() {
    // `fn f() { s.| }`: the expression `s` spans 9..10, the dot sits at
    // 10, and the cursor at 11.
    let statement = Statement {
        kind: StatementKind::Semi(expr(
            ExpressionKind::Variable(path(PathKind::Plain, &[("s", 9, 10)], 9, 10)),
            9,
            10,
        )),
        span: sp(9, 11),
    };
    let function = NoirFunction {
        generics: vec![],
        parameters: vec![],
        return_type: FunctionReturnType::Default,
        where_clause: vec![],
        body: BlockExpression { statements: vec![statement] },
    };
    let module = ParsedModule {
        items: vec![Item { kind: ItemKind::Function(function), span: sp(0, 13) }],
    };
    let mut finder = finder(
        11,
        Some(b'.'),
        single_module_def_maps(),
        vec![],
        s_struct_interner(sp(9, 10)),
    );
    let result = finder.find(&module);
    let items = result.expect("expected completions");
    let found: Vec<String> = items.iter().map(|item| item.label.clone()).collect();
    assert!(found.contains(&"x".to_string()));
    assert!(found.contains(&"y".to_string()));
    for item in items.iter().filter(|item| item.label == "x" || item.label == "y") {
        assert_eq!(item.kind, CompletionItemKind::Field);
        assert_eq!(item.detail.as_deref(), Some("Field"));
    }
}

#[test]
fn method_completion_on_struct_type() {
    // `fn f() { S::| }`: the path `S` spans 9..10 and ends with `::` at
    // 10..12; the cursor sits at 12.
    let statement = Statement {
        kind: StatementKind::Semi(expr(
            ExpressionKind::Variable(path(PathKind::Plain, &[("S", 9, 10)], 9, 12)),
            9,
            12,
        )),
        span: sp(9, 13),
    };
    let function = NoirFunction {
        generics: vec![],
        parameters: vec![],
        return_type: FunctionReturnType::Default,
        where_clause: vec![],
        body: BlockExpression { statements: vec![statement] },
    };
    let module = ParsedModule {
        items: vec![Item { kind: ItemKind::Function(function), span: sp(0, 15) }],
    };
    let mut def_maps = single_module_def_maps();
    def_maps[0].modules[0].scope = vec![type_entry(
        "S",
        ModuleDefId::Type(StructId(0)),
        ItemVisibility::Public,
    )];
    let mut interner = s_struct_interner(sp(9, 10));
    interner.functions = vec![FuncInfo { params: vec![], has_self: true }];
    interner.method_tables = vec![(
        MethodKey::Struct(StructId(0)),
        vec![MethodNameGroup { name: "hello".to_string(), func_ids: vec![FuncId(0)] }],
    )];
    let mut finder = finder(12, Some(b':'), def_maps, vec![], interner);
    let result = finder.find(&module);
    let items = result.expect("expected completions");
    let hello = items.iter().find(|item| item.label == "hello").expect("hello offered");
    assert_eq!(hello.kind, CompletionItemKind::Function);
}

/// A crate with root 0, module `m` (1) declaring a private `g`, and a
/// sibling module (2). The files: root 0, m 1, sibling 2.
fn private_g_def_maps() -> DefMaps {
    let mut root = module_data(None, 0);
    root.scope = vec![type_entry(
        "m",
        ModuleDefId::Module(noir_completion::ids::ModuleId {
            krate: CrateId(0),
            local_id: LocalModuleId(1),
        }),
        ItemVisibility::Public,
    )];
    let mut m = module_data(Some(0), 1);
    m.definitions = vec![entry(
        "g",
        ModuleDefId::Function(FuncId(0)),
        ItemVisibility::Private,
    )];
    let sibling = module_data(Some(0), 2);
    vec![CrateDefMap { root: LocalModuleId(0), modules: vec![root, m, sibling] }]
}

fn m_colons_module() -> ParsedModule {
    // `fn f() { m::| }`: path `m` spans 9..10, cursor at 12.
    let statement = Statement {
        kind: StatementKind::Semi(expr(
            ExpressionKind::Variable(path(PathKind::Plain, &[("m", 9, 10)], 9, 12)),
            9,
            12,
        )),
        span: sp(9, 13),
    };
    let function = NoirFunction {
        generics: vec![],
        parameters: vec![],
        return_type: FunctionReturnType::Default,
        where_clause: vec![],
        body: BlockExpression { statements: vec![statement] },
    };
    ParsedModule {
        items: vec![Item { kind: ItemKind::Function(function), span: sp(0, 15) }],
    }
}

#[test]
fn private_function_hidden_from_sibling() {
    let mut interner = empty_interner();
    interner.functions = vec![FuncInfo { params: vec![], has_self: false }];
    // The request comes from the sibling module's file.
    let mut finder = NodeFinder::new(
        FileId(2),
        12,
        Some(b':'),
        CrateId(0),
        private_g_def_maps(),
        vec![],
        interner,
    );
    let result = finder.find(&m_colons_module());
    assert!(!labels(&result).contains(&"g".to_string()));
}

#[test]
fn private_function_offered_inside_its_module() {
    let mut interner = empty_interner();
    interner.functions = vec![FuncInfo { params: vec![], has_self: false }];
    // The request comes from module m's own file.
    let mut finder = NodeFinder::new(
        FileId(1),
        12,
        Some(b':'),
        CrateId(0),
        private_g_def_maps(),
        vec![],
        interner,
    );
    let result = finder.find(&m_colons_module());
    assert!(labels(&result).contains(&"g".to_string()));
}

fn empty_head_path_module() -> ParsedModule {
    // A bare identifier still to be typed at the top of the file: a
    // single empty plain segment ending at offset 0.
    let statement = Statement {
        kind: StatementKind::Semi(expr(
            ExpressionKind::Variable(path(PathKind::Plain, &[("", 0, 0)], 0, 0)),
            0,
            0,
        )),
        span: sp(0, 1),
    };
    let function = NoirFunction {
        generics: vec![],
        parameters: vec![],
        return_type: FunctionReturnType::Default,
        where_clause: vec![],
        body: BlockExpression { statements: vec![statement] },
    };
    ParsedModule {
        items: vec![Item { kind: ItemKind::Function(function), span: sp(0, 4) }],
    }
}

#[test]
fn root_plain_path_offers_dependencies_and_crate_keyword() {
    let deps = vec![Dependency { name: "std".to_string() }];
    let mut finder = finder(0, None, single_module_def_maps(), deps, empty_interner());
    let result = finder.find(&empty_head_path_module());
    let items = result.expect("expected completions");
    let std_item = items.iter().find(|item| item.label == "std").expect("std offered");
    assert_eq!(std_item.kind, CompletionItemKind::Class);
    assert!(items.iter().any(|item| item.label == "crate::"
        && item.kind == CompletionItemKind::Keyword));
    // The root module has no parent, so no `super::`.
    assert!(!items.iter().any(|item| item.label == "super::"));
}

#[test]
fn root_plain_path_offers_super_with_parent() {
    let deps = vec![Dependency { name: "std".to_string() }];
    // The request's file belongs to module 1, a child of the root.
    let mut def_maps = single_module_def_maps();
    def_maps[0].modules[0].file = FileId(7);
    def_maps[0].modules.push(module_data(Some(0), 0));
    let mut finder = finder(0, None, def_maps, deps, empty_interner());
    let result = finder.find(&empty_head_path_module());
    let items = result.expect("expected completions");
    assert!(items.iter().any(|item| item.label == "super::"
        && item.kind == CompletionItemKind::Keyword));
}

#[test]
fn direct_children_after_colons_hide_imports() {
    // Module m declares `own_thing` and merely imports
    // `imported_thing`; right after `m::` only the declaration shows.
    let mut def_maps = private_g_def_maps();
    def_maps[0].modules[1].definitions = vec![entry(
        "own_thing",
        ModuleDefId::Function(FuncId(0)),
        ItemVisibility::Public,
    )];
    def_maps[0].modules[1].scope = vec![
        entry("own_thing", ModuleDefId::Function(FuncId(0)), ItemVisibility::Public),
        entry("imported_thing", ModuleDefId::Function(FuncId(0)), ItemVisibility::Public),
    ];
    let mut interner = empty_interner();
    interner.functions = vec![FuncInfo { params: vec![], has_self: false }];
    let mut finder = finder(12, Some(b':'), def_maps, vec![], interner);
    let result = finder.find(&m_colons_module());
    let found = labels(&result);
    assert!(found.contains(&"own_thing".to_string()));
    assert!(!found.contains(&"imported_thing".to_string()));
}

#[test]
fn cursor_between_colons_yields_nothing() {
    // One byte earlier — right after the first colon — the cursor no
    // longer sits at the path's end, and nothing is offered.
    let mut def_maps = private_g_def_maps();
    def_maps[0].modules[1].definitions = vec![entry(
        "own_thing",
        ModuleDefId::Function(FuncId(0)),
        ItemVisibility::Public,
    )];
    let mut interner = empty_interner();
    interner.functions = vec![FuncInfo { params: vec![], has_self: false }];
    let mut finder = finder(11, Some(b':'), def_maps, vec![], interner);
    let result = finder.find(&m_colons_module());
    assert!(result.is_none());
}

#[test]
fn trailing_segment_uses_all_visible_items() {
    // `m::im|`: the trailing prefix filters the module's whole scope,
    // imports included.
    let statement = Statement {
        kind: StatementKind::Semi(expr(
            ExpressionKind::Variable(path(
                PathKind::Plain,
                &[("m", 9, 10), ("im", 12, 14)],
                9,
                14,
            )),
            9,
            14,
        )),
        span: sp(9, 15),
    };
    let function = NoirFunction {
        generics: vec![],
        parameters: vec![],
        return_type: FunctionReturnType::Default,
        where_clause: vec![],
        body: BlockExpression { statements: vec![statement] },
    };
    let module = ParsedModule {
        items: vec![Item { kind: ItemKind::Function(function), span: sp(0, 17) }],
    };
    let mut def_maps = private_g_def_maps();
    def_maps[0].modules[1].scope = vec![
        entry("imported_thing", ModuleDefId::Function(FuncId(0)), ItemVisibility::Public),
    ];
    let mut interner = empty_interner();
    interner.functions = vec![FuncInfo { params: vec![], has_self: false }];
    let mut finder = finder(14, Some(b'm'), def_maps, vec![], interner);
    let result = finder.find(&module);
    assert!(labels(&result).contains(&"imported_thing".to_string()));
}

#[test]
fn items_outside_the_cursor_produce_nothing() {
    // The cursor sits far past the only item's span.
    let mut finder = finder(
        100,
        Some(b' '),
        single_module_def_maps(),
        vec![],
        local_in_scope_interner(),
    );
    let result = finder.find(&local_in_scope_module());
    assert!(result.is_none());
}

#[test]
fn underscore_labels_sink_to_the_bottom() {
    // A local named `_hidden` gets the collate-last sort text.
    let let_hidden = Statement {
        kind: StatementKind::Let(LetStatement {
            pattern: Pattern::Identifier(ident("_hidden", 13, 20)),
            typ: unspecified_type(),
            expression: expr(ExpressionKind::Literal(Literal::Integer), 23, 24),
        }),
        span: sp(9, 25),
    };
    let trailing = Statement {
        kind: StatementKind::Semi(expr(
            ExpressionKind::Variable(path(PathKind::Plain, &[("_", 26, 27)], 26, 27)),
            26,
            27,
        )),
        span: sp(26, 28),
    };
    let function = NoirFunction {
        generics: vec![],
        parameters: vec![],
        return_type: FunctionReturnType::Default,
        where_clause: vec![],
        body: BlockExpression { statements: vec![let_hidden, trailing] },
    };
    let module = ParsedModule {
        items: vec![Item { kind: ItemKind::Function(function), span: sp(0, 30) }],
    };
    let mut finder = finder(27, Some(b'_'), single_module_def_maps(), vec![], empty_interner());
    let result = finder.find(&module);
    let items = result.expect("expected completions");
    let hidden = items.iter().find(|item| item.label == "_hidden").expect("_hidden offered");
    assert_eq!(hidden.sort_text.as_deref(), Some("~"));
}

#[test]
fn block_restores_locals_and_module_on_return() {
    // Walking a whole block leaves the environments exactly as they
    // were on entry, and walking a submodule restores the module.
    let mut finder = finder(
        33,
        Some(b'f'),
        single_module_def_maps(),
        vec![],
        local_in_scope_interner(),
    );
    finder.local_variables.push(("outer".to_string(), sp(0, 5)));
    finder.type_parameters.push("T".to_string());
    let module_before = finder.module_id;
    let submodule = Item {
        kind: ItemKind::Submodules(ParsedSubModule {
            name: "inner".to_string(),
            contents: local_in_scope_module(),
        }),
        span: sp(0, 40),
    };
    finder.find_in_item(&submodule);
    assert_eq!(finder.module_id, module_before);
    assert_eq!(finder.type_parameters, vec!["T".to_string()]);
}

#[test]
fn comptime_hides_runtime_locals() {
    // `fn f() { let foo = 1; comptime { let bar = f|; } }`
    // Inside the comptime block the runtime local `foo` is not offered.
    let let_foo = Statement {
        kind: StatementKind::Let(LetStatement {
            pattern: Pattern::Identifier(ident("foo", 13, 16)),
            typ: unspecified_type(),
            expression: expr(ExpressionKind::Literal(Literal::Integer), 19, 20),
        }),
        span: sp(9, 21),
    };
    let inner_let = Statement {
        kind: StatementKind::Let(LetStatement {
            pattern: Pattern::Identifier(ident("bar", 37, 40)),
            typ: unspecified_type(),
            expression: expr(
                ExpressionKind::Variable(path(PathKind::Plain, &[("f", 43, 44)], 43, 44)),
                43,
                44,
            ),
        }),
        span: sp(33, 45),
    };
    let comptime = Statement {
        kind: StatementKind::Comptime(Box::new(Statement {
            kind: StatementKind::Expression(expr(
                ExpressionKind::Block(BlockExpression { statements: vec![inner_let] }),
                31,
                47,
            )),
            span: sp(22, 47),
        })),
        span: sp(22, 47),
    };
    let function = NoirFunction {
        generics: vec![],
        parameters: vec![],
        return_type: FunctionReturnType::Default,
        where_clause: vec![],
        body: BlockExpression { statements: vec![let_foo, comptime] },
    };
    let module = ParsedModule {
        items: vec![Item { kind: ItemKind::Function(function), span: sp(0, 49) }],
    };
    let mut finder = finder(
        44,
        Some(b'f'),
        single_module_def_maps(),
        vec![],
        local_in_scope_interner(),
    );
    let result = finder.find(&module);
    assert!(!labels(&result).contains(&"foo".to_string()));
}

#[test]
fn type_position_offers_types_and_type_parameters_only() {
    // `fn f<S1>() { S| { } }`: a constructor's type path asks for types;
    // functions in scope stay out, the matching type parameter shows.
    let constructor = ConstructorExpression {
        typ_path: path(PathKind::Plain, &[("S", 13, 14)], 13, 14),
        fields: vec![],
    };
    let statement = Statement {
        kind: StatementKind::Semi(expr(
            ExpressionKind::Constructor(Box::new(constructor)),
            13,
            18,
        )),
        span: sp(13, 19),
    };
    let function = NoirFunction {
        generics: vec![UnresolvedGeneric::Variable(ident("S1", 5, 7))],
        parameters: vec![],
        return_type: FunctionReturnType::Default,
        where_clause: vec![],
        body: BlockExpression { statements: vec![statement] },
    };
    let module = ParsedModule {
        items: vec![Item { kind: ItemKind::Function(function), span: sp(0, 21) }],
    };
    let mut def_maps = single_module_def_maps();
    def_maps[0].modules[0].scope = vec![
        type_entry("S", ModuleDefId::Type(StructId(0)), ItemVisibility::Public),
        entry("Sum", ModuleDefId::Function(FuncId(0)), ItemVisibility::Public),
    ];
    let mut interner = empty_interner();
    interner.functions = vec![FuncInfo { params: vec![], has_self: false }];
    let mut finder = finder(14, Some(b'S'), def_maps, vec![], interner);
    let result = finder.find(&module);
    let items = result.expect("expected completions");
    let s_item = items.iter().find(|item| item.label == "S").expect("S offered");
    assert_eq!(s_item.kind, CompletionItemKind::Struct);
    let s1 = items.iter().find(|item| item.label == "S1").expect("S1 offered");
    assert_eq!(s1.kind, CompletionItemKind::TypeParameter);
    assert!(!items.iter().any(|item| item.label == "Sum"));
}

#[test]
fn lvalue_trailing_dot_completes_fields() {
    // `fn f() { s.| = 1; }`: the dot after the assignment target
    // completes the fields of the target's recorded definition type.
    let statement = Statement {
        kind: StatementKind::Assign(AssignStatement {
            lvalue: LValue::Ident(ident("s", 9, 10)),
            expression: expr(ExpressionKind::Literal(Literal::Integer), 14, 15),
        }),
        span: sp(9, 16),
    };
    let function = NoirFunction {
        generics: vec![],
        parameters: vec![],
        return_type: FunctionReturnType::Default,
        where_clause: vec![],
        body: BlockExpression { statements: vec![statement] },
    };
    let module = ParsedModule {
        items: vec![Item { kind: ItemKind::Function(function), span: sp(0, 18) }],
    };
    let mut interner = s_struct_interner(sp(9, 10));
    interner.references = vec![
        (Location::new(sp(9, 10), FileId(0)), ReferenceId::Local(DefinitionId(0))),
    ];
    interner.definition_types = vec![
        (DefinitionId(0), Rc::new(Type::Struct(StructId(0), vec![]))),
    ];
    let mut finder = finder(11, Some(b'.'), single_module_def_maps(), vec![], interner);
    let result = finder.find(&module);
    let items = result.expect("expected completions");
    assert!(items.iter().any(|item| item.label == "x"));
    assert!(items.iter().any(|item| item.label == "y"));
}

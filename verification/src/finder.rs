//! The cursor-driven walker and its enumeration routines.
//!
//! A `NodeFinder` is built once per completion request. It walks the
//! parse tree, descending only into nodes whose span contains the
//! cursor, while keeping the local environment (visible locals and
//! in-scope type parameters) and the active module correct at every
//! point. At the one syntactic context that sits right at the cursor it
//! enumerates candidates — module items, struct fields, methods,
//! locals, type parameters, builtins and dependency crates — filtered
//! by prefix and by visibility.

use std::rc::Rc;
use vstd::prelude::*;

use crate::ast::{
    ArrayLiteral, AsTraitPath, AssignStatement, BlockExpression, CallExpression, CastExpression,
    ConstrainStatement, ConstructorExpression, Expression, ExpressionKind, ForLoopStatement,
    ForRange, FunctionReturnType, Ident, IfExpression, IndexExpression, InfixExpression, Item,
    ItemKind, LValue, Lambda, LetStatement, Literal, MemberAccessExpression, MethodCallExpression,
    NoirFunction, NoirStruct, NoirTrait, NoirTraitImpl, NoirTypeAlias, Param, ParsedModule, Path,
    PathKind, PathSegment, Pattern, Statement, StatementKind, TraitImplItem, TraitItem, TypeImpl,
    UnresolvedGeneric, UnresolvedType, UnresolvedTypeData, UseTree, UseTreeKind,
};
use crate::completion_item::{
    clone_opt_string, crate_completion_item, function_completion_item, is_function_completion,
    is_module_def_id_completion, item_is_simple, module_def_id_completion_item,
    simple_completion_item, spec_underscore_sort_text, underscore_sort_text, CompletionItem,
    CompletionItemKind,
};
use crate::def_map::{spec_find_name_from, CrateDefMap, DefMaps, ModuleData, ScopeEntry, ScopeSlot};
use crate::ids::{
    module_def_id_from_reference_id, spec_module_def_id_from_reference_id, CrateId, FuncId,
    LocalModuleId, ModuleDefId, ModuleId, ReferenceId, StructId,
};
use crate::kinds::{FunctionCompletionKind, FunctionKind, ModuleCompletionKind, RequestedItems};
use crate::name_matches;
use crate::span::{FileId, Location, Span};
use crate::types::{
    spec_get_fields, spec_location_type_from, spec_method_table_index_from, Interner, MethodKey,
    Type,
};
use crate::visibility::{can_reference_module_id, spec_can_reference_module_id};

verus! {

/// The byte value of `.`.
pub const DOT_BYTE: u8 = 46;

/// The byte value of `:`.
pub const COLON_BYTE: u8 = 58;

/// A crate the current crate depends on, under the name it is imported
/// as.
#[derive(Debug)]
pub struct Dependency {
    pub name: String,
}

/// The per-request state of the completion engine.
pub struct NodeFinder {
    /// The file the request is in.
    pub file: FileId,
    /// The cursor, as a byte offset into the file's source.
    pub byte_index: usize,
    /// The byte just before the cursor, if the cursor is not at offset 0.
    pub byte: Option<u8>,
    /// The module of the current file.
    pub root_module_id: ModuleId,
    /// The module in scope; shifts while walking inline submodules.
    pub module_id: ModuleId,
    pub def_maps: DefMaps,
    pub dependencies: Vec<Dependency>,
    pub interner: Interner,
    /// Completion items found along the way.
    pub completion_items: Vec<CompletionItem>,
    /// Local variables in scope, with their spans; a later entry for the
    /// same name shadows an earlier one.
    pub local_variables: Vec<(String, Span)>,
    /// Type parameters in scope.
    pub type_parameters: Vec<String>,
}

impl NodeFinder {
    /// Well-formedness of the engine's read-only inputs: every def map
    /// is a well-formed module tree, the current and root modules exist,
    /// function parameter lists are addressable, and the byte before
    /// the cursor exists only when the cursor is positive.
    pub open spec fn wf(self) -> bool {
        &&& forall|k: int| 0 <= k < self.def_maps.len() ==> (#[trigger] self.def_maps@[k]).wf()
        &&& self.module_id.krate.0 < self.def_maps.len()
        &&& self.module_id.local_id.0 < self.def_maps@[self.module_id.krate.0 as int].modules.len()
        &&& self.root_module_id.krate.0 < self.def_maps.len()
        &&& self.root_module_id.local_id.0 < self.def_maps@[
            self.root_module_id.krate.0 as int
        ].modules.len()
        &&& forall|i: int|
            0 <= i < self.interner.functions.len() ==> (#[trigger] self.interner.functions@[
                i
            ]).params.len() < usize::MAX
        &&& self.byte is Some ==> self.byte_index >= 1
    }
}

/// The read-only parts of the finder: everything but the module in
/// scope, the environments and the found items.
pub open spec fn same_context(pre: NodeFinder, post: NodeFinder) -> bool {
    &&& post.file == pre.file
    &&& post.byte_index == pre.byte_index
    &&& post.byte == pre.byte
    &&& post.root_module_id == pre.root_module_id
    &&& post.def_maps == pre.def_maps
    &&& post.dependencies == pre.dependencies
    &&& post.interner == pre.interner
}

/// Items are only ever appended.
pub open spec fn items_extended(pre: NodeFinder, post: NodeFinder) -> bool {
    pre.completion_items@.is_prefix_of(post.completion_items@)
}

/// What every walk preserves: the context, the module in scope and the
/// type parameters; items are only appended.
pub open spec fn walk_post(pre: NodeFinder, post: NodeFinder) -> bool {
    &&& same_context(pre, post)
    &&& post.module_id == pre.module_id
    &&& post.type_parameters@ == pre.type_parameters@
    &&& items_extended(pre, post)
}

/// What walking an expression preserves: additionally the locals, which
/// an expression can never leak.
pub open spec fn expr_post(pre: NodeFinder, post: NodeFinder) -> bool {
    &&& walk_post(pre, post)
    &&& post.local_variables@ == pre.local_variables@
}

/// What walking a statement preserves: a statement may add local
/// bindings but never removes or alters existing ones.
pub open spec fn stmt_post(pre: NodeFinder, post: NodeFinder) -> bool {
    &&& walk_post(pre, post)
    &&& pre.local_variables@.is_prefix_of(post.local_variables@)
}

/// What walking a top-level item preserves: the context and the module
/// in scope; the environments are the item's own business.
pub open spec fn item_post(pre: NodeFinder, post: NodeFinder) -> bool {
    &&& same_context(pre, post)
    &&& post.module_id == pre.module_id
    &&& items_extended(pre, post)
}

/// The first module whose source lives in `file`, scanning from `i` on.
pub open spec fn spec_module_for_file_from(modules: Seq<ModuleData>, file: FileId, i: int) -> Option<
    int,
>
    decreases modules.len() - i,
{
    if i < 0 || i >= modules.len() {
        None
    } else if modules[i].file == file {
        Some(i)
    } else {
        spec_module_for_file_from(modules, file, i + 1)
    }
}

/// The module a completion request enumerates, after the root
/// adjustment: a `crate` path starts over at the crate root, a `super`
/// path at the parent (no parent, no module), and `dep`/plain paths
/// where they stand. `None` when the module does not exist.
pub open spec fn spec_adjusted_module(
    def_maps: Seq<CrateDefMap>,
    module_id: ModuleId,
    path_kind: PathKind,
    at_root: bool,
) -> Option<(int, int)> {
    if module_id.krate.0 >= def_maps.len() {
        None
    } else {
        let dm = def_maps[module_id.krate.0 as int];
        if module_id.local_id.0 >= dm.modules.len() {
            None
        } else if at_root {
            match path_kind {
                PathKind::Crate => if dm.root.0 < dm.modules.len() {
                    Some((module_id.krate.0 as int, dm.root.0 as int))
                } else {
                    None
                },
                PathKind::Super => match dm.modules@[module_id.local_id.0 as int].parent {
                    Some(p) => if p.0 < dm.modules.len() {
                        Some((module_id.krate.0 as int, p.0 as int))
                    } else {
                        None
                    },
                    None => None,
                },
                _ => Some((module_id.krate.0 as int, module_id.local_id.0 as int)),
            }
        } else {
            Some((module_id.krate.0 as int, module_id.local_id.0 as int))
        }
    }
}

/// Whether the walk from `pre` to `post` added an item with this label
/// and kind (and no detail).
pub open spec fn has_new_simple_item(
    pre: NodeFinder,
    post: NodeFinder,
    label: Seq<char>,
    kind: CompletionItemKind,
) -> bool {
    exists|k: int|
        pre.completion_items@.len() <= k < post.completion_items@.len() && item_is_simple(
            #[trigger] post.completion_items@[k],
            label,
            kind,
            None,
        )
}

/// Law: an item once found stays found while more items are appended.
pub proof fn lemma_labeled_item_persists(
    pre: NodeFinder,
    mid: NodeFinder,
    post: NodeFinder,
    label: Seq<char>,
    kind: CompletionItemKind,
)
    requires
        has_new_labeled_item(pre, mid, label, kind),
        mid.completion_items@.is_prefix_of(post.completion_items@),
    ensures
        has_new_labeled_item(pre, post, label, kind),
{
    let k = choose|k: int|
        pre.completion_items@.len() <= k < mid.completion_items@.len() && (
        #[trigger] mid.completion_items@[k]).label@ == label && mid.completion_items@[k].kind
            == kind;
    lemma_extended_elements(mid.completion_items@, post.completion_items@);
    assert(post.completion_items@[k] == mid.completion_items@[k]);
}

/// Law: an item once found stays found while more items are appended.
pub proof fn lemma_simple_item_persists(
    pre: NodeFinder,
    mid: NodeFinder,
    post: NodeFinder,
    label: Seq<char>,
    kind: CompletionItemKind,
)
    requires
        has_new_simple_item(pre, mid, label, kind),
        mid.completion_items@.is_prefix_of(post.completion_items@),
    ensures
        has_new_simple_item(pre, post, label, kind),
{
    let k = choose|k: int|
        pre.completion_items@.len() <= k < mid.completion_items@.len() && item_is_simple(
            #[trigger] mid.completion_items@[k],
            label,
            kind,
            None,
        );
    lemma_extended_elements(mid.completion_items@, post.completion_items@);
    assert(post.completion_items@[k] == mid.completion_items@[k]);
}

/// Law: a found item stays found under a smaller lower bound.
pub proof fn lemma_simple_item_widen(
    pre0: NodeFinder,
    pre: NodeFinder,
    post: NodeFinder,
    label: Seq<char>,
    kind: CompletionItemKind,
)
    requires
        has_new_simple_item(pre, post, label, kind),
        pre0.completion_items@.len() <= pre.completion_items@.len(),
    ensures
        has_new_simple_item(pre0, post, label, kind),
{
    let k = choose|k: int|
        pre.completion_items@.len() <= k < post.completion_items@.len() && item_is_simple(
            #[trigger] post.completion_items@[k],
            label,
            kind,
            None,
        );
    assert(item_is_simple(post.completion_items@[k], label, kind, None));
}

/// Whether any local at or after position `i` shadows the local at `i`.
pub open spec fn spec_has_later(locals: Seq<(String, Span)>, i: int) -> bool {
    exists|j: int| i < j < locals.len() && (#[trigger] locals[j]).0@ == locals[i].0@
}

/// The trailing-dot law of one expression: when nothing was found
/// yet, the byte before the cursor is a dot, the expression ends right
/// before it and the interner records its type, then either some
/// subtree produced items or the fields and methods of the
/// binding-followed type were offered.
pub open spec fn expression_dot_completion(
    pre: NodeFinder,
    post: NodeFinder,
    expression: Expression,
) -> bool {
    match spec_location_type_from(
        pre.interner.location_types@,
        Location { span: expression.span, file: pre.file },
        0,
    ) {
        Some(typ) => (pre.completion_items@.len() == 0 && pre.byte == Some(DOT_BYTE)
            && expression.span.end as int == pre.byte_index - 1) ==> (post.completion_items@.len()
            > 0 || completes_type_fields_and_methods(
            pre,
            post,
            *pre.interner.spec_follow_bindings(typ),
            ""@,
        )),
        None => true,
    }
}

/// The locals a trait function with a body leaves in place: its
/// parameter names with their spans.
pub open spec fn spec_trait_function_locals(trait_item: TraitItem) -> Option<Seq<(String, Span)>> {
    match trait_item {
        TraitItem::Function { generics, parameters, return_type, where_clause, body } => if body
            is Some {
            Some(parameters@.map_values(|p: (Ident, UnresolvedType)| (p.0.name, p.0.span)))
        } else {
            None
        },
        _ => None,
    }
}

/// Law: a found labeled item stays found under an earlier lower bound.
pub proof fn lemma_labeled_item_widen(
    pre0: NodeFinder,
    pre: NodeFinder,
    post: NodeFinder,
    label: Seq<char>,
    kind: CompletionItemKind,
)
    requires
        has_new_labeled_item(pre, post, label, kind),
        pre0.completion_items@.len() <= pre.completion_items@.len(),
    ensures
        has_new_labeled_item(pre0, post, label, kind),
{
    let k = choose|k: int|
        pre.completion_items@.len() <= k < post.completion_items@.len() && (
        #[trigger] post.completion_items@[k]).label@ == label && post.completion_items@[k].kind
            == kind;
    assert(post.completion_items@[k].label@ == label);
}

/// The name/span pairs of a path's segments.
pub open spec fn spec_path_pairs(segments: Seq<PathSegment>) -> Seq<(String, Span)> {
    segments.map_values(|s: PathSegment| (s.ident.name, s.ident.span))
}

/// Whether the name is already among the type parameters in scope.
pub open spec fn spec_tp_contains(type_parameters: Seq<String>, name: Seq<char>) -> bool {
    exists|j: int| 0 <= j < type_parameters.len() && (#[trigger] type_parameters[j])@ == name
}

/// The bindings a pattern declares, in collection order.
pub open spec fn spec_pattern_bindings(pattern: Pattern) -> Seq<(String, Span)>
    decreases pattern,
{
    match pattern {
        Pattern::Identifier(id) => seq![(id.name, id.span)],
        Pattern::Mutable(inner) => spec_pattern_bindings(*inner),
        Pattern::Tuple(patterns) => spec_patterns_bindings(patterns@, patterns@.len() as int),
        Pattern::Struct(_, fields) => spec_field_patterns_bindings(fields@, fields@.len() as int),
    }
}

/// The bindings of the first `i` patterns, in order.
pub open spec fn spec_patterns_bindings(patterns: Seq<Pattern>, i: int) -> Seq<(String, Span)>
    decreases patterns, i,
{
    if i <= 0 || i > patterns.len() {
        Seq::empty()
    } else {
        spec_patterns_bindings(patterns, i - 1) + spec_pattern_bindings(patterns[i - 1])
    }
}

/// The bindings of the first `i` struct-pattern fields, in order.
pub open spec fn spec_field_patterns_bindings(
    fields: Seq<(Ident, Pattern)>,
    i: int,
) -> Seq<(String, Span)>
    decreases fields, i,
{
    if i <= 0 || i > fields.len() {
        Seq::empty()
    } else {
        spec_field_patterns_bindings(fields, i - 1) + spec_pattern_bindings(fields[i - 1].1)
    }
}

/// The bindings of the patterns of the first `i` parameters, in order.
pub open spec fn spec_params_bindings(params: Seq<Param>, i: int) -> Seq<(String, Span)>
    decreases i,
{
    if i <= 0 || i > params.len() {
        Seq::empty()
    } else {
        spec_params_bindings(params, i - 1) + spec_pattern_bindings(params[i - 1].pattern)
    }
}

/// Law: a sequence is a prefix of itself with anything appended.
pub proof fn lemma_prefix_of_extension<T>(a: Seq<T>, b: Seq<T>)
    ensures
        a.is_prefix_of(a + b),
{
    assert(a =~= (a + b).subrange(0, a.len() as int));
}

/// Whether a later local shadows the local at position `i`.
#[verifier::loop_isolation(false)]
fn has_later_occurrence(locals: &Vec<(String, Span)>, i: usize) -> (r: bool)
    requires
        i < locals.len(),
    ensures
        r == spec_has_later(locals@, i as int),
{
    let n = locals.len();
    let mut j = i + 1;
    while j < n
        invariant
            i < j <= n,
            forall|jj: int| i < jj < j ==> (#[trigger] locals@[jj]).0@ != locals@[i as int].0@,
        decreases n - j,
    {
        if locals[j].0.eq(&locals[i].0) {
            return true;
        }
        j = j + 1;
    }
    false
}

/// The positions of the locals offered for a prefix: those whose name
/// matches and is not shadowed by a later binding, in order.
pub open spec fn spec_matching_local_indices(
    locals: Seq<(String, Span)>,
    prefix: Seq<char>,
    i: int,
) -> Seq<int>
    decreases i,
{
    if i <= 0 || i > locals.len() {
        Seq::empty()
    } else {
        let rest = spec_matching_local_indices(locals, prefix, i - 1);
        if prefix.is_prefix_of(locals[i - 1].0@) && !spec_has_later(locals, i - 1) {
            rest.push(i - 1)
        } else {
            rest
        }
    }
}

/// The description a local is offered with: the rendering of its
/// recorded definition type, when its span was recorded as a local
/// reference; nothing otherwise.
pub open spec fn spec_local_detail(interner: Interner, file: FileId, span: Span) -> Option<
    Seq<char>,
> {
    match crate::types::spec_reference_from(interner.references@, Location { span, file }, 0) {
        Some(ReferenceId::Local(definition_id)) => match crate::types::spec_definition_type_from(
            interner.definition_types@,
            definition_id,
            0,
        ) {
            Some(typ) => Some(interner.spec_type_text(*typ)),
            None => None,
        },
        _ => None,
    }
}

/// A copy of a segment stack.
fn clone_segments(segments: &Vec<(String, Span)>) -> (r: Vec<(String, Span)>)
    ensures
        r@ == segments@,
{
    let mut out: Vec<(String, Span)> = Vec::new();
    let n = segments.len();
    for i in 0..n
        invariant
            n == segments.len(),
            out@ =~= segments@.subrange(0, i as int),
    {
        let entry = &segments[i];
        out.push((entry.0.clone(), entry.1));
        proof {
            assert(out@ =~= segments@.subrange(0, i as int + 1));
        }
    }
    proof {
        assert(out@ =~= segments@);
    }
    out
}

/// Resolution of a plain path through module scopes, starting at
/// `current` and consuming `names[i..]`: each intermediate segment must
/// name a module in the type namespace; the final segment resolves to
/// whichever namespace slot holds it, types first.
pub open spec fn spec_resolve_from(
    def_maps: Seq<CrateDefMap>,
    current: ModuleId,
    names: Seq<Seq<char>>,
    i: int,
) -> Option<ModuleDefId>
    decreases names.len() - i,
{
    if i < 0 || i >= names.len() {
        None
    } else if current.krate.0 >= def_maps.len() {
        None
    } else if current.local_id.0 >= def_maps[current.krate.0 as int].modules.len() {
        None
    } else {
        let md = def_maps[current.krate.0 as int].modules@[current.local_id.0 as int];
        let per_ns = spec_find_name_from(md.scope@, names[i], 0);
        if i == names.len() - 1 {
            match per_ns.types {
                Some(slot) => Some(slot.def_id),
                None => match per_ns.values {
                    Some(slot) => Some(slot.def_id),
                    None => None,
                },
            }
        } else {
            match per_ns.types {
                Some(slot) => match slot.def_id {
                    ModuleDefId::Module(m) => spec_resolve_from(def_maps, m, names, i + 1),
                    _ => None,
                },
                None => None,
            }
        }
    }
}

/// The names of a segment stack.
pub open spec fn spec_segment_names(segments: Seq<(String, Span)>) -> Seq<Seq<char>> {
    segments.map_values(|s: (String, Span)| s.0@)
}

/// What a whole path resolves to: resolution through module scopes from
/// the file's root module, and — when that fails — whatever item the
/// final segment's span was recorded to refer to.
pub open spec fn spec_resolve_path(finder: NodeFinder, segments: Seq<(String, Span)>) -> Option<
    ModuleDefId,
> {
    let names = spec_segment_names(segments);
    match spec_resolve_from(finder.def_maps@, finder.root_module_id, names, 0) {
        Some(id) => Some(id),
        None => {
            let location = Location {
                span: segments[segments.len() - 1].1,
                file: finder.file,
            };
            match crate::types::spec_reference_from(finder.interner.references@, location, 0) {
                Some(reference_id) => spec_module_def_id_from_reference_id(reference_id),
                None => None,
            }
        },
    }
}

/// The first module of the table whose source lives in `file`.
#[verifier::loop_isolation(false)]
fn module_index_for_file(def_map: &CrateDefMap, file: FileId) -> (r: Option<usize>)
    ensures
        match r {
            Some(ix) => spec_module_for_file_from(def_map.modules@, file, 0) == Some(ix as int)
                && ix < def_map.modules.len(),
            None => spec_module_for_file_from(def_map.modules@, file, 0) is None,
        },
{
    let n = def_map.modules.len();
    for i in 0..n
        invariant
            n == def_map.modules.len(),
            spec_module_for_file_from(def_map.modules@, file, 0) == spec_module_for_file_from(
                def_map.modules@,
                file,
                i as int,
            ),
    {
        if def_map.modules[i].file == file {
            return Some(i);
        }
    }
    None
}

impl NodeFinder {
    /// Builds the finder for one request: the root module is the
    /// crate's root, and the module in scope is the first module whose
    /// source lives in `file` (the root when none does).
    pub fn new(
        file: FileId,
        byte_index: usize,
        byte: Option<u8>,
        krate: CrateId,
        def_maps: DefMaps,
        dependencies: Vec<Dependency>,
        interner: Interner,
    ) -> (r: NodeFinder)
        requires
            krate.0 < def_maps.len(),
            forall|k: int| 0 <= k < def_maps.len() ==> (#[trigger] def_maps@[k]).wf(),
            forall|i: int|
                0 <= i < interner.functions.len() ==> (#[trigger] interner.functions@[
                    i
                ]).params.len() < usize::MAX,
            byte is Some ==> byte_index >= 1,
        ensures
            r.wf(),
            r.file == file,
            r.byte_index == byte_index,
            r.byte == byte,
            r.def_maps == def_maps,
            r.dependencies == dependencies,
            r.interner == interner,
            r.root_module_id == (ModuleId { krate, local_id: def_maps@[krate.0 as int].root }),
            r.module_id.krate == krate,
            r.completion_items@.len() == 0,
            r.local_variables@.len() == 0,
            r.type_parameters@.len() == 0,
            match spec_module_for_file_from(def_maps@[krate.0 as int].modules@, file, 0) {
                Some(ix) => r.module_id.local_id.0 == ix,
                None => r.module_id.local_id == def_maps@[krate.0 as int].root,
            },
    {
        proof {
            assert(def_maps@[krate.0 as int].wf());
        }
        let root = def_maps[krate.0].root;
        let root_module_id = ModuleId { krate, local_id: root };
        let local_id = match module_index_for_file(&def_maps[krate.0], file) {
            Some(ix) => LocalModuleId(ix),
            None => root,
        };
        let module_id = ModuleId { krate, local_id };
        NodeFinder {
            file,
            byte_index,
            byte,
            root_module_id,
            module_id,
            def_maps,
            dependencies,
            interner,
            completion_items: Vec::new(),
            local_variables: Vec::new(),
            type_parameters: Vec::new(),
        }
    }

    /// Whether the cursor lies on or between this span's boundaries.
    pub fn includes_span(&self, span: Span) -> (r: bool)
        ensures
            r == span.contains(self.byte_index as int),
    {
        span.start as usize <= self.byte_index && self.byte_index <= span.end as usize
    }

    /// What the final segment's span refers to, as an item definition.
    fn resolve_reference_fallback(&self, segments: &Vec<(String, Span)>) -> (r: Option<
        ModuleDefId,
    >)
        requires
            segments.len() > 0,
        ensures
            r == match crate::types::spec_reference_from(
                self.interner.references@,
                Location { span: segments@[segments@.len() - 1].1, file: self.file },
                0,
            ) {
                Some(reference_id) => spec_module_def_id_from_reference_id(reference_id),
                None => None,
            },
    {
        let last = &segments[segments.len() - 1];
        let location = Location::new(last.1, self.file);
        match self.interner.find_referenced(location) {
            Some(reference_id) => module_def_id_from_reference_id(reference_id),
            None => None,
        }
    }

    /// Resolves a path's leading segments: through module scopes from
    /// the file's root module, falling back to what the final segment's
    /// span was recorded to refer to.
    #[verifier::loop_isolation(false)]
    pub fn resolve_path(&self, segments: &Vec<(String, Span)>) -> (r: Option<ModuleDefId>)
        requires
            segments.len() > 0,
        ensures
            r == spec_resolve_path(*self, segments@),
    {
        let ghost names = spec_segment_names(segments@);
        let mut current = self.root_module_id;
        let n = segments.len();
        for i in 0..n
            invariant
                n == segments.len(),
                spec_resolve_from(self.def_maps@, self.root_module_id, names, 0)
                    == spec_resolve_from(self.def_maps@, current, names, i as int),
        {
            proof {
                assert(names[i as int] == segments@[i as int].0@);
            }
            if current.krate.0 >= self.def_maps.len() {
                return self.resolve_reference_fallback(segments);
            }
            if current.local_id.0 >= self.def_maps[current.krate.0].modules.len() {
                return self.resolve_reference_fallback(segments);
            }
            let per_ns = self.def_maps[current.krate.0].modules[current.local_id.0].find_name(
                &segments[i].0,
            );
            if i == n - 1 {
                let slot = if per_ns.types.is_some() {
                    per_ns.types
                } else {
                    per_ns.values
                };
                match slot {
                    Some(s) => {
                        return Some(s.def_id);
                    },
                    None => {
                        return self.resolve_reference_fallback(segments);
                    },
                }
            } else {
                match per_ns.types {
                    Some(s) => {
                        match s.def_id {
                            ModuleDefId::Module(m) => {
                                current = m;
                            },
                            _ => {
                                return self.resolve_reference_fallback(segments);
                            },
                        }
                    },
                    None => {
                        return self.resolve_reference_fallback(segments);
                    },
                }
            }
        }
        self.resolve_reference_fallback(segments)
    }

    /// Resolves a path's leading segments to a module, or nothing.
    pub fn resolve_module(&self, segments: &Vec<(String, Span)>) -> (r: Option<ModuleId>)
        requires
            segments.len() > 0,
        ensures
            r == match spec_resolve_path(*self, segments@) {
                Some(ModuleDefId::Module(m)) => Some(m),
                _ => None,
            },
    {
        match self.resolve_path(segments) {
            Some(ModuleDefId::Module(module_id)) => Some(module_id),
            _ => None,
        }
    }
}

/// Law: a prefix of a prefix is a prefix.
pub proof fn lemma_prefix_transitive<T>(a: Seq<T>, b: Seq<T>, c: Seq<T>)
    requires
        a.is_prefix_of(b),
        b.is_prefix_of(c),
    ensures
        a.is_prefix_of(c),
{
    assert(a =~= c.subrange(0, a.len() as int));
}

/// How one found item appears in the returned list: the same item,
/// except that a label starting with an underscore gets the
/// collate-last sort text.
pub open spec fn item_with_sort_rule(src: CompletionItem, out: CompletionItem) -> bool {
    &&& out.label == src.label
    &&& out.kind == src.kind
    &&& out.detail == src.detail
    &&& out.insert_text == src.insert_text
    &&& if "_"@.is_prefix_of(src.label@) {
        out.sort_text matches Some(text) && text@ == spec_underscore_sort_text()
    } else {
        out.sort_text == src.sort_text
    }
}

/// Law: extending a list of items leaves the existing ones in place.
pub proof fn lemma_extended_elements(pre: Seq<CompletionItem>, post: Seq<CompletionItem>)
    requires
        pre.is_prefix_of(post),
    ensures
        forall|k: int| 0 <= k < pre.len() ==> (#[trigger] post[k]) == pre[k],
{
    assert forall|k: int| 0 <= k < pre.len() implies (#[trigger] post[k]) == pre[k] by {
        assert(pre =~= post.subrange(0, pre.len() as int));
        assert(pre[k] == post.subrange(0, pre.len() as int)[k]);
    }
}

/// Whether the walk from `pre` to `post` added an item with this label
/// and kind.
pub open spec fn has_new_labeled_item(
    pre: NodeFinder,
    post: NodeFinder,
    label: Seq<char>,
    kind: CompletionItemKind,
) -> bool {
    exists|k: int|
        pre.completion_items@.len() <= k < post.completion_items@.len() && (
        #[trigger] post.completion_items@[k]).label@ == label && post.completion_items@[k].kind
            == kind
}

/// The fields whose names match the prefix, in declaration order.
pub open spec fn spec_matching_fields(
    fields: Seq<(String, Rc<Type>)>,
    prefix: Seq<char>,
) -> Seq<(String, Rc<Type>)>
    decreases fields.len(),
{
    if fields.len() == 0 {
        Seq::empty()
    } else {
        let rest = spec_matching_fields(fields.drop_last(), prefix);
        if prefix.is_prefix_of(fields.last().0@) {
            rest.push(fields.last())
        } else {
            rest
        }
    }
}

/// Law: an item found above a lower bound stays found while more items
/// are appended.
pub proof fn lemma_found_simple_item_persists(
    lo: int,
    mid_items: Seq<CompletionItem>,
    post_items: Seq<CompletionItem>,
    label: Seq<char>,
    kind: CompletionItemKind,
    detail: Option<Seq<char>>,
)
    requires
        0 <= lo,
        exists|k: int|
            lo <= k < mid_items.len() && item_is_simple(#[trigger] mid_items[k], label, kind, detail),
        mid_items.is_prefix_of(post_items),
    ensures
        exists|k: int|
            lo <= k < post_items.len() && item_is_simple(
                #[trigger] post_items[k],
                label,
                kind,
                detail,
            ),
{
    let k = choose|k: int|
        lo <= k < mid_items.len() && item_is_simple(#[trigger] mid_items[k], label, kind, detail);
    lemma_extended_elements(mid_items, post_items);
    assert(post_items[k] == mid_items[k]);
}

/// Law: a settled method item stays settled under an earlier lower
/// bound and an unchanged context.
pub proof fn lemma_method_item_widen(
    pre0: NodeFinder,
    pre: NodeFinder,
    post: NodeFinder,
    name: Seq<char>,
    func_id: FuncId,
    function_kind: FunctionKind,
)
    requires
        method_item_found(pre, post, name, func_id, function_kind),
        pre0.completion_items@.len() <= pre.completion_items@.len(),
        pre0.interner == pre.interner,
    ensures
        method_item_found(pre0, post, name, func_id, function_kind),
{
    match crate::completion_item::spec_get_function_info(pre0.interner, func_id.0 as int) {
        Some(info) => {
            let included = match function_kind {
                FunctionKind::Any => true,
                FunctionKind::SelfType(_) => info.has_self,
            };
            if included {
                let k = choose|k: int|
                    pre.completion_items@.len() <= k < post.completion_items@.len()
                        && is_function_completion(
                        name,
                        info,
                        FunctionCompletionKind::NameAndParameters,
                        function_kind,
                        Some(#[trigger] post.completion_items@[k]),
                    );
                assert(is_function_completion(
                    name,
                    info,
                    FunctionCompletionKind::NameAndParameters,
                    function_kind,
                    Some(post.completion_items@[k]),
                ));
            }
        },
        None => {},
    }
}

/// Law: every matching-fields element passes the prefix filter.
pub proof fn lemma_matching_fields_sound(
    fields: Seq<(String, Rc<Type>)>,
    prefix: Seq<char>,
    jj: int,
)
    requires
        0 <= jj < spec_matching_fields(fields, prefix).len(),
    ensures
        prefix.is_prefix_of(spec_matching_fields(fields, prefix)[jj].0@),
    decreases fields.len(),
{
    if fields.len() > 0 {
        let rest = spec_matching_fields(fields.drop_last(), prefix);
        if prefix.is_prefix_of(fields.last().0@) {
            if jj < rest.len() {
                lemma_matching_fields_sound(fields.drop_last(), prefix, jj);
            }
        } else {
            lemma_matching_fields_sound(fields.drop_last(), prefix, jj);
        }
    }
}

/// Law: every matching field occurs among the matching fields.
pub proof fn lemma_matching_fields_complete(
    fields: Seq<(String, Rc<Type>)>,
    prefix: Seq<char>,
    j: int,
)
    requires
        0 <= j < fields.len(),
        prefix.is_prefix_of(fields[j].0@),
    ensures
        exists|jj: int|
            0 <= jj < spec_matching_fields(fields, prefix).len() && #[trigger] spec_matching_fields(
                fields,
                prefix,
            )[jj] == fields[j],
    decreases fields.len(),
{
    if j == fields.len() - 1 {
        let jj = spec_matching_fields(fields, prefix).len() - 1;
        assert(spec_matching_fields(fields, prefix)[jj] == fields[j]);
    } else {
        lemma_matching_fields_complete(fields.drop_last(), prefix, j);
        let jj = choose|jj: int|
            0 <= jj < spec_matching_fields(fields.drop_last(), prefix).len()
                && #[trigger] spec_matching_fields(fields.drop_last(), prefix)[jj]
                == fields.drop_last()[j];
        assert(spec_matching_fields(fields, prefix)[jj] == fields[j]);
    }
}

/// A type's struct identity and generic arguments, transparently
/// through mutable references and aliases.
pub open spec fn spec_struct_view(interner: Interner, t: Type) -> Option<(StructId, Seq<Rc<Type>>)>
    decreases t,
{
    match t {
        Type::Struct(id, generics) => Some((id, generics@)),
        Type::MutableReference(inner) => spec_struct_view(interner, *inner),
        Type::Alias(id, _) => if id.0 < interner.type_aliases.len() {
            match *interner.type_aliases@[id.0 as int].typ {
                Type::Struct(target_id, target_generics) => Some((target_id, target_generics@)),
                _ => None,
            }
        } else {
            None
        },
        _ => None,
    }
}

/// What offering a type's fields and methods settles: when the type is
/// (transparently) a known struct, every field whose substituted name
/// matches the prefix got its `Field` item with its type's rendering;
/// and every admissible method of the type's method table got its item
/// under the receiver-restricted kind.
pub open spec fn completes_type_fields_and_methods(
    pre: NodeFinder,
    post: NodeFinder,
    t: Type,
    prefix: Seq<char>,
) -> bool {
    &&& match spec_struct_view(pre.interner, t) {
        Some(view) => view.0.0 < pre.interner.structs.len() ==> forall|j: int|
            #![trigger spec_get_fields(pre.interner.structs@[view.0.0 as int], view.1)[j]]
            0 <= j < spec_get_fields(pre.interner.structs@[view.0.0 as int], view.1).len()
                && prefix.is_prefix_of(
                spec_get_fields(pre.interner.structs@[view.0.0 as int], view.1)[j].0@,
            ) ==> exists|k: int|
                pre.completion_items@.len() <= k < post.completion_items@.len() && item_is_simple(
                    #[trigger] post.completion_items@[k],
                    spec_get_fields(pre.interner.structs@[view.0.0 as int], view.1)[j].0@,
                    CompletionItemKind::Field,
                    Some(
                        pre.interner.spec_type_text(
                            *spec_get_fields(pre.interner.structs@[view.0.0 as int], view.1)[j].1,
                        ),
                    ),
                ),
        None => true,
    }
    &&& match pre.interner.spec_method_key(t) {
        Some(key) => match spec_method_table_index_from(pre.interner.method_tables@, key, 0) {
            Some(ix) => forall|g: int, f: int|
                #![trigger pre.interner.method_tables@[ix].1@[g].func_ids@[f]]
                0 <= g < pre.interner.method_tables@[ix].1@.len() && 0 <= f
                    < pre.interner.method_tables@[ix].1@[g].func_ids@.len()
                    && prefix.is_prefix_of(pre.interner.method_tables@[ix].1@[g].name@)
                    ==> method_item_found(
                    pre,
                    post,
                    pre.interner.method_tables@[ix].1@[g].name@,
                    pre.interner.method_tables@[ix].1@[g].func_ids@[f],
                    FunctionKind::SelfType(key),
                ),
            None => true,
        },
        None => true,
    }
}

impl NodeFinder {
    /// Records a type parameter, once: an already-present name changes
    /// nothing, a new one is appended.
    #[verifier::loop_isolation(false)]
    fn insert_type_parameter(&mut self, name: String)
        ensures
            same_context(*old(self), *final(self)),
            final(self).module_id == old(self).module_id,
            final(self).completion_items@ == old(self).completion_items@,
            final(self).local_variables@ == old(self).local_variables@,
            final(self).type_parameters@ == if spec_tp_contains(
                old(self).type_parameters@,
                name@,
            ) {
                old(self).type_parameters@
            } else {
                old(self).type_parameters@.push(name)
            },
            old(self).type_parameters@.is_prefix_of(final(self).type_parameters@),
    {
        let n = self.type_parameters.len();
        for i in 0..n
            invariant
                n == self.type_parameters.len(),
                forall|jj: int|
                    0 <= jj < i ==> (#[trigger] self.type_parameters@[jj])@ != name@,
        {
            if self.type_parameters[i].eq(&name) {
                proof {
                    assert(spec_tp_contains(self.type_parameters@, name@));
                    assert(self.type_parameters@.is_prefix_of(self.type_parameters@));
                }
                return;
            }
        }
        self.type_parameters.push(name);
        proof {
            assert(!spec_tp_contains(old(self).type_parameters@, name@));
            assert(old(self).type_parameters@ =~= self.type_parameters@.subrange(
                0,
                old(self).type_parameters@.len() as int,
            ));
        }
    }

    /// Collects the bindings a pattern declares into the locals:
    /// exactly the pattern's bindings, appended in collection order.
    #[verifier::loop_isolation(false)]
    fn collect_local_variables(&mut self, pattern: &Pattern)
        ensures
            same_context(*old(self), *final(self)),
            final(self).module_id == old(self).module_id,
            final(self).type_parameters@ == old(self).type_parameters@,
            final(self).completion_items@ == old(self).completion_items@,
            final(self).local_variables@ == old(self).local_variables@ + spec_pattern_bindings(
                *pattern,
            ),
            old(self).local_variables@.is_prefix_of(final(self).local_variables@),
        decreases *pattern,
    {
        proof {
            lemma_prefix_of_extension(
                old(self).local_variables@,
                spec_pattern_bindings(*pattern),
            );
        }
        match pattern {
            Pattern::Identifier(ident) => {
                self.local_variables.push((ident.name.clone(), ident.span));
                proof {
                    assert(self.local_variables@ =~= old(self).local_variables@
                        + spec_pattern_bindings(*pattern));
                }
            },
            Pattern::Mutable(inner) => {
                self.collect_local_variables(inner);
            },
            Pattern::Tuple(patterns) => {
                let n = patterns.len();
                for i in 0..n
                    invariant
                        n == patterns.len(),
                        same_context(*old(self), *self),
                        self.module_id == old(self).module_id,
                        self.type_parameters@ == old(self).type_parameters@,
                        self.completion_items@ == old(self).completion_items@,
                        self.local_variables@ == old(self).local_variables@
                            + spec_patterns_bindings(patterns@, i as int),
                {
                    proof {
                        broadcast use vstd::std_specs::vec::group_vec_axioms;

                        assert(decreases_to!(*pattern => *patterns));
                        assert(decreases_to!(*patterns => patterns@[i as int]));
                    }
                    self.collect_local_variables(&patterns[i]);
                    proof {
                        assert(self.local_variables@ =~= old(self).local_variables@
                            + spec_patterns_bindings(patterns@, i as int + 1));
                    }
                }
                proof {
                    assert(self.local_variables@ =~= old(self).local_variables@
                        + spec_pattern_bindings(*pattern));
                }
            },
            Pattern::Struct(_, fields) => {
                let n = fields.len();
                for i in 0..n
                    invariant
                        n == fields.len(),
                        same_context(*old(self), *self),
                        self.module_id == old(self).module_id,
                        self.type_parameters@ == old(self).type_parameters@,
                        self.completion_items@ == old(self).completion_items@,
                        self.local_variables@ == old(self).local_variables@
                            + spec_field_patterns_bindings(fields@, i as int),
                {
                    proof {
                        broadcast use vstd::std_specs::vec::group_vec_axioms;

                        assert(decreases_to!(*pattern => *fields));
                        assert(decreases_to!(*fields => fields@[i as int]));
                    }
                    self.collect_local_variables(&fields[i].1);
                    proof {
                        assert(self.local_variables@ =~= old(self).local_variables@
                            + spec_field_patterns_bindings(fields@, i as int + 1));
                    }
                }
                proof {
                    assert(self.local_variables@ =~= old(self).local_variables@
                        + spec_pattern_bindings(*pattern));
                }
            },
        }
    }

    /// Records one declared generic as a type parameter in scope: the
    /// generic's identifier joins the set (appended once), a resolved
    /// generic contributes nothing.
    fn collect_type_parameters_in_generic(&mut self, generic: &UnresolvedGeneric)
        ensures
            same_context(*old(self), *final(self)),
            final(self).module_id == old(self).module_id,
            final(self).completion_items@ == old(self).completion_items@,
            final(self).local_variables@ == old(self).local_variables@,
            final(self).type_parameters@ == match *generic {
                UnresolvedGeneric::Variable(id) => if spec_tp_contains(
                    old(self).type_parameters@,
                    id.name@,
                ) {
                    old(self).type_parameters@
                } else {
                    old(self).type_parameters@.push(id.name)
                },
                UnresolvedGeneric::Numeric(id) => if spec_tp_contains(
                    old(self).type_parameters@,
                    id.name@,
                ) {
                    old(self).type_parameters@
                } else {
                    old(self).type_parameters@.push(id.name)
                },
                UnresolvedGeneric::Resolved => old(self).type_parameters@,
            },
            old(self).type_parameters@.is_prefix_of(final(self).type_parameters@),
    {
        match generic {
            UnresolvedGeneric::Variable(ident) => {
                self.insert_type_parameter(ident.name.clone());
            },
            UnresolvedGeneric::Numeric(ident) => {
                self.insert_type_parameter(ident.name.clone());
            },
            UnresolvedGeneric::Resolved => {},
        }
    }

    /// Records all declared generics as type parameters in scope.
    fn collect_type_parameters_in_generics(&mut self, generics: &Vec<UnresolvedGeneric>)
        ensures
            same_context(*old(self), *final(self)),
            final(self).module_id == old(self).module_id,
            final(self).completion_items@ == old(self).completion_items@,
            final(self).local_variables@ == old(self).local_variables@,
            old(self).type_parameters@.is_prefix_of(final(self).type_parameters@),
    {
        let n = generics.len();
        for i in 0..n
            invariant
                n == generics.len(),
                same_context(*old(self), *self),
                self.module_id == old(self).module_id,
                self.completion_items@ == old(self).completion_items@,
                self.local_variables@ == old(self).local_variables@,
                old(self).type_parameters@.is_prefix_of(self.type_parameters@),
        {
            let ghost before = self.type_parameters@;
            self.collect_type_parameters_in_generic(&generics[i]);
            proof {
                lemma_prefix_transitive(
                    old(self).type_parameters@,
                    before,
                    self.type_parameters@,
                );
            }
        }
    }

    /// Offers the locals in scope that match the prefix, shadowed
    /// bindings excluded, each with its recorded type as description:
    /// exactly one `Variable` item per offered local, in order, and
    /// nothing else.
    #[verifier::loop_isolation(false)]
    pub fn local_variables_completion(&mut self, prefix: &str)
        requires
            old(self).wf(),
        ensures
            expr_post(*old(self), *final(self)),
            forall|k: int|
                old(self).completion_items@.len() <= k < final(self).completion_items@.len()
                    ==> prefix@.is_prefix_of(
                    (#[trigger] final(self).completion_items@[k]).label@,
                ),
            final(self).completion_items@.len() == old(self).completion_items@.len()
                + spec_matching_local_indices(
                old(self).local_variables@,
                prefix@,
                old(self).local_variables@.len() as int,
            ).len(),
            forall|j: int|
                0 <= j < spec_matching_local_indices(
                    old(self).local_variables@,
                    prefix@,
                    old(self).local_variables@.len() as int,
                ).len() ==> item_is_simple(
                    #[trigger] final(self).completion_items@[old(self).completion_items@.len()
                        + j],
                    old(self).local_variables@[spec_matching_local_indices(
                        old(self).local_variables@,
                        prefix@,
                        old(self).local_variables@.len() as int,
                    )[j]].0@,
                    CompletionItemKind::Variable,
                    spec_local_detail(
                        old(self).interner,
                        old(self).file,
                        old(self).local_variables@[spec_matching_local_indices(
                            old(self).local_variables@,
                            prefix@,
                            old(self).local_variables@.len() as int,
                        )[j]].1,
                    ),
                ),
            forall|i: int|
                0 <= i < old(self).local_variables@.len() && prefix@.is_prefix_of(
                    (#[trigger] old(self).local_variables@[i]).0@,
                ) && !spec_has_later(old(self).local_variables@, i) ==> has_new_labeled_item(
                    *old(self),
                    *final(self),
                    old(self).local_variables@[i].0@,
                    CompletionItemKind::Variable,
                ),
    {
        let n = self.local_variables.len();
        for i in 0..n
            invariant
                n == self.local_variables.len(),
                same_context(*old(self), *self),
                self.module_id == old(self).module_id,
                self.type_parameters@ == old(self).type_parameters@,
                self.local_variables@ == old(self).local_variables@,
                items_extended(*old(self), *self),
                forall|k: int|
                    old(self).completion_items@.len() <= k < self.completion_items@.len()
                        ==> prefix@.is_prefix_of(
                        (#[trigger] self.completion_items@[k]).label@,
                    ),
                self.completion_items@.len() == old(self).completion_items@.len()
                    + spec_matching_local_indices(
                    old(self).local_variables@,
                    prefix@,
                    i as int,
                ).len(),
                forall|j: int|
                    0 <= j < spec_matching_local_indices(
                        old(self).local_variables@,
                        prefix@,
                        i as int,
                    ).len() ==> item_is_simple(
                        #[trigger] self.completion_items@[old(self).completion_items@.len() + j],
                        old(self).local_variables@[spec_matching_local_indices(
                            old(self).local_variables@,
                            prefix@,
                            i as int,
                        )[j]].0@,
                        CompletionItemKind::Variable,
                        spec_local_detail(
                            old(self).interner,
                            old(self).file,
                            old(self).local_variables@[spec_matching_local_indices(
                                old(self).local_variables@,
                                prefix@,
                                i as int,
                            )[j]].1,
                        ),
                    ),
                forall|ii: int|
                    0 <= ii < i && prefix@.is_prefix_of(
                        (#[trigger] old(self).local_variables@[ii]).0@,
                    ) && !spec_has_later(old(self).local_variables@, ii) ==> has_new_labeled_item(
                        *old(self),
                        *self,
                        old(self).local_variables@[ii].0@,
                        CompletionItemKind::Variable,
                    ),
        {
            let ghost prev_self = *self;
            let ghost prev_items = self.completion_items@;
            let entry_name = self.local_variables[i].0.clone();
            let entry_span = self.local_variables[i].1;
            let matches = name_matches(entry_name.as_str(), prefix);
            let later = has_later_occurrence(&self.local_variables, i);
            if matches && !later {
                let description = {
                    let location = Location::new(entry_span, self.file);
                    match self.interner.find_referenced(location) {
                        Some(ReferenceId::Local(definition_id)) => {
                            match self.interner.definition_type(definition_id) {
                                Some(typ) => Some(self.interner.type_to_string(&typ)),
                                None => None,
                            }
                        },
                        _ => None,
                    }
                };
                let item = simple_completion_item(
                    entry_name,
                    CompletionItemKind::Variable,
                    description,
                );
                let ghost g_item = item;
                self.completion_items.push(item);
                proof {
                    lemma_extended_elements(prev_items, self.completion_items@);
                    let k = self.completion_items@.len() - 1;
                    assert(self.completion_items@[k] == g_item);
                    assert(has_new_labeled_item(
                        *old(self),
                        *self,
                        old(self).local_variables@[i as int].0@,
                        CompletionItemKind::Variable,
                    ));
                    assert forall|ii: int|
                        0 <= ii < i && prefix@.is_prefix_of(
                            (#[trigger] old(self).local_variables@[ii]).0@,
                        ) && !spec_has_later(old(self).local_variables@, ii)
                        implies has_new_labeled_item(
                        *old(self),
                        *self,
                        old(self).local_variables@[ii].0@,
                        CompletionItemKind::Variable,
                    ) by {
                        lemma_labeled_item_persists(
                            *old(self),
                            prev_self,
                            *self,
                            old(self).local_variables@[ii].0@,
                            CompletionItemKind::Variable,
                        );
                    }
                }
            }
        }
    }

    /// Offers the type parameters in scope that match the prefix.
    #[verifier::loop_isolation(false)]
    pub fn type_parameters_completion(&mut self, prefix: &str)
        requires
            old(self).wf(),
        ensures
            expr_post(*old(self), *final(self)),
            forall|k: int|
                old(self).completion_items@.len() <= k < final(self).completion_items@.len()
                    ==> prefix@.is_prefix_of(
                    (#[trigger] final(self).completion_items@[k]).label@,
                ),
            forall|i: int|
                0 <= i < old(self).type_parameters@.len() && prefix@.is_prefix_of(
                    (#[trigger] old(self).type_parameters@[i])@,
                ) ==> has_new_labeled_item(
                    *old(self),
                    *final(self),
                    old(self).type_parameters@[i]@,
                    CompletionItemKind::TypeParameter,
                ),
    {
        let n = self.type_parameters.len();
        for i in 0..n
            invariant
                n == self.type_parameters.len(),
                same_context(*old(self), *self),
                self.module_id == old(self).module_id,
                self.type_parameters@ == old(self).type_parameters@,
                self.local_variables@ == old(self).local_variables@,
                items_extended(*old(self), *self),
                forall|k: int|
                    old(self).completion_items@.len() <= k < self.completion_items@.len()
                        ==> prefix@.is_prefix_of(
                        (#[trigger] self.completion_items@[k]).label@,
                    ),
                forall|ii: int|
                    0 <= ii < i && prefix@.is_prefix_of(
                        (#[trigger] old(self).type_parameters@[ii])@,
                    ) ==> has_new_labeled_item(
                        *old(self),
                        *self,
                        old(self).type_parameters@[ii]@,
                        CompletionItemKind::TypeParameter,
                    ),
        {
            let ghost prev_self = *self;
            let ghost prev_items = self.completion_items@;
            let entry_name = self.type_parameters[i].clone();
            if name_matches(entry_name.as_str(), prefix) {
                let item = simple_completion_item(
                    entry_name,
                    CompletionItemKind::TypeParameter,
                    None,
                );
                let ghost g_item = item;
                self.completion_items.push(item);
                proof {
                    lemma_extended_elements(prev_items, self.completion_items@);
                    let k = self.completion_items@.len() - 1;
                    assert(self.completion_items@[k] == g_item);
                    assert(has_new_labeled_item(
                        *old(self),
                        *self,
                        old(self).type_parameters@[i as int]@,
                        CompletionItemKind::TypeParameter,
                    ));
                    assert forall|ii: int|
                        0 <= ii < i && prefix@.is_prefix_of(
                            (#[trigger] old(self).type_parameters@[ii])@,
                        ) implies has_new_labeled_item(
                        *old(self),
                        *self,
                        old(self).type_parameters@[ii]@,
                        CompletionItemKind::TypeParameter,
                    ) by {
                        lemma_labeled_item_persists(
                            *old(self),
                            prev_self,
                            *self,
                            old(self).type_parameters@[ii]@,
                            CompletionItemKind::TypeParameter,
                        );
                    }
                }
            }
        }
    }

    /// Offers the builtin functions that match the prefix, with
    /// parameter snippets.
    pub fn builtin_functions_completion(&mut self, prefix: &str)
        ensures
            expr_post(*old(self), *final(self)),
            forall|k: int|
                old(self).completion_items@.len() <= k < final(self).completion_items@.len()
                    ==> prefix@.is_prefix_of(
                    (#[trigger] final(self).completion_items@[k]).label@,
                ),
            prefix@.is_prefix_of("assert"@) ==> has_new_labeled_item(
                *old(self),
                *final(self),
                "assert"@,
                CompletionItemKind::Function,
            ),
            prefix@.is_prefix_of("assert_eq"@) ==> has_new_labeled_item(
                *old(self),
                *final(self),
                "assert_eq"@,
                CompletionItemKind::Function,
            ),
    {
        if name_matches("assert", prefix) {
            let mut params: Vec<String> = Vec::new();
            params.push("predicate".to_owned());
            let snippet = crate::completion_item::function_snippet("assert", &params);
            let item = CompletionItem {
                label: "assert".to_owned(),
                kind: CompletionItemKind::Function,
                detail: None,
                insert_text: Some(snippet),
                sort_text: None,
            };
            let ghost g_item = item;
            self.completion_items.push(item);
            proof {
                let k = self.completion_items@.len() - 1;
                assert(self.completion_items@[k] == g_item);
                assert(has_new_labeled_item(
                    *old(self),
                    *self,
                    "assert"@,
                    CompletionItemKind::Function,
                ));
            }
        }
        let ghost mid = *self;
        if name_matches("assert_eq", prefix) {
            let mut params: Vec<String> = Vec::new();
            params.push("lhs".to_owned());
            params.push("rhs".to_owned());
            let snippet = crate::completion_item::function_snippet("assert_eq", &params);
            let item = CompletionItem {
                label: "assert_eq".to_owned(),
                kind: CompletionItemKind::Function,
                detail: None,
                insert_text: Some(snippet),
                sort_text: None,
            };
            let ghost g_item = item;
            self.completion_items.push(item);
            proof {
                lemma_extended_elements(mid.completion_items@, self.completion_items@);
                let k = self.completion_items@.len() - 1;
                assert(self.completion_items@[k] == g_item);
                assert(has_new_labeled_item(
                    *old(self),
                    *self,
                    "assert_eq"@,
                    CompletionItemKind::Function,
                ));
            }
        }
        proof {
            if prefix@.is_prefix_of("assert"@) {
                lemma_labeled_item_persists(
                    *old(self),
                    mid,
                    *self,
                    "assert"@,
                    CompletionItemKind::Function,
                );
            }
        }
    }

    /// Offers the builtin values that match the prefix.
    pub fn builtin_values_completion(&mut self, prefix: &str)
        ensures
            expr_post(*old(self), *final(self)),
            forall|k: int|
                old(self).completion_items@.len() <= k < final(self).completion_items@.len()
                    ==> prefix@.is_prefix_of(
                    (#[trigger] final(self).completion_items@[k]).label@,
                ),
            prefix@.is_prefix_of("true"@) ==> has_new_simple_item(
                *old(self),
                *final(self),
                "true"@,
                CompletionItemKind::Keyword,
            ),
            prefix@.is_prefix_of("false"@) ==> has_new_simple_item(
                *old(self),
                *final(self),
                "false"@,
                CompletionItemKind::Keyword,
            ),
    {
        if name_matches("true", prefix) {
            let item = simple_completion_item(
                "true".to_owned(),
                CompletionItemKind::Keyword,
                None,
            );
            let ghost g_item = item;
            self.completion_items.push(item);
            proof {
                let k = self.completion_items@.len() - 1;
                assert(self.completion_items@[k] == g_item);
                assert(has_new_simple_item(
                    *old(self),
                    *self,
                    "true"@,
                    CompletionItemKind::Keyword,
                ));
            }
        }
        let ghost mid = *self;
        if name_matches("false", prefix) {
            let item = simple_completion_item(
                "false".to_owned(),
                CompletionItemKind::Keyword,
                None,
            );
            let ghost g_item = item;
            self.completion_items.push(item);
            proof {
                lemma_extended_elements(mid.completion_items@, self.completion_items@);
                let k = self.completion_items@.len() - 1;
                assert(self.completion_items@[k] == g_item);
                assert(has_new_simple_item(
                    *old(self),
                    *self,
                    "false"@,
                    CompletionItemKind::Keyword,
                ));
            }
        }
        proof {
            if prefix@.is_prefix_of("true"@) {
                lemma_simple_item_persists(
                    *old(self),
                    mid,
                    *self,
                    "true"@,
                    CompletionItemKind::Keyword,
                );
            }
        }
    }

    /// Offers one builtin type name when it matches the prefix.
    fn builtin_type_completion(&mut self, name: &'static str, prefix: &str)
        ensures
            expr_post(*old(self), *final(self)),
            forall|k: int|
                old(self).completion_items@.len() <= k < final(self).completion_items@.len()
                    ==> prefix@.is_prefix_of(
                    (#[trigger] final(self).completion_items@[k]).label@,
                ),
            prefix@.is_prefix_of(name@) ==> has_new_simple_item(
                *old(self),
                *final(self),
                name@,
                CompletionItemKind::Struct,
            ),
    {
        if name_matches(name, prefix) {
            let item = simple_completion_item(name.to_owned(), CompletionItemKind::Struct, None);
            let ghost g_item = item;
            self.completion_items.push(item);
            proof {
                let k = self.completion_items@.len() - 1;
                assert(self.completion_items@[k] == g_item);
                assert(has_new_simple_item(
                    *old(self),
                    *self,
                    name@,
                    CompletionItemKind::Struct,
                ));
            }
        }
    }

    /// Offers the builtin types that match the prefix: one item of
    /// kind `Struct` for each matching builtin type name.
    #[verifier::loop_isolation(false)]
    pub fn builtin_types_completion(&mut self, prefix: &str)
        ensures
            expr_post(*old(self), *final(self)),
            forall|k: int|
                old(self).completion_items@.len() <= k < final(self).completion_items@.len()
                    ==> prefix@.is_prefix_of(
                    (#[trigger] final(self).completion_items@[k]).label@,
                ),
            prefix@.is_prefix_of("Field"@) ==> has_new_simple_item(
                *old(self),
                *final(self),
                "Field"@,
                CompletionItemKind::Struct,
            ),
            prefix@.is_prefix_of("bool"@) ==> has_new_simple_item(
                *old(self),
                *final(self),
                "bool"@,
                CompletionItemKind::Struct,
            ),
            prefix@.is_prefix_of("str"@) ==> has_new_simple_item(
                *old(self),
                *final(self),
                "str"@,
                CompletionItemKind::Struct,
            ),
            prefix@.is_prefix_of("i8"@) ==> has_new_simple_item(
                *old(self),
                *final(self),
                "i8"@,
                CompletionItemKind::Struct,
            ),
            prefix@.is_prefix_of("i16"@) ==> has_new_simple_item(
                *old(self),
                *final(self),
                "i16"@,
                CompletionItemKind::Struct,
            ),
            prefix@.is_prefix_of("i32"@) ==> has_new_simple_item(
                *old(self),
                *final(self),
                "i32"@,
                CompletionItemKind::Struct,
            ),
            prefix@.is_prefix_of("i64"@) ==> has_new_simple_item(
                *old(self),
                *final(self),
                "i64"@,
                CompletionItemKind::Struct,
            ),
            prefix@.is_prefix_of("u8"@) ==> has_new_simple_item(
                *old(self),
                *final(self),
                "u8"@,
                CompletionItemKind::Struct,
            ),
            prefix@.is_prefix_of("u16"@) ==> has_new_simple_item(
                *old(self),
                *final(self),
                "u16"@,
                CompletionItemKind::Struct,
            ),
            prefix@.is_prefix_of("u32"@) ==> has_new_simple_item(
                *old(self),
                *final(self),
                "u32"@,
                CompletionItemKind::Struct,
            ),
            prefix@.is_prefix_of("u64"@) ==> has_new_simple_item(
                *old(self),
                *final(self),
                "u64"@,
                CompletionItemKind::Struct,
            ),
    {
        let mut names: Vec<&'static str> = Vec::new();
        names.push("Field");
        names.push("bool");
        names.push("str");
        names.push("i8");
        names.push("i16");
        names.push("i32");
        names.push("i64");
        names.push("u8");
        names.push("u16");
        names.push("u32");
        names.push("u64");
        let n = names.len();
        for i in 0..n
            invariant
                n == names.len(),
                same_context(*old(self), *self),
                self.module_id == old(self).module_id,
                self.type_parameters@ == old(self).type_parameters@,
                self.local_variables@ == old(self).local_variables@,
                items_extended(*old(self), *self),
                forall|k: int|
                    old(self).completion_items@.len() <= k < self.completion_items@.len()
                        ==> prefix@.is_prefix_of(
                        (#[trigger] self.completion_items@[k]).label@,
                    ),
                forall|ii: int|
                    0 <= ii < i && prefix@.is_prefix_of(
                        (#[trigger] names@[ii])@,
                    ) ==> has_new_simple_item(
                        *old(self),
                        *self,
                        names@[ii]@,
                        CompletionItemKind::Struct,
                    ),
        {
            let ghost prev_self = *self;
            let ghost prev_items = self.completion_items@;
            self.builtin_type_completion(names[i], prefix);
            proof {
                lemma_extended_elements(prev_items, self.completion_items@);
                lemma_prefix_transitive(
                    old(self).completion_items@,
                    prev_items,
                    self.completion_items@,
                );
                if prefix@.is_prefix_of(names@[i as int]@) {
                    lemma_simple_item_widen(
                        *old(self),
                        prev_self,
                        *self,
                        names@[i as int]@,
                        CompletionItemKind::Struct,
                    );
                }
                assert forall|ii: int|
                    0 <= ii < i + 1 && prefix@.is_prefix_of(
                        (#[trigger] names@[ii])@,
                    ) implies has_new_simple_item(
                    *old(self),
                    *self,
                    names@[ii]@,
                    CompletionItemKind::Struct,
                ) by {
                    if ii < i {
                        lemma_simple_item_persists(
                            *old(self),
                            prev_self,
                            *self,
                            names@[ii]@,
                            CompletionItemKind::Struct,
                        );
                    }
                }
            }
        }
        proof {
            assert(names@[0]@ == "Field"@);
            assert(names@[1]@ == "bool"@);
            assert(names@[2]@ == "str"@);
            assert(names@[3]@ == "i8"@);
            assert(names@[4]@ == "i16"@);
            assert(names@[5]@ == "i32"@);
            assert(names@[6]@ == "i64"@);
            assert(names@[7]@ == "u8"@);
            assert(names@[8]@ == "u16"@);
            assert(names@[9]@ == "u32"@);
            assert(names@[10]@ == "u64"@);
        }
    }

    /// Offers the struct fields (already substituted) that match the
    /// prefix, in declaration order, each with its type's rendering.
    #[verifier::loop_isolation(false)]
    pub fn complete_struct_fields(&mut self, fields: &Vec<(String, Rc<Type>)>, prefix: &str)
        requires
            old(self).wf(),
        ensures
            expr_post(*old(self), *final(self)),
            forall|k: int|
                old(self).completion_items@.len() <= k < final(self).completion_items@.len()
                    ==> prefix@.is_prefix_of(
                    (#[trigger] final(self).completion_items@[k]).label@,
                ) && final(self).completion_items@[k].kind == CompletionItemKind::Field,
            final(self).completion_items@.len() == old(self).completion_items@.len()
                + spec_matching_fields(fields@, prefix@).len(),
            forall|j: int|
                0 <= j < spec_matching_fields(fields@, prefix@).len() ==> item_is_simple(
                    #[trigger] final(self).completion_items@[old(self).completion_items@.len() + j],
                    spec_matching_fields(fields@, prefix@)[j].0@,
                    CompletionItemKind::Field,
                    Some(
                        old(self).interner.spec_type_text(
                            *spec_matching_fields(fields@, prefix@)[j].1,
                        ),
                    ),
                ),
    {
        let n = fields.len();
        for i in 0..n
            invariant
                n == fields.len(),
                same_context(*old(self), *self),
                self.module_id == old(self).module_id,
                self.type_parameters@ == old(self).type_parameters@,
                self.local_variables@ == old(self).local_variables@,
                items_extended(*old(self), *self),
                self.completion_items@.len() == old(self).completion_items@.len()
                    + spec_matching_fields(fields@.take(i as int), prefix@).len(),
                forall|j: int|
                    0 <= j < spec_matching_fields(fields@.take(i as int), prefix@).len()
                        ==> item_is_simple(
                        #[trigger] self.completion_items@[old(self).completion_items@.len() + j],
                        spec_matching_fields(fields@.take(i as int), prefix@)[j].0@,
                        CompletionItemKind::Field,
                        Some(
                            old(self).interner.spec_type_text(
                                *spec_matching_fields(fields@.take(i as int), prefix@)[j].1,
                            ),
                        ),
                    ),
        {
            proof {
                assert(fields@.take(i as int + 1).drop_last() =~= fields@.take(i as int));
                assert(fields@.take(i as int + 1).last() == fields@[i as int]);
            }
            let name = fields[i].0.clone();
            if name_matches(name.as_str(), prefix) {
                let description = self.interner.type_to_string(&fields[i].1);
                let item = simple_completion_item(
                    name,
                    CompletionItemKind::Field,
                    Some(description),
                );
                self.completion_items.push(item);
            }
        }
        proof {
            assert(fields@.take(n as int) =~= fields@);
            assert forall|k: int|
                old(self).completion_items@.len() <= k < self.completion_items@.len()
                    implies prefix@.is_prefix_of(
                (#[trigger] self.completion_items@[k]).label@,
            ) && self.completion_items@[k].kind == CompletionItemKind::Field by {
                let j = k - old(self).completion_items@.len();
                lemma_matching_fields_sound(fields@, prefix@, j);
                assert(item_is_simple(
                    self.completion_items@[old(self).completion_items@.len() + j],
                    spec_matching_fields(fields@, prefix@)[j].0@,
                    CompletionItemKind::Field,
                    Some(
                        old(self).interner.spec_type_text(
                            *spec_matching_fields(fields@, prefix@)[j].1,
                        ),
                    ),
                ));
            }
        }
    }

    /// Offers the methods of a type whose names match the prefix, with
    /// parameter snippets, restricted by the requested function kind:
    /// every admissible function of every matching name group yields
    /// its item; a type without a method key or a method table yields
    /// nothing.
    #[verifier::loop_isolation(false)]
    #[verifier::rlimit(60)]
    pub fn complete_type_methods(&mut self, typ: &Type, prefix: &str, function_kind: FunctionKind)
        requires
            old(self).wf(),
        ensures
            expr_post(*old(self), *final(self)),
            forall|k: int|
                old(self).completion_items@.len() <= k < final(self).completion_items@.len()
                    ==> prefix@.is_prefix_of(
                    (#[trigger] final(self).completion_items@[k]).label@,
                ) && final(self).completion_items@[k].kind == CompletionItemKind::Function,
            ({
                match old(self).interner.spec_method_key(*typ) {
                    Some(key) => type_methods_complete(
                        *old(self),
                        *final(self),
                        key,
                        prefix@,
                        function_kind,
                    ),
                    None => final(self).completion_items@ == old(self).completion_items@,
                }
            }),
    {
        let key = match self.interner.method_key(typ) {
            Some(k) => k,
            None => {
                return ;
            },
        };
        let table_ix = match self.interner.find_method_table(key) {
            Some(ix) => ix,
            None => {
                return ;
            },
        };
        let ghost groups = self.interner.method_tables@[table_ix as int].1@;
        let n_groups = self.interner.method_tables[table_ix].1.len();
        for g in 0..n_groups
            invariant
                table_ix < self.interner.method_tables.len(),
                groups == self.interner.method_tables@[table_ix as int].1@,
                n_groups == groups.len(),
                same_context(*old(self), *self),
                self.module_id == old(self).module_id,
                self.type_parameters@ == old(self).type_parameters@,
                self.local_variables@ == old(self).local_variables@,
                items_extended(*old(self), *self),
                forall|k: int|
                    old(self).completion_items@.len() <= k < self.completion_items@.len()
                        ==> prefix@.is_prefix_of(
                        (#[trigger] self.completion_items@[k]).label@,
                    ) && self.completion_items@[k].kind == CompletionItemKind::Function,
                forall|gg: int, ff: int|
                    0 <= gg < g && 0 <= ff < groups[gg].func_ids@.len() && prefix@.is_prefix_of(
                        (#[trigger] groups[gg]).name@,
                    ) ==> method_item_found(
                        *old(self),
                        *self,
                        groups[gg].name@,
                        #[trigger] groups[gg].func_ids@[ff],
                        function_kind,
                    ),
        {
            let group_name = self.interner.method_tables[table_ix].1[g].name.clone();
            let n_funcs = self.interner.method_tables[table_ix].1[g].func_ids.len();
            if name_matches(group_name.as_str(), prefix) {
                for f in 0..n_funcs
                    invariant
                        table_ix < self.interner.method_tables.len(),
                        groups == self.interner.method_tables@[table_ix as int].1@,
                        g < groups.len(),
                        n_funcs == groups[g as int].func_ids@.len(),
                        group_name@ == groups[g as int].name@,
                        prefix@.is_prefix_of(group_name@),
                        same_context(*old(self), *self),
                        self.module_id == old(self).module_id,
                        self.type_parameters@ == old(self).type_parameters@,
                        self.local_variables@ == old(self).local_variables@,
                        items_extended(*old(self), *self),
                        forall|k: int|
                            old(self).completion_items@.len() <= k < self.completion_items@.len()
                                ==> prefix@.is_prefix_of(
                                (#[trigger] self.completion_items@[k]).label@,
                            ) && self.completion_items@[k].kind == CompletionItemKind::Function,
                        forall|gg: int, ff: int|
                            0 <= gg < g && 0 <= ff < groups[gg].func_ids@.len()
                                && prefix@.is_prefix_of(
                                (#[trigger] groups[gg]).name@,
                            ) ==> method_item_found(
                                *old(self),
                                *self,
                                groups[gg].name@,
                                #[trigger] groups[gg].func_ids@[ff],
                                function_kind,
                            ),
                        forall|ff: int|
                            0 <= ff < f ==> method_item_found(
                                *old(self),
                                *self,
                                groups[g as int].name@,
                                #[trigger] groups[g as int].func_ids@[ff],
                                function_kind,
                            ),
                {
                    let func_id = self.interner.method_tables[table_ix].1[g].func_ids[f];
                    let item_opt = match self.interner.get_function(func_id) {
                        Some(info) => function_completion_item(
                            &group_name,
                            info,
                            FunctionCompletionKind::NameAndParameters,
                            function_kind,
                        ),
                        None => None,
                    };
                    let ghost g_opt = item_opt;
                    let ghost prev_self = *self;
                    let ghost prev_items = self.completion_items@;
                    if let Some(item) = item_opt {
                        let ghost g_item = item;
                        self.completion_items.push(item);
                        proof {
                            lemma_extended_elements(prev_items, self.completion_items@);
                            let k = self.completion_items@.len() - 1;
                            assert(self.completion_items@[k] == g_item);
                        }
                    }
                    proof {
                        assert(method_item_found(
                            *old(self),
                            *self,
                            groups[g as int].name@,
                            groups[g as int].func_ids@[f as int],
                            function_kind,
                        ));
                        assert forall|gg: int, ff: int|
                            0 <= gg < g && 0 <= ff < groups[gg].func_ids@.len()
                                && prefix@.is_prefix_of(
                                (#[trigger] groups[gg]).name@,
                            ) implies method_item_found(
                            *old(self),
                            *self,
                            groups[gg].name@,
                            #[trigger] groups[gg].func_ids@[ff],
                            function_kind,
                        ) by {
                            lemma_method_item_persists(
                                *old(self),
                                prev_self,
                                *self,
                                groups[gg].name@,
                                groups[gg].func_ids@[ff],
                                function_kind,
                            );
                        }
                        assert forall|ff: int| 0 <= ff < f + 1 implies method_item_found(
                            *old(self),
                            *self,
                            groups[g as int].name@,
                            #[trigger] groups[g as int].func_ids@[ff],
                            function_kind,
                        ) by {
                            if ff < f {
                                lemma_method_item_persists(
                                    *old(self),
                                    prev_self,
                                    *self,
                                    groups[g as int].name@,
                                    groups[g as int].func_ids@[ff],
                                    function_kind,
                                );
                            }
                        }
                    }
                }
                proof {
                    assert forall|gg: int, ff: int|
                        0 <= gg < g + 1 && 0 <= ff < groups[gg].func_ids@.len()
                            && prefix@.is_prefix_of(
                            (#[trigger] groups[gg]).name@,
                        ) implies method_item_found(
                        *old(self),
                        *self,
                        groups[gg].name@,
                        #[trigger] groups[gg].func_ids@[ff],
                        function_kind,
                    ) by {
                        if gg == g {
                            assert(method_item_found(
                                *old(self),
                                *self,
                                groups[g as int].name@,
                                groups[g as int].func_ids@[ff],
                                function_kind,
                            ));
                        }
                    }
                }
            } else {
                proof {
                    assert forall|gg: int, ff: int|
                        0 <= gg < g + 1 && 0 <= ff < groups[gg].func_ids@.len()
                            && prefix@.is_prefix_of(
                            (#[trigger] groups[gg]).name@,
                        ) implies method_item_found(
                        *old(self),
                        *self,
                        groups[gg].name@,
                        #[trigger] groups[gg].func_ids@[ff],
                        function_kind,
                    ) by {
                        if gg == g {
                            assert(!prefix@.is_prefix_of(groups[g as int].name@));
                        }
                    }
                }
            }
        }
    }

    /// Offers a type's struct fields and its methods: fields for a
    /// struct, transparently through mutable references and aliases,
    /// then the methods whose receiver fits the type.
    #[verifier::loop_isolation(false)]
    #[verifier::rlimit(60)]
    pub fn complete_type_fields_and_methods(&mut self, typ: &Type, prefix: &str)
        requires
            old(self).wf(),
        ensures
            expr_post(*old(self), *final(self)),
            completes_type_fields_and_methods(*old(self), *final(self), *typ, prefix@),
            forall|k: int|
                old(self).completion_items@.len() <= k < final(self).completion_items@.len() ==> (
                #[trigger] final(self).completion_items@[k]).kind == CompletionItemKind::Field || (
                final(self).completion_items@[k]).kind == CompletionItemKind::Function,
            spec_struct_view(old(self).interner, *typ) is None ==> forall|k: int|
                old(self).completion_items@.len() <= k < final(self).completion_items@.len() ==> (
                #[trigger] final(self).completion_items@[k]).kind == CompletionItemKind::Function,
        decreases *typ,
    {
        match typ {
            Type::Struct(id, generics) => {
                let fields_opt = match self.interner.get_struct(*id) {
                    Some(struct_type) => Some(struct_type.get_fields(generics)),
                    None => None,
                };
                let ghost mid = *self;
                if let Some(fields) = fields_opt {
                    let ghost g_fields = fields@;
                    self.complete_struct_fields(&fields, prefix);
                    proof {
                        assert(g_fields == spec_get_fields(
                            self.interner.structs@[id.0 as int],
                            generics@,
                        ));
                    }
                }
                let ghost after_fields = *self;
                let function_kind_opt = match self.interner.method_key(typ) {
                    Some(key) => Some(FunctionKind::SelfType(key)),
                    None => None,
                };
                if let Some(function_kind) = function_kind_opt {
                    self.complete_type_methods(typ, prefix, function_kind);
                }
                proof {
                    lemma_extended_elements(
                        after_fields.completion_items@,
                        self.completion_items@,
                    );
                    // The fields clause: every matching substituted field was
                    // offered by the fields pass and survives the methods pass.
                    if id.0 < self.interner.structs.len() {
                        let view_fields = spec_get_fields(
                            self.interner.structs@[id.0 as int],
                            generics@,
                        );
                        assert forall|j: int|
                            0 <= j < view_fields.len() && prefix@.is_prefix_of(
                                (#[trigger] view_fields[j]).0@,
                            ) implies exists|k: int|
                            old(self).completion_items@.len() <= k
                                < self.completion_items@.len() && item_is_simple(
                                #[trigger] self.completion_items@[k],
                                view_fields[j].0@,
                                CompletionItemKind::Field,
                                Some(self.interner.spec_type_text(*view_fields[j].1)),
                            ) by {
                            lemma_matching_fields_complete(view_fields, prefix@, j);
                            let jj = choose|jj: int|
                                0 <= jj < spec_matching_fields(view_fields, prefix@).len()
                                    && #[trigger] spec_matching_fields(view_fields, prefix@)[jj]
                                    == view_fields[j];
                            assert(item_is_simple(
                                after_fields.completion_items@[old(self).completion_items@.len()
                                    + jj],
                                view_fields[j].0@,
                                CompletionItemKind::Field,
                                Some(self.interner.spec_type_text(*view_fields[j].1)),
                            ));
                            lemma_found_simple_item_persists(
                                old(self).completion_items@.len() as int,
                                after_fields.completion_items@,
                                self.completion_items@,
                                view_fields[j].0@,
                                CompletionItemKind::Field,
                                Some(self.interner.spec_type_text(*view_fields[j].1)),
                            );
                        }
                    }
                    // The methods clause: settled by the methods pass, whose
                    // lower bound is widened back to this function's entry.
                    match self.interner.spec_method_key(*typ) {
                        Some(key) => {
                            match spec_method_table_index_from(
                                self.interner.method_tables@,
                                key,
                                0,
                            ) {
                                Some(ix) => {
                                    assert forall|g: int, f: int|
                                        #![trigger self.interner.method_tables@[
                                            ix
                                        ].1@[g].func_ids@[f]]
                                        0 <= g < self.interner.method_tables@[ix].1@.len() && 0
                                            <= f < self.interner.method_tables@[
                                            ix
                                        ].1@[g].func_ids@.len() && prefix@.is_prefix_of(
                                            self.interner.method_tables@[ix].1@[g].name@,
                                        ) implies method_item_found(
                                        *old(self),
                                        *self,
                                        self.interner.method_tables@[ix].1@[g].name@,
                                        self.interner.method_tables@[ix].1@[g].func_ids@[f],
                                        FunctionKind::SelfType(key),
                                    ) by {
                                        lemma_method_item_widen(
                                            *old(self),
                                            after_fields,
                                            *self,
                                            self.interner.method_tables@[ix].1@[g].name@,
                                            self.interner.method_tables@[ix].1@[g].func_ids@[f],
                                            FunctionKind::SelfType(key),
                                        );
                                    }
                                },
                                None => {},
                            }
                        },
                        None => {},
                    }
                }
            },
            Type::MutableReference(inner) => {
                return self.complete_type_fields_and_methods(inner, prefix);
            },
            Type::Alias(id, _) => {
                let fields_opt = match self.interner.get_type_alias(*id) {
                    Some(alias) => {
                        match &*alias.typ {
                            Type::Struct(target_id, target_generics) => {
                                match self.interner.get_struct(*target_id) {
                                    Some(struct_type) => Some(
                                        (struct_type.get_fields(target_generics), *target_id),
                                    ),
                                    None => None,
                                }
                            },
                            _ => None,
                        }
                    },
                    None => None,
                };
                let ghost view = spec_struct_view(self.interner, *typ);
                if let Some((fields, target_id)) = fields_opt {
                    let ghost g_fields = fields@;
                    self.complete_struct_fields(&fields, prefix);
                    proof {
                        assert(view matches Some(v) && v.0 == target_id);
                        assert(g_fields == spec_get_fields(
                            self.interner.structs@[target_id.0 as int],
                            view.unwrap().1,
                        ));
                    }
                }
                let ghost after_fields = *self;
                let function_kind_opt = match self.interner.method_key(typ) {
                    Some(key) => Some(FunctionKind::SelfType(key)),
                    None => None,
                };
                if let Some(function_kind) = function_kind_opt {
                    self.complete_type_methods(typ, prefix, function_kind);
                }
                proof {
                    lemma_extended_elements(
                        after_fields.completion_items@,
                        self.completion_items@,
                    );
                    match view {
                        Some(v) => {
                            if v.0.0 < self.interner.structs.len() {
                                let view_fields = spec_get_fields(
                                    self.interner.structs@[v.0.0 as int],
                                    v.1,
                                );
                                assert forall|j: int|
                                    0 <= j < view_fields.len() && prefix@.is_prefix_of(
                                        (#[trigger] view_fields[j]).0@,
                                    ) implies exists|k: int|
                                    old(self).completion_items@.len() <= k
                                        < self.completion_items@.len() && item_is_simple(
                                        #[trigger] self.completion_items@[k],
                                        view_fields[j].0@,
                                        CompletionItemKind::Field,
                                        Some(self.interner.spec_type_text(*view_fields[j].1)),
                                    ) by {
                                    lemma_matching_fields_complete(view_fields, prefix@, j);
                                    let jj = choose|jj: int|
                                        0 <= jj < spec_matching_fields(
                                            view_fields,
                                            prefix@,
                                        ).len() && #[trigger] spec_matching_fields(
                                            view_fields,
                                            prefix@,
                                        )[jj] == view_fields[j];
                                    assert(item_is_simple(
                                        after_fields.completion_items@[old(
                                            self,
                                        ).completion_items@.len() + jj],
                                        view_fields[j].0@,
                                        CompletionItemKind::Field,
                                        Some(self.interner.spec_type_text(*view_fields[j].1)),
                                    ));
                                    lemma_found_simple_item_persists(
                                        old(self).completion_items@.len() as int,
                                        after_fields.completion_items@,
                                        self.completion_items@,
                                        view_fields[j].0@,
                                        CompletionItemKind::Field,
                                        Some(self.interner.spec_type_text(*view_fields[j].1)),
                                    );
                                }
                            }
                        },
                        None => {},
                    }
                    match self.interner.spec_method_key(*typ) {
                        Some(key) => {
                            match spec_method_table_index_from(
                                self.interner.method_tables@,
                                key,
                                0,
                            ) {
                                Some(ix) => {
                                    assert forall|g: int, f: int|
                                        #![trigger self.interner.method_tables@[
                                            ix
                                        ].1@[g].func_ids@[f]]
                                        0 <= g < self.interner.method_tables@[ix].1@.len() && 0
                                            <= f < self.interner.method_tables@[
                                            ix
                                        ].1@[g].func_ids@.len() && prefix@.is_prefix_of(
                                            self.interner.method_tables@[ix].1@[g].name@,
                                        ) implies method_item_found(
                                        *old(self),
                                        *self,
                                        self.interner.method_tables@[ix].1@[g].name@,
                                        self.interner.method_tables@[ix].1@[g].func_ids@[f],
                                        FunctionKind::SelfType(key),
                                    ) by {
                                        lemma_method_item_widen(
                                            *old(self),
                                            after_fields,
                                            *self,
                                            self.interner.method_tables@[ix].1@[g].name@,
                                            self.interner.method_tables@[ix].1@[g].func_ids@[f],
                                            FunctionKind::SelfType(key),
                                        );
                                    }
                                },
                                None => {},
                            }
                        },
                        None => {},
                    }
                }
            },
            _ => {
                let function_kind = match self.interner.method_key(typ) {
                    Some(key) => FunctionKind::SelfType(key),
                    None => {
                        return ;
                    },
                };
                self.complete_type_methods(typ, prefix, function_kind);
            },
        }
    }

    /// Checks one namespace slot against the visibility predicate and,
    /// when it passes, offers its item: a visible slot that owes an
    /// item gets exactly the item its definition builds.
    fn push_def_item(
        &mut self,
        slot: ScopeSlot,
        name: &String,
        target: ModuleId,
        function_completion_kind: FunctionCompletionKind,
        requested_items: RequestedItems,
    )
        requires
            old(self).wf(),
            target.krate.0 < old(self).def_maps.len(),
        ensures
            expr_post(*old(self), *final(self)),
            forall|k: int|
                old(self).completion_items@.len() <= k < final(self).completion_items@.len() ==> (
                #[trigger] final(self).completion_items@[k]).label@ == name@,
            !spec_can_reference_module_id(
                old(self).def_maps@,
                old(self).module_id.krate,
                old(self).module_id.local_id,
                target,
                slot.visibility,
            ) ==> final(self).completion_items@ == old(self).completion_items@,
            slot_item_found(
                *old(self),
                *final(self),
                Some(slot),
                name@,
                target,
                function_completion_kind,
                requested_items,
            ),
            forall|k: int|
                old(self).completion_items@.len() <= k < final(self).completion_items@.len()
                    ==> slot_builds_item(
                    *old(self),
                    Some(slot),
                    name@,
                    target,
                    function_completion_kind,
                    requested_items,
                    #[trigger] final(self).completion_items@[k],
                ),
    {
        let visible = can_reference_module_id(
            &self.def_maps,
            self.module_id.krate,
            self.module_id.local_id,
            target,
            slot.visibility,
        );
        if visible {
            let item_opt = module_def_id_completion_item(
                &self.interner,
                slot.def_id,
                name.clone(),
                function_completion_kind,
                FunctionKind::Any,
                requested_items,
            );
            let ghost g_opt = item_opt;
            if let Some(item) = item_opt {
                let ghost g_item = item;
                self.completion_items.push(item);
                proof {
                    let k = self.completion_items@.len() - 1;
                    assert(self.completion_items@[k] == g_item);
                }
            }
            proof {
                if spec_def_item_owed(old(self).interner, slot.def_id, requested_items) {
                    assert(g_opt is Some);
                }
            }
        }
    }

    /// Enumerates a module's names — its own declarations or its whole
    /// scope — filtered by prefix and by visibility, and, at the root
    /// of a plain path, the dependency crates and the `crate::` and
    /// `super::` pseudo-entries.
    #[verifier::loop_isolation(false)]
    #[verifier::rlimit(100)]
    pub fn complete_in_module(
        &mut self,
        module_id: ModuleId,
        prefix: &str,
        path_kind: PathKind,
        at_root: bool,
        module_completion_kind: ModuleCompletionKind,
        function_completion_kind: FunctionCompletionKind,
        requested_items: RequestedItems,
    )
        requires
            old(self).wf(),
        ensures
            expr_post(*old(self), *final(self)),
            forall|k: int|
                old(self).completion_items@.len() <= k < final(self).completion_items@.len()
                    ==> prefix@.is_prefix_of(
                    (#[trigger] final(self).completion_items@[k]).label@,
                ),
            spec_adjusted_module(old(self).def_maps@, module_id, path_kind, at_root) is None
                ==> final(self).completion_items@ == old(self).completion_items@,
            module_enumeration_complete(
                *old(self),
                *final(self),
                module_id,
                prefix@,
                path_kind,
                at_root,
                module_completion_kind,
                function_completion_kind,
                requested_items,
            ),
            module_enumeration_sound(
                *old(self),
                *final(self),
                module_id,
                prefix@,
                path_kind,
                at_root,
                module_completion_kind,
                function_completion_kind,
                requested_items,
            ),
            (at_root && path_kind is Plain && spec_adjusted_module(
                old(self).def_maps@,
                module_id,
                path_kind,
                at_root,
            ) is Some) ==> {
                &&& forall|d: int|
                    0 <= d < old(self).dependencies@.len() && prefix@.is_prefix_of(
                        (#[trigger] old(self).dependencies@[d]).name@,
                    ) ==> has_new_simple_item(
                        *old(self),
                        *final(self),
                        old(self).dependencies@[d].name@,
                        CompletionItemKind::Class,
                    )
                &&& (prefix@.is_prefix_of("crate::"@) ==> has_new_simple_item(
                    *old(self),
                    *final(self),
                    "crate::"@,
                    CompletionItemKind::Keyword,
                ))
                &&& ((prefix@.is_prefix_of("super::"@) && match spec_adjusted_module(
                    old(self).def_maps@,
                    module_id,
                    path_kind,
                    at_root,
                ) {
                    Some(adjusted) => old(self).def_maps@[adjusted.0].modules@[
                        adjusted.1
                    ].parent is Some,
                    None => false,
                }) ==> has_new_simple_item(
                    *old(self),
                    *final(self),
                    "super::"@,
                    CompletionItemKind::Keyword,
                ))
            },
    {
        let krate_ix = module_id.krate.0;
        if krate_ix >= self.def_maps.len() {
            return ;
        }
        let mut module_ix = module_id.local_id.0;
        if module_ix >= self.def_maps[krate_ix].modules.len() {
            return ;
        }
        if at_root {
            match path_kind {
                PathKind::Crate => {
                    let root = self.def_maps[krate_ix].root;
                    if root.0 >= self.def_maps[krate_ix].modules.len() {
                        return ;
                    }
                    module_ix = root.0;
                },
                PathKind::Super => {
                    match self.def_maps[krate_ix].modules[module_ix].parent {
                        Some(parent) => {
                            if parent.0 >= self.def_maps[krate_ix].modules.len() {
                                return ;
                            }
                            module_ix = parent.0;
                        },
                        None => {
                            return ;
                        },
                    }
                },
                PathKind::Dep => {},
                PathKind::Plain => {},
            }
        }
        proof {
            assert(spec_adjusted_module(self.def_maps@, module_id, path_kind, at_root) == Some(
                (krate_ix as int, module_ix as int),
            ));
        }
        let ghost entries = spec_enumerated_entries(
            self.def_maps@,
            krate_ix as int,
            module_ix as int,
            module_completion_kind,
        );
        let ghost target_spec = ModuleId { krate: module_id.krate, local_id: LocalModuleId(module_ix) };
        let has_parent = self.def_maps[krate_ix].modules[module_ix].parent.is_some();
        let direct = matches!(module_completion_kind, ModuleCompletionKind::DirectChildren);
        let n = if direct {
            self.def_maps[krate_ix].modules[module_ix].definitions.len()
        } else {
            self.def_maps[krate_ix].modules[module_ix].scope.len()
        };
        for j in 0..n
            invariant
                krate_ix < self.def_maps.len(),
                module_ix < self.def_maps@[krate_ix as int].modules.len(),
                n == if direct {
                    self.def_maps@[krate_ix as int].modules@[module_ix as int].definitions.len()
                } else {
                    self.def_maps@[krate_ix as int].modules@[module_ix as int].scope.len()
                },
                same_context(*old(self), *self),
                self.module_id == old(self).module_id,
                self.type_parameters@ == old(self).type_parameters@,
                self.local_variables@ == old(self).local_variables@,
                items_extended(*old(self), *self),
                forall|k: int|
                    old(self).completion_items@.len() <= k < self.completion_items@.len()
                        ==> prefix@.is_prefix_of(
                        (#[trigger] self.completion_items@[k]).label@,
                    ),
                entries == spec_enumerated_entries(
                    self.def_maps@,
                    krate_ix as int,
                    module_ix as int,
                    module_completion_kind,
                ),
                n == entries.len(),
                forall|jj: int|
                    0 <= jj < j && prefix@.is_prefix_of(
                        (#[trigger] entries[jj]).name@,
                    ) ==> slot_item_found(
                        *old(self),
                        *self,
                        entries[jj].types,
                        entries[jj].name@,
                        target_spec,
                        function_completion_kind,
                        requested_items,
                    ) && slot_item_found(
                        *old(self),
                        *self,
                        entries[jj].values,
                        entries[jj].name@,
                        target_spec,
                        function_completion_kind,
                        requested_items,
                    ),
                forall|k: int|
                    old(self).completion_items@.len() <= k < self.completion_items@.len()
                        ==> item_from_entries(
                        *old(self),
                        #[trigger] self.completion_items@[k],
                        entries,
                        prefix@,
                        target_spec,
                        function_completion_kind,
                        requested_items,
                    ),
        {
            let entry_name;
            let entry_types;
            let entry_values;
            {
                let module_data = &self.def_maps[krate_ix].modules[module_ix];
                let entry = if direct {
                    &module_data.definitions[j]
                } else {
                    &module_data.scope[j]
                };
                entry_name = entry.name.clone();
                entry_types = entry.types;
                entry_values = entry.values;
            }
            proof {
                assert(entry_name@ == entries[j as int].name@);
                assert(entry_types == entries[j as int].types);
                assert(entry_values == entries[j as int].values);
            }
            if name_matches(entry_name.as_str(), prefix) {
                let target = ModuleId { krate: module_id.krate, local_id: LocalModuleId(module_ix) };
                let ghost iter_self = *self;
                let ghost prev_items = self.completion_items@;
                if let Some(slot) = entry_types {
                    self.push_def_item(
                        slot,
                        &entry_name,
                        target,
                        function_completion_kind,
                        requested_items,
                    );
                }
                let ghost mid_self = *self;
                let ghost mid_items = self.completion_items@;
                if let Some(slot) = entry_values {
                    self.push_def_item(
                        slot,
                        &entry_name,
                        target,
                        function_completion_kind,
                        requested_items,
                    );
                }
                proof {
                    lemma_prefix_transitive(prev_items, mid_items, self.completion_items@);
                    lemma_extended_elements(prev_items, self.completion_items@);
                    lemma_extended_elements(mid_items, self.completion_items@);
                    lemma_prefix_transitive(
                        old(self).completion_items@,
                        prev_items,
                        self.completion_items@,
                    );
                    match entry_types {
                        Some(slot) => {
                            lemma_slot_item_widen(
                                *old(self),
                                iter_self,
                                mid_self,
                                Some(slot),
                                entry_name@,
                                target_spec,
                                function_completion_kind,
                                requested_items,
                            );
                            lemma_slot_item_persists(
                                *old(self),
                                mid_self,
                                *self,
                                Some(slot),
                                entry_name@,
                                target_spec,
                                function_completion_kind,
                                requested_items,
                            );
                        },
                        None => {},
                    }
                    match entry_values {
                        Some(slot) => {
                            lemma_slot_item_widen(
                                *old(self),
                                mid_self,
                                *self,
                                Some(slot),
                                entry_name@,
                                target_spec,
                                function_completion_kind,
                                requested_items,
                            );
                        },
                        None => {},
                    }
                    assert forall|k: int|
                        old(self).completion_items@.len() <= k < self.completion_items@.len()
                            implies item_from_entries(
                        *old(self),
                        #[trigger] self.completion_items@[k],
                        entries,
                        prefix@,
                        target_spec,
                        function_completion_kind,
                        requested_items,
                    ) by {
                        if k < prev_items.len() {
                            assert(self.completion_items@[k] == prev_items[k]);
                        } else if k < mid_items.len() {
                            assert(self.completion_items@[k] == mid_items[k]);
                            assert(slot_builds_item(
                                *old(self),
                                entries[j as int].types,
                                entries[j as int].name@,
                                target_spec,
                                function_completion_kind,
                                requested_items,
                                self.completion_items@[k],
                            ));
                        } else {
                            assert(slot_builds_item(
                                *old(self),
                                entries[j as int].values,
                                entries[j as int].name@,
                                target_spec,
                                function_completion_kind,
                                requested_items,
                                self.completion_items@[k],
                            ));
                        }
                    }
                    assert forall|jj: int|
                        0 <= jj < j && prefix@.is_prefix_of(
                            (#[trigger] entries[jj]).name@,
                        ) implies slot_item_found(
                        *old(self),
                        *self,
                        entries[jj].types,
                        entries[jj].name@,
                        target_spec,
                        function_completion_kind,
                        requested_items,
                    ) && slot_item_found(
                        *old(self),
                        *self,
                        entries[jj].values,
                        entries[jj].name@,
                        target_spec,
                        function_completion_kind,
                        requested_items,
                    ) by {
                        lemma_slot_item_persists(
                            *old(self),
                            iter_self,
                            *self,
                            entries[jj].types,
                            entries[jj].name@,
                            target_spec,
                            function_completion_kind,
                            requested_items,
                        );
                        lemma_slot_item_persists(
                            *old(self),
                            iter_self,
                            *self,
                            entries[jj].values,
                            entries[jj].name@,
                            target_spec,
                            function_completion_kind,
                            requested_items,
                        );
                    }
                }
            } else {
                proof {
                    assert(!prefix@.is_prefix_of(entries[j as int].name@));
                }
            }
        }
        let ghost after_entries = *self;
        if at_root && matches!(path_kind, PathKind::Plain) {
            let n_deps = self.dependencies.len();
            for d in 0..n_deps
                invariant
                    n_deps == self.dependencies.len(),
                    after_entries.completion_items@.is_prefix_of(self.completion_items@),
                    same_context(*old(self), *self),
                    self.module_id == old(self).module_id,
                    self.type_parameters@ == old(self).type_parameters@,
                    self.local_variables@ == old(self).local_variables@,
                    items_extended(*old(self), *self),
                    forall|k: int|
                        old(self).completion_items@.len() <= k < self.completion_items@.len()
                            ==> prefix@.is_prefix_of(
                            (#[trigger] self.completion_items@[k]).label@,
                        ),
                    forall|dd: int|
                        0 <= dd < d && prefix@.is_prefix_of(
                            (#[trigger] old(self).dependencies@[dd]).name@,
                        ) ==> has_new_simple_item(
                            *old(self),
                            *self,
                            old(self).dependencies@[dd].name@,
                            CompletionItemKind::Class,
                        ),
                    forall|k: int|
                        old(self).completion_items@.len() <= k < self.completion_items@.len()
                            ==> item_from_entries(
                            *old(self),
                            #[trigger] self.completion_items@[k],
                            entries,
                            prefix@,
                            target_spec,
                            function_completion_kind,
                            requested_items,
                        ) || item_is_root_extra(
                            *old(self),
                            self.completion_items@[k],
                            prefix@,
                            has_parent,
                        ),
            {
                let dep_name = self.dependencies[d].name.clone();
                let ghost prev_self = *self;
                let ghost prev_items = self.completion_items@;
                if name_matches(dep_name.as_str(), prefix) {
                    let item = crate_completion_item(dep_name);
                    let ghost g_item = item;
                    self.completion_items.push(item);
                    proof {
                        lemma_extended_elements(prev_items, self.completion_items@);
                        lemma_prefix_transitive(
                            after_entries.completion_items@,
                            prev_items,
                            self.completion_items@,
                        );
                        let k = self.completion_items@.len() - 1;
                        assert(self.completion_items@[k] == g_item);
                        assert(has_new_simple_item(
                            *old(self),
                            *self,
                            old(self).dependencies@[d as int].name@,
                            CompletionItemKind::Class,
                        ));
                        assert(item_is_root_extra(
                            *old(self),
                            self.completion_items@[k],
                            prefix@,
                            has_parent,
                        ));
                        assert forall|dd: int|
                            0 <= dd < d && prefix@.is_prefix_of(
                                (#[trigger] old(self).dependencies@[dd]).name@,
                            ) implies has_new_simple_item(
                            *old(self),
                            *self,
                            old(self).dependencies@[dd].name@,
                            CompletionItemKind::Class,
                        ) by {
                            lemma_simple_item_persists(
                                *old(self),
                                prev_self,
                                *self,
                                old(self).dependencies@[dd].name@,
                                CompletionItemKind::Class,
                            );
                        }
                    }
                }
            }
            let ghost after_deps = *self;
            if name_matches("crate::", prefix) {
                let item = simple_completion_item(
                    "crate::".to_owned(),
                    CompletionItemKind::Keyword,
                    None,
                );
                let ghost g_item = item;
                let ghost prev_items = self.completion_items@;
                self.completion_items.push(item);
                proof {
                    lemma_extended_elements(prev_items, self.completion_items@);
                    let k = self.completion_items@.len() - 1;
                    assert(self.completion_items@[k] == g_item);
                    assert(has_new_simple_item(
                        *old(self),
                        *self,
                        "crate::"@,
                        CompletionItemKind::Keyword,
                    ));
                    assert(item_is_root_extra(
                        *old(self),
                        self.completion_items@[k],
                        prefix@,
                        has_parent,
                    ));
                }
            }
            let ghost after_crate = *self;
            if has_parent && name_matches("super::", prefix) {
                let item = simple_completion_item(
                    "super::".to_owned(),
                    CompletionItemKind::Keyword,
                    None,
                );
                let ghost g_item = item;
                let ghost prev_items = self.completion_items@;
                self.completion_items.push(item);
                proof {
                    lemma_extended_elements(prev_items, self.completion_items@);
                    let k = self.completion_items@.len() - 1;
                    assert(self.completion_items@[k] == g_item);
                    assert(has_new_simple_item(
                        *old(self),
                        *self,
                        "super::"@,
                        CompletionItemKind::Keyword,
                    ));
                    assert(item_is_root_extra(
                        *old(self),
                        self.completion_items@[k],
                        prefix@,
                        has_parent,
                    ));
                }
            }
            proof {
                lemma_prefix_transitive(
                    after_deps.completion_items@,
                    after_crate.completion_items@,
                    self.completion_items@,
                );
                assert forall|dd: int|
                    0 <= dd < old(self).dependencies@.len() && prefix@.is_prefix_of(
                        (#[trigger] old(self).dependencies@[dd]).name@,
                    ) implies has_new_simple_item(
                    *old(self),
                    *self,
                    old(self).dependencies@[dd].name@,
                    CompletionItemKind::Class,
                ) by {
                    lemma_simple_item_persists(
                        *old(self),
                        after_deps,
                        *self,
                        old(self).dependencies@[dd].name@,
                        CompletionItemKind::Class,
                    );
                }
                if prefix@.is_prefix_of("crate::"@) {
                    lemma_simple_item_persists(
                        *old(self),
                        after_crate,
                        *self,
                        "crate::"@,
                        CompletionItemKind::Keyword,
                    );
                }
                lemma_prefix_transitive(
                    after_entries.completion_items@,
                    after_deps.completion_items@,
                    after_crate.completion_items@,
                );
                lemma_prefix_transitive(
                    after_entries.completion_items@,
                    after_crate.completion_items@,
                    self.completion_items@,
                );
                lemma_extended_elements(after_deps.completion_items@, self.completion_items@);
                lemma_extended_elements(after_crate.completion_items@, self.completion_items@);
                assert forall|k: int|
                    old(self).completion_items@.len() <= k < self.completion_items@.len()
                        implies item_from_entries(
                    *old(self),
                    #[trigger] self.completion_items@[k],
                    entries,
                    prefix@,
                    target_spec,
                    function_completion_kind,
                    requested_items,
                ) || item_is_root_extra(
                    *old(self),
                    self.completion_items@[k],
                    prefix@,
                    has_parent,
                ) by {
                    if k < after_deps.completion_items@.len() {
                        assert(self.completion_items@[k] == after_deps.completion_items@[k]);
                    } else if k < after_crate.completion_items@.len() {
                        assert(self.completion_items@[k] == after_crate.completion_items@[k]);
                    }
                }
                assert forall|jj: int|
                    0 <= jj < entries.len() && prefix@.is_prefix_of(
                        (#[trigger] entries[jj]).name@,
                    ) implies slot_item_found(
                    *old(self),
                    *self,
                    entries[jj].types,
                    entries[jj].name@,
                    target_spec,
                    function_completion_kind,
                    requested_items,
                ) && slot_item_found(
                    *old(self),
                    *self,
                    entries[jj].values,
                    entries[jj].name@,
                    target_spec,
                    function_completion_kind,
                    requested_items,
                ) by {
                    lemma_slot_item_persists(
                        *old(self),
                        after_entries,
                        *self,
                        entries[jj].types,
                        entries[jj].name@,
                        target_spec,
                        function_completion_kind,
                        requested_items,
                    );
                    lemma_slot_item_persists(
                        *old(self),
                        after_entries,
                        *self,
                        entries[jj].values,
                        entries[jj].name@,
                        target_spec,
                        function_completion_kind,
                        requested_items,
                    );
                }
            }
        }
    }
}

/// Whether the walk from `pre` to `post` settled the method `func_id`
/// offered under `name`: when the interner knows the function and the
/// request kind admits it, an item built as `is_function_completion`
/// describes was added; an unknown or inadmissible function owes
/// nothing.
pub open spec fn method_item_found(
    pre: NodeFinder,
    post: NodeFinder,
    name: Seq<char>,
    func_id: FuncId,
    function_kind: FunctionKind,
) -> bool {
    match crate::completion_item::spec_get_function_info(pre.interner, func_id.0 as int) {
        Some(info) => (match function_kind {
            FunctionKind::Any => true,
            FunctionKind::SelfType(_) => info.has_self,
        }) ==> exists|k: int|
            pre.completion_items@.len() <= k < post.completion_items@.len()
                && is_function_completion(
                name,
                info,
                FunctionCompletionKind::NameAndParameters,
                function_kind,
                Some(#[trigger] post.completion_items@[k]),
            ),
        None => true,
    }
}

/// Law: a settled method item stays settled while more items are
/// appended.
pub proof fn lemma_method_item_persists(
    pre: NodeFinder,
    mid: NodeFinder,
    post: NodeFinder,
    name: Seq<char>,
    func_id: FuncId,
    function_kind: FunctionKind,
)
    requires
        method_item_found(pre, mid, name, func_id, function_kind),
        mid.completion_items@.is_prefix_of(post.completion_items@),
        post.interner == pre.interner,
        mid.interner == pre.interner,
    ensures
        method_item_found(pre, post, name, func_id, function_kind),
{
    match crate::completion_item::spec_get_function_info(pre.interner, func_id.0 as int) {
        Some(info) => {
            let included = match function_kind {
                FunctionKind::Any => true,
                FunctionKind::SelfType(_) => info.has_self,
            };
            if included {
                let k = choose|k: int|
                    pre.completion_items@.len() <= k < mid.completion_items@.len()
                        && is_function_completion(
                        name,
                        info,
                        FunctionCompletionKind::NameAndParameters,
                        function_kind,
                        Some(#[trigger] mid.completion_items@[k]),
                    );
                lemma_extended_elements(mid.completion_items@, post.completion_items@);
                assert(post.completion_items@[k] == mid.completion_items@[k]);
            }
        },
        None => {},
    }
}

/// The entries a module enumeration draws on: the module's own
/// declarations for direct children, its whole scope otherwise.
pub open spec fn spec_enumerated_entries(
    def_maps: Seq<CrateDefMap>,
    krate_ix: int,
    module_ix: int,
    module_completion_kind: ModuleCompletionKind,
) -> Seq<ScopeEntry> {
    if module_completion_kind is DirectChildren {
        def_maps[krate_ix].modules@[module_ix].definitions@
    } else {
        def_maps[krate_ix].modules@[module_ix].scope@
    }
}

/// Whether a namespace slot owes an item at all: a types-only request
/// excludes functions and globals, and a function the interner does not
/// know degrades to nothing.
pub open spec fn spec_def_item_owed(
    interner: Interner,
    def_id: ModuleDefId,
    requested_items: RequestedItems,
) -> bool {
    if requested_items is OnlyTypes && (def_id is Function || def_id is Global) {
        false
    } else {
        match def_id {
            ModuleDefId::Function(id) => crate::completion_item::spec_get_function_info(
                interner,
                id.0 as int,
            ) is Some,
            _ => true,
        }
    }
}

/// Whether the walk from `pre` to `post` settled one namespace slot of
/// an enumerated name: a slot that passes the visibility predicate and
/// owes an item got exactly the item its definition builds.
pub open spec fn slot_item_found(
    pre: NodeFinder,
    post: NodeFinder,
    slot: Option<ScopeSlot>,
    name: Seq<char>,
    target: ModuleId,
    function_completion_kind: FunctionCompletionKind,
    requested_items: RequestedItems,
) -> bool {
    match slot {
        Some(s) => (spec_can_reference_module_id(
            pre.def_maps@,
            pre.module_id.krate,
            pre.module_id.local_id,
            target,
            s.visibility,
        ) && spec_def_item_owed(pre.interner, s.def_id, requested_items)) ==> exists|k: int|
            pre.completion_items@.len() <= k < post.completion_items@.len()
                && is_module_def_id_completion(
                pre.interner,
                s.def_id,
                name,
                function_completion_kind,
                FunctionKind::Any,
                requested_items,
                Some(#[trigger] post.completion_items@[k]),
            ),
        None => true,
    }
}

/// Law: a settled slot stays settled while more items are appended.
pub proof fn lemma_slot_item_persists(
    pre: NodeFinder,
    mid: NodeFinder,
    post: NodeFinder,
    slot: Option<ScopeSlot>,
    name: Seq<char>,
    target: ModuleId,
    function_completion_kind: FunctionCompletionKind,
    requested_items: RequestedItems,
)
    requires
        slot_item_found(pre, mid, slot, name, target, function_completion_kind, requested_items),
        mid.completion_items@.is_prefix_of(post.completion_items@),
    ensures
        slot_item_found(pre, post, slot, name, target, function_completion_kind, requested_items),
{
    match slot {
        Some(s) => {
            if spec_can_reference_module_id(
                pre.def_maps@,
                pre.module_id.krate,
                pre.module_id.local_id,
                target,
                s.visibility,
            ) && spec_def_item_owed(pre.interner, s.def_id, requested_items) {
                let k = choose|k: int|
                    pre.completion_items@.len() <= k < mid.completion_items@.len()
                        && is_module_def_id_completion(
                        pre.interner,
                        s.def_id,
                        name,
                        function_completion_kind,
                        FunctionKind::Any,
                        requested_items,
                        Some(#[trigger] mid.completion_items@[k]),
                    );
                lemma_extended_elements(mid.completion_items@, post.completion_items@);
                assert(post.completion_items@[k] == mid.completion_items@[k]);
            }
        },
        None => {},
    }
}

/// Law: a settled slot stays settled under an earlier lower bound and
/// an unchanged context.
pub proof fn lemma_slot_item_widen(
    pre0: NodeFinder,
    pre: NodeFinder,
    post: NodeFinder,
    slot: Option<ScopeSlot>,
    name: Seq<char>,
    target: ModuleId,
    function_completion_kind: FunctionCompletionKind,
    requested_items: RequestedItems,
)
    requires
        slot_item_found(pre, post, slot, name, target, function_completion_kind, requested_items),
        pre0.completion_items@.len() <= pre.completion_items@.len(),
        pre0.def_maps == pre.def_maps,
        pre0.module_id == pre.module_id,
        pre0.interner == pre.interner,
    ensures
        slot_item_found(pre0, post, slot, name, target, function_completion_kind, requested_items),
{
    match slot {
        Some(s) => {
            if spec_can_reference_module_id(
                pre0.def_maps@,
                pre0.module_id.krate,
                pre0.module_id.local_id,
                target,
                s.visibility,
            ) && spec_def_item_owed(pre0.interner, s.def_id, requested_items) {
                let k = choose|k: int|
                    pre.completion_items@.len() <= k < post.completion_items@.len()
                        && is_module_def_id_completion(
                        pre.interner,
                        s.def_id,
                        name,
                        function_completion_kind,
                        FunctionKind::Any,
                        requested_items,
                        Some(#[trigger] post.completion_items@[k]),
                    );
                assert(is_module_def_id_completion(
                    pre0.interner,
                    s.def_id,
                    name,
                    function_completion_kind,
                    FunctionKind::Any,
                    requested_items,
                    Some(post.completion_items@[k]),
                ));
            }
        },
        None => {},
    }
}

/// Whether one namespace slot passes the visibility predicate and
/// builds exactly the item `it`.
pub open spec fn slot_builds_item(
    pre: NodeFinder,
    slot: Option<ScopeSlot>,
    name: Seq<char>,
    target: ModuleId,
    function_completion_kind: FunctionCompletionKind,
    requested_items: RequestedItems,
    it: CompletionItem,
) -> bool {
    match slot {
        Some(s) => spec_can_reference_module_id(
            pre.def_maps@,
            pre.module_id.krate,
            pre.module_id.local_id,
            target,
            s.visibility,
        ) && is_module_def_id_completion(
            pre.interner,
            s.def_id,
            name,
            function_completion_kind,
            FunctionKind::Any,
            requested_items,
            Some(it),
        ),
        None => false,
    }
}

/// Whether `it` can come from the enumerated entries: some name
/// matching the prefix whose types or values slot passes the
/// visibility predicate and builds exactly `it`.
pub open spec fn item_from_entries(
    pre: NodeFinder,
    it: CompletionItem,
    entries: Seq<ScopeEntry>,
    prefix: Seq<char>,
    target: ModuleId,
    function_completion_kind: FunctionCompletionKind,
    requested_items: RequestedItems,
) -> bool {
    exists|j: int|
        0 <= j < entries.len() && prefix.is_prefix_of((#[trigger] entries[j]).name@) && (
        slot_builds_item(
            pre,
            entries[j].types,
            entries[j].name@,
            target,
            function_completion_kind,
            requested_items,
            it,
        ) || slot_builds_item(
            pre,
            entries[j].values,
            entries[j].name@,
            target,
            function_completion_kind,
            requested_items,
            it,
        ))
}

/// Whether `it` is one of the entries a plain path's root adds: a
/// matching dependency crate, or the `crate::` / `super::` (only with
/// a parent) pseudo-entries.
pub open spec fn item_is_root_extra(
    pre: NodeFinder,
    it: CompletionItem,
    prefix: Seq<char>,
    parent_exists: bool,
) -> bool {
    ||| exists|d: int|
        0 <= d < pre.dependencies@.len() && prefix.is_prefix_of(
            (#[trigger] pre.dependencies@[d]).name@,
        ) && item_is_simple(it, pre.dependencies@[d].name@, CompletionItemKind::Class, None)
    ||| (prefix.is_prefix_of("crate::"@) && item_is_simple(
        it,
        "crate::"@,
        CompletionItemKind::Keyword,
        None,
    ))
    ||| (parent_exists && prefix.is_prefix_of("super::"@) && item_is_simple(
        it,
        "super::"@,
        CompletionItemKind::Keyword,
        None,
    ))
}

/// What a method enumeration settles for the table of `key`: every
/// admissible function of every name group matching the prefix got its
/// item; a missing table appends nothing.
pub open spec fn type_methods_complete(
    pre: NodeFinder,
    post: NodeFinder,
    key: MethodKey,
    prefix: Seq<char>,
    function_kind: FunctionKind,
) -> bool {
    match spec_method_table_index_from(pre.interner.method_tables@, key, 0) {
        Some(ix) => forall|g: int, f: int|
            #![trigger pre.interner.method_tables@[ix].1@[g].func_ids@[f]]
            0 <= g < pre.interner.method_tables@[ix].1@.len() && 0 <= f
                < pre.interner.method_tables@[ix].1@[g].func_ids@.len() && prefix.is_prefix_of(
                pre.interner.method_tables@[ix].1@[g].name@,
            ) ==> method_item_found(
                pre,
                post,
                pre.interner.method_tables@[ix].1@[g].name@,
                pre.interner.method_tables@[ix].1@[g].func_ids@[f],
                function_kind,
            ),
        None => post.completion_items@ == pre.completion_items@,
    }
}

/// What a module enumeration owes: for the adjusted module, every
/// enumerated name matching the prefix has both its namespace slots
/// settled; a missing module appends nothing.
pub open spec fn module_enumeration_complete(
    pre: NodeFinder,
    post: NodeFinder,
    module_id: ModuleId,
    prefix: Seq<char>,
    path_kind: PathKind,
    at_root: bool,
    module_completion_kind: ModuleCompletionKind,
    function_completion_kind: FunctionCompletionKind,
    requested_items: RequestedItems,
) -> bool {
    match spec_adjusted_module(pre.def_maps@, module_id, path_kind, at_root) {
        Some(adjusted) => forall|j: int|
            #![trigger spec_enumerated_entries(
                pre.def_maps@,
                adjusted.0,
                adjusted.1,
                module_completion_kind,
            )[j]]
            0 <= j < spec_enumerated_entries(
                pre.def_maps@,
                adjusted.0,
                adjusted.1,
                module_completion_kind,
            ).len() && prefix.is_prefix_of(
                spec_enumerated_entries(
                    pre.def_maps@,
                    adjusted.0,
                    adjusted.1,
                    module_completion_kind,
                )[j].name@,
            ) ==> slot_item_found(
                pre,
                post,
                spec_enumerated_entries(
                    pre.def_maps@,
                    adjusted.0,
                    adjusted.1,
                    module_completion_kind,
                )[j].types,
                spec_enumerated_entries(
                    pre.def_maps@,
                    adjusted.0,
                    adjusted.1,
                    module_completion_kind,
                )[j].name@,
                (ModuleId { krate: module_id.krate, local_id: LocalModuleId(adjusted.1 as usize) }),
                function_completion_kind,
                requested_items,
            ) && slot_item_found(
                pre,
                post,
                spec_enumerated_entries(
                    pre.def_maps@,
                    adjusted.0,
                    adjusted.1,
                    module_completion_kind,
                )[j].values,
                spec_enumerated_entries(
                    pre.def_maps@,
                    adjusted.0,
                    adjusted.1,
                    module_completion_kind,
                )[j].name@,
                (ModuleId { krate: module_id.krate, local_id: LocalModuleId(adjusted.1 as usize) }),
                function_completion_kind,
                requested_items,
            ),
        None => post.completion_items@ == pre.completion_items@,
    }
}

/// What bounds a module enumeration: every appended item arises from an
/// enumerated name's namespace slot that passes the visibility
/// predicate, or — at the root of a plain path — is a dependency crate
/// or pseudo-entry.
pub open spec fn module_enumeration_sound(
    pre: NodeFinder,
    post: NodeFinder,
    module_id: ModuleId,
    prefix: Seq<char>,
    path_kind: PathKind,
    at_root: bool,
    module_completion_kind: ModuleCompletionKind,
    function_completion_kind: FunctionCompletionKind,
    requested_items: RequestedItems,
) -> bool {
    match spec_adjusted_module(pre.def_maps@, module_id, path_kind, at_root) {
        Some(adjusted) => forall|k: int|
            pre.completion_items@.len() <= k < post.completion_items@.len()
                ==> item_from_entries(
                pre,
                #[trigger] post.completion_items@[k],
                spec_enumerated_entries(
                    pre.def_maps@,
                    adjusted.0,
                    adjusted.1,
                    module_completion_kind,
                ),
                prefix,
                (ModuleId { krate: module_id.krate, local_id: LocalModuleId(adjusted.1 as usize) }),
                function_completion_kind,
                requested_items,
            ) || (at_root && path_kind is Plain && item_is_root_extra(
                pre,
                post.completion_items@[k],
                prefix,
                pre.def_maps@[adjusted.0].modules@[adjusted.1].parent is Some,
            )),
        None => true,
    }
}

/// Law: a well-formed finder stays well-formed while its context and
/// module are unchanged.
pub proof fn lemma_wf_preserved(pre: NodeFinder, post: NodeFinder)
    requires
        pre.wf(),
        same_context(pre, post),
        post.module_id == pre.module_id,
    ensures
        post.wf(),
{
}

impl NodeFinder {
    /// Runs the walk over a parsed source file and hands back the
    /// items found at the cursor: nothing exactly when the walk
    /// produced nothing, else exactly the produced items in order, with
    /// the collate-last sort text applied to labels that start with an
    /// underscore.
    #[verifier::loop_isolation(false)]
    pub fn find(&mut self, parsed_module: &ParsedModule) -> (r: Option<Vec<CompletionItem>>)
        requires
            old(self).wf(),
        ensures
            item_post(*old(self), *final(self)),
            (r is None) == (final(self).completion_items@.len() == 0),
            r matches Some(items) ==> items@.len() == final(self).completion_items@.len()
                && forall|k: int|
                0 <= k < items@.len() ==> item_with_sort_rule(
                    final(self).completion_items@[k],
                    #[trigger] items@[k],
                ),
    {
        self.find_in_parsed_module(parsed_module);
        if self.completion_items.len() == 0 {
            return None;
        }
        let n = self.completion_items.len();
        let mut out: Vec<CompletionItem> = Vec::new();
        for i in 0..n
            invariant
                n == self.completion_items.len(),
                out@.len() == i,
                forall|k: int|
                    0 <= k < out@.len() ==> item_with_sort_rule(
                        self.completion_items@[k],
                        #[trigger] out@[k],
                    ),
        {
            let underscore = name_matches(self.completion_items[i].label.as_str(), "_");
            let sort_text = if underscore {
                Some(underscore_sort_text())
            } else {
                clone_opt_string(&self.completion_items[i].sort_text)
            };
            let new_item = CompletionItem {
                label: self.completion_items[i].label.clone(),
                kind: self.completion_items[i].kind,
                detail: clone_opt_string(&self.completion_items[i].detail),
                insert_text: clone_opt_string(&self.completion_items[i].insert_text),
                sort_text,
            };
            out.push(new_item);
        }
        Some(out)
    }

    /// Walks every top-level item of a parsed source file.
    #[verifier::loop_isolation(false)]
    pub fn find_in_parsed_module(&mut self, parsed_module: &ParsedModule)
        requires
            old(self).wf(),
        ensures
            item_post(*old(self), *final(self)),
        decreases *parsed_module,
    {
        let n = parsed_module.items.len();
        for i in 0..n
            invariant
                n == parsed_module.items.len(),
                self.wf(),
                item_post(*old(self), *self),
        {
            proof {
                broadcast use vstd::std_specs::vec::group_vec_axioms;

                assert(decreases_to!(*parsed_module => parsed_module.items));
                assert(decreases_to!(parsed_module.items => parsed_module.items@[i as int]));
            }
            let ghost prev = *self;
            self.find_in_item(&parsed_module.items[i]);
            proof {
                lemma_prefix_transitive(
                    old(self).completion_items@,
                    prev.completion_items@,
                    self.completion_items@,
                );
                lemma_wf_preserved(prev, *self);
            }
        }
    }

    /// Walks one top-level item, descending only when its span contains
    /// the cursor; the module in scope is restored after an inline
    /// submodule.
    #[verifier::loop_isolation(false)]
    pub fn find_in_item(&mut self, item: &Item)
        requires
            old(self).wf(),
        ensures
            item_post(*old(self), *final(self)),
            !item.span.contains(old(self).byte_index as int) ==> final(self).completion_items@
                == old(self).completion_items@ && final(self).local_variables@ == old(
                self,
            ).local_variables@ && final(self).type_parameters@ == old(self).type_parameters@,
        decreases *item,
    {
        if !self.includes_span(item.span) {
            return ;
        }
        match &item.kind {
            ItemKind::Import(use_tree) => {
                let mut prefixes: Vec<(String, Span)> = Vec::new();
                let root_kind = use_tree.prefix.kind;
                self.find_in_use_tree(use_tree, root_kind, &mut prefixes);
            },
            ItemKind::Submodules(parsed_sub_module) => {
                let previous_module_id = self.module_id;
                let child_opt = self.def_maps[self.module_id.krate.0].modules[self.module_id.local_id.0].find_child(
                    &parsed_sub_module.name,
                );
                if let Some(child_module) = child_opt {
                    proof {
                        assert(self.def_maps@[self.module_id.krate.0 as int].wf());
                    }
                    self.module_id = ModuleId {
                        krate: previous_module_id.krate,
                        local_id: child_module,
                    };
                }
                self.find_in_parsed_module(&parsed_sub_module.contents);
                self.module_id = previous_module_id;
            },
            ItemKind::Function(noir_function) => {
                self.find_in_noir_function(noir_function);
            },
            ItemKind::TraitImpl(noir_trait_impl) => {
                self.find_in_noir_trait_impl(noir_trait_impl);
            },
            ItemKind::Impl(type_impl) => {
                self.find_in_type_impl(type_impl);
            },
            ItemKind::Global(let_statement) => {
                self.find_in_let_statement(let_statement, false);
            },
            ItemKind::TypeAlias(noir_type_alias) => {
                self.find_in_noir_type_alias(noir_type_alias);
            },
            ItemKind::Struct(noir_struct) => {
                self.find_in_noir_struct(noir_struct);
            },
            ItemKind::Trait(noir_trait) => {
                self.find_in_noir_trait(noir_trait);
            },
            ItemKind::ModuleDecl => {},
        }
    }

    /// Walks a function: its generics join the type parameters for the
    /// duration, its parameter patterns become the fresh locals of its
    /// body, and the type parameters are restored on exit.
    #[verifier::loop_isolation(false)]
    pub fn find_in_noir_function(&mut self, noir_function: &NoirFunction)
        requires
            old(self).wf(),
        ensures
            walk_post(*old(self), *final(self)),
            final(self).local_variables@ == spec_params_bindings(
                noir_function.parameters@,
                noir_function.parameters@.len() as int,
            ),
        decreases *noir_function,
    {
        let tp_len = self.type_parameters.len();
        self.collect_type_parameters_in_generics(&noir_function.generics);
        let n = noir_function.parameters.len();
        for i in 0..n
            invariant
                n == noir_function.parameters.len(),
                self.wf(),
                same_context(*old(self), *self),
                self.module_id == old(self).module_id,
                tp_len == old(self).type_parameters@.len(),
                old(self).type_parameters@.is_prefix_of(self.type_parameters@),
                items_extended(*old(self), *self),
        {
            let ghost prev = *self;
            self.find_in_unresolved_type(&noir_function.parameters[i].typ);
            proof {
                lemma_prefix_transitive(
                    old(self).completion_items@,
                    prev.completion_items@,
                    self.completion_items@,
                );
            }
        }
        let ghost prev = *self;
        self.find_in_function_return_type(&noir_function.return_type);
        proof {
            lemma_prefix_transitive(
                old(self).completion_items@,
                prev.completion_items@,
                self.completion_items@,
            );
        }
        let n_where = noir_function.where_clause.len();
        for i in 0..n_where
            invariant
                n_where == noir_function.where_clause.len(),
                self.wf(),
                same_context(*old(self), *self),
                self.module_id == old(self).module_id,
                tp_len == old(self).type_parameters@.len(),
                old(self).type_parameters@.is_prefix_of(self.type_parameters@),
                items_extended(*old(self), *self),
        {
            let ghost prev = *self;
            self.find_in_unresolved_type(&noir_function.where_clause[i]);
            proof {
                lemma_prefix_transitive(
                    old(self).completion_items@,
                    prev.completion_items@,
                    self.completion_items@,
                );
            }
        }
        self.local_variables.clear();
        let n_params = noir_function.parameters.len();
        for i in 0..n_params
            invariant
                n_params == noir_function.parameters.len(),
                self.wf(),
                same_context(*old(self), *self),
                self.module_id == old(self).module_id,
                tp_len == old(self).type_parameters@.len(),
                old(self).type_parameters@.is_prefix_of(self.type_parameters@),
                items_extended(*old(self), *self),
                self.local_variables@ == spec_params_bindings(
                    noir_function.parameters@,
                    i as int,
                ),
        {
            self.collect_local_variables(&noir_function.parameters[i].pattern);
            proof {
                assert(self.local_variables@ =~= spec_params_bindings(
                    noir_function.parameters@,
                    i as int + 1,
                ));
            }
        }
        let ghost prev2 = *self;
        self.find_in_block_expression(&noir_function.body);
        proof {
            lemma_prefix_transitive(
                old(self).completion_items@,
                prev2.completion_items@,
                self.completion_items@,
            );
        }
        self.type_parameters.truncate(tp_len);
        proof {
            assert(self.type_parameters@ =~= old(self).type_parameters@);
        }
    }

    /// Walks a trait impl: its generics scope over the items, and the
    /// type parameters are cleared afterwards.
    #[verifier::loop_isolation(false)]
    pub fn find_in_noir_trait_impl(&mut self, noir_trait_impl: &NoirTraitImpl)
        requires
            old(self).wf(),
        ensures
            item_post(*old(self), *final(self)),
            final(self).type_parameters@.len() == 0,
        decreases *noir_trait_impl,
    {
        self.type_parameters.clear();
        self.collect_type_parameters_in_generics(&noir_trait_impl.impl_generics);
        let n = noir_trait_impl.items.len();
        for i in 0..n
            invariant
                n == noir_trait_impl.items.len(),
                self.wf(),
                item_post(*old(self), *self),
        {
            let ghost prev = *self;
            self.find_in_trait_impl_item(&noir_trait_impl.items[i]);
            proof {
                lemma_prefix_transitive(
                    old(self).completion_items@,
                    prev.completion_items@,
                    self.completion_items@,
                );
            }
        }
        self.type_parameters.clear();
    }

    /// Walks one item of a trait impl.
    pub fn find_in_trait_impl_item(&mut self, item: &TraitImplItem)
        requires
            old(self).wf(),
        ensures
            walk_post(*old(self), *final(self)),
        decreases *item,
    {
        match item {
            TraitImplItem::Function(noir_function) => {
                self.find_in_noir_function(noir_function);
            },
            TraitImplItem::Constant => {},
            TraitImplItem::Type => {},
        }
    }

    /// Walks an inherent impl: its generics scope over the methods;
    /// methods past the cursor are skipped.
    #[verifier::loop_isolation(false)]
    pub fn find_in_type_impl(&mut self, type_impl: &TypeImpl)
        requires
            old(self).wf(),
        ensures
            item_post(*old(self), *final(self)),
            final(self).type_parameters@.len() == 0,
        decreases *type_impl,
    {
        self.type_parameters.clear();
        self.collect_type_parameters_in_generics(&type_impl.generics);
        let n = type_impl.methods.len();
        for i in 0..n
            invariant
                n == type_impl.methods.len(),
                self.wf(),
                item_post(*old(self), *self),
        {
            let ghost prev = *self;
            self.find_in_noir_function(&type_impl.methods[i].0);
            proof {
                lemma_prefix_transitive(
                    old(self).completion_items@,
                    prev.completion_items@,
                    self.completion_items@,
                );
            }
            if type_impl.methods[i].1.end as usize > self.byte_index {
                break ;
            }
        }
        self.type_parameters.clear();
    }

    /// Walks a type alias declaration.
    pub fn find_in_noir_type_alias(&mut self, noir_type_alias: &NoirTypeAlias)
        requires
            old(self).wf(),
        ensures
            expr_post(*old(self), *final(self)),
        decreases *noir_type_alias,
    {
        self.find_in_unresolved_type(&noir_type_alias.typ);
    }

    /// Walks a struct declaration: its generics scope over the field
    /// types, and the type parameters are cleared afterwards.
    #[verifier::loop_isolation(false)]
    pub fn find_in_noir_struct(&mut self, noir_struct: &NoirStruct)
        requires
            old(self).wf(),
        ensures
            item_post(*old(self), *final(self)),
            final(self).local_variables@ == old(self).local_variables@,
            final(self).type_parameters@.len() == 0,
        decreases *noir_struct,
    {
        self.type_parameters.clear();
        self.collect_type_parameters_in_generics(&noir_struct.generics);
        let n = noir_struct.fields.len();
        for i in 0..n
            invariant
                n == noir_struct.fields.len(),
                self.wf(),
                item_post(*old(self), *self),
                self.local_variables@ == old(self).local_variables@,
        {
            let ghost prev = *self;
            self.find_in_unresolved_type(&noir_struct.fields[i].1);
            proof {
                lemma_prefix_transitive(
                    old(self).completion_items@,
                    prev.completion_items@,
                    self.completion_items@,
                );
            }
        }
        self.type_parameters.clear();
    }

    /// Walks a trait declaration.
    #[verifier::loop_isolation(false)]
    pub fn find_in_noir_trait(&mut self, noir_trait: &NoirTrait)
        requires
            old(self).wf(),
        ensures
            walk_post(*old(self), *final(self)),
        decreases *noir_trait,
    {
        let n = noir_trait.items.len();
        for i in 0..n
            invariant
                n == noir_trait.items.len(),
                self.wf(),
                walk_post(*old(self), *self),
        {
            let ghost prev = *self;
            self.find_in_trait_item(&noir_trait.items[i]);
            proof {
                lemma_prefix_transitive(
                    old(self).completion_items@,
                    prev.completion_items@,
                    self.completion_items@,
                );
            }
        }
    }

    /// Walks one item of a trait declaration: a trait function behaves
    /// as a function (with an optional body), a constant's type and
    /// default are visited, and an associated type is ignored.
    #[verifier::loop_isolation(false)]
    pub fn find_in_trait_item(&mut self, trait_item: &TraitItem)
        requires
            old(self).wf(),
        ensures
            walk_post(*old(self), *final(self)),
            trait_item is Type ==> final(self).completion_items@ == old(self).completion_items@
                && final(self).local_variables@ == old(self).local_variables@,
            ({
                match spec_trait_function_locals(*trait_item) {
                    Some(bindings) => final(self).local_variables@ == bindings,
                    None => true,
                }
            }),
        decreases *trait_item,
    {
        match trait_item {
            TraitItem::Function { generics, parameters, return_type, where_clause, body } => {
                let tp_len = self.type_parameters.len();
                self.collect_type_parameters_in_generics(generics);
                let n = parameters.len();
                for i in 0..n
                    invariant
                        n == parameters.len(),
                        self.wf(),
                        same_context(*old(self), *self),
                        self.module_id == old(self).module_id,
                        tp_len == old(self).type_parameters@.len(),
                        old(self).type_parameters@.is_prefix_of(self.type_parameters@),
                        items_extended(*old(self), *self),
                {
                    let ghost prev = *self;
                    self.find_in_unresolved_type(&parameters[i].1);
                    proof {
                        lemma_prefix_transitive(
                            old(self).completion_items@,
                            prev.completion_items@,
                            self.completion_items@,
                        );
                    }
                }
                let ghost prev = *self;
                self.find_in_function_return_type(return_type);
                proof {
                    lemma_prefix_transitive(
                        old(self).completion_items@,
                        prev.completion_items@,
                        self.completion_items@,
                    );
                }
                let n_where = where_clause.len();
                for i in 0..n_where
                    invariant
                        n_where == where_clause.len(),
                        self.wf(),
                        same_context(*old(self), *self),
                        self.module_id == old(self).module_id,
                        tp_len == old(self).type_parameters@.len(),
                        old(self).type_parameters@.is_prefix_of(self.type_parameters@),
                        items_extended(*old(self), *self),
                {
                    let ghost prev = *self;
                    self.find_in_unresolved_type(&where_clause[i]);
                    proof {
                        lemma_prefix_transitive(
                            old(self).completion_items@,
                            prev.completion_items@,
                            self.completion_items@,
                        );
                    }
                }
                if let Some(body) = body {
                    self.local_variables.clear();
                    let n_params = parameters.len();
                    for i in 0..n_params
                        invariant
                            n_params == parameters.len(),
                            self.wf(),
                            same_context(*old(self), *self),
                            self.module_id == old(self).module_id,
                            tp_len == old(self).type_parameters@.len(),
                            old(self).type_parameters@.is_prefix_of(self.type_parameters@),
                            items_extended(*old(self), *self),
                            self.local_variables@ =~= parameters@.map_values(
                                |p: (Ident, UnresolvedType)| (p.0.name, p.0.span),
                            ).take(i as int),
                    {
                        self.local_variables.push(
                            (parameters[i].0.name.clone(), parameters[i].0.span),
                        );
                        proof {
                            assert(self.local_variables@ =~= parameters@.map_values(
                                |p: (Ident, UnresolvedType)| (p.0.name, p.0.span),
                            ).take(i as int + 1));
                        }
                    }
                    proof {
                        assert(self.local_variables@ =~= parameters@.map_values(
                            |p: (Ident, UnresolvedType)| (p.0.name, p.0.span),
                        ));
                    }
                    let ghost prev2 = *self;
                    self.find_in_block_expression(body);
                    proof {
                        lemma_prefix_transitive(
                            old(self).completion_items@,
                            prev2.completion_items@,
                            self.completion_items@,
                        );
                    }
                }
                self.type_parameters.truncate(tp_len);
                proof {
                    assert(self.type_parameters@ =~= old(self).type_parameters@);
                }
            },
            TraitItem::Constant { typ, default_value } => {
                self.find_in_unresolved_type(typ);
                if let Some(default) = default_value {
                    let ghost prev = *self;
                    self.find_in_expression(default);
                    proof {
                        lemma_prefix_transitive(
                            old(self).completion_items@,
                            prev.completion_items@,
                            self.completion_items@,
                        );
                    }
                }
            },
            TraitItem::Type => {},
        }
    }

    /// Walks a block: statements contribute locals to their successors,
    /// statements past the cursor are skipped, and the locals are
    /// restored on exit.
    #[verifier::loop_isolation(false)]
    pub fn find_in_block_expression(&mut self, block_expression: &BlockExpression)
        requires
            old(self).wf(),
        ensures
            expr_post(*old(self), *final(self)),
        decreases *block_expression,
    {
        let locals_len = self.local_variables.len();
        let n = block_expression.statements.len();
        for i in 0..n
            invariant
                n == block_expression.statements.len(),
                self.wf(),
                same_context(*old(self), *self),
                self.module_id == old(self).module_id,
                self.type_parameters@ == old(self).type_parameters@,
                locals_len == old(self).local_variables@.len(),
                old(self).local_variables@.is_prefix_of(self.local_variables@),
                items_extended(*old(self), *self),
        {
            proof {
                broadcast use vstd::std_specs::vec::group_vec_axioms;

                assert(decreases_to!(*block_expression => block_expression.statements));
                assert(decreases_to!(block_expression.statements => block_expression.statements@[
                    i as int
                ]));
            }
            let ghost prev = *self;
            self.find_in_statement(&block_expression.statements[i]);
            proof {
                lemma_prefix_transitive(
                    old(self).completion_items@,
                    prev.completion_items@,
                    self.completion_items@,
                );
                lemma_prefix_transitive(
                    old(self).local_variables@,
                    prev.local_variables@,
                    self.local_variables@,
                );
            }
            if block_expression.statements[i].span.end as usize > self.byte_index {
                break ;
            }
        }
        self.local_variables.truncate(locals_len);
        proof {
            assert(self.local_variables@ =~= old(self).local_variables@);
        }
    }

    /// Walks one statement. A let statement adds its bindings; inside a
    /// comptime statement the runtime locals are hidden and restored
    /// afterwards.
    pub fn find_in_statement(&mut self, statement: &Statement)
        requires
            old(self).wf(),
        ensures
            stmt_post(*old(self), *final(self)),
            statement.kind is Comptime ==> final(self).local_variables@ == old(
                self,
            ).local_variables@,
            ({
                match statement.kind {
                    StatementKind::Expression(e) => expression_dot_completion(
                        *old(self),
                        *final(self),
                        e,
                    ),
                    StatementKind::Semi(e) => expression_dot_completion(
                        *old(self),
                        *final(self),
                        e,
                    ),
                    _ => true,
                }
            }),
        decreases *statement,
    {
        match &statement.kind {
            StatementKind::Let(let_statement) => {
                self.find_in_let_statement(let_statement, true);
            },
            StatementKind::Constrain(constrain_statement) => {
                self.find_in_constrain_statement(constrain_statement);
            },
            StatementKind::Expression(expression) => {
                self.find_in_expression(expression);
            },
            StatementKind::Assign(assign_statement) => {
                self.find_in_assign_statement(assign_statement);
            },
            StatementKind::For(for_loop_statement) => {
                self.find_in_for_loop_statement(for_loop_statement);
            },
            StatementKind::Comptime(inner) => {
                let mut saved: Vec<(String, Span)> = Vec::new();
                std::mem::swap(&mut self.local_variables, &mut saved);
                self.find_in_statement(inner);
                std::mem::swap(&mut self.local_variables, &mut saved);
            },
            StatementKind::Semi(expression) => {
                self.find_in_expression(expression);
            },
            StatementKind::Break => {},
            StatementKind::Continue => {},
            StatementKind::Error => {},
        }
    }

    /// Walks a let binding: its declared type and initializer first;
    /// the bindings join the locals only inside a block (a global
    /// contributes none).
    pub fn find_in_let_statement(&mut self, let_statement: &LetStatement, collect: bool)
        requires
            old(self).wf(),
        ensures
            stmt_post(*old(self), *final(self)),
            !collect ==> final(self).local_variables@ == old(self).local_variables@,
        decreases *let_statement,
    {
        self.find_in_unresolved_type(&let_statement.typ);
        let ghost prev = *self;
        self.find_in_expression(&let_statement.expression);
        proof {
            lemma_prefix_transitive(
                old(self).completion_items@,
                prev.completion_items@,
                self.completion_items@,
            );
        }
        if collect {
            let ghost prev2 = *self;
            self.collect_local_variables(&let_statement.pattern);
            proof {
                lemma_prefix_transitive(
                    old(self).completion_items@,
                    prev2.completion_items@,
                    self.completion_items@,
                );
            }
        }
    }

    /// Walks a constrain statement and its optional message.
    pub fn find_in_constrain_statement(&mut self, constrain_statement: &ConstrainStatement)
        requires
            old(self).wf(),
        ensures
            expr_post(*old(self), *final(self)),
        decreases *constrain_statement,
    {
        self.find_in_expression(&constrain_statement.expr);
        if let Some(message) = &constrain_statement.message {
            let ghost prev = *self;
            self.find_in_expression(message);
            proof {
                lemma_prefix_transitive(
                    old(self).completion_items@,
                    prev.completion_items@,
                    self.completion_items@,
                );
            }
        }
    }

    /// Walks an assignment.
    pub fn find_in_assign_statement(&mut self, assign_statement: &AssignStatement)
        requires
            old(self).wf(),
        ensures
            expr_post(*old(self), *final(self)),
        decreases *assign_statement,
    {
        self.find_in_lvalue(&assign_statement.lvalue);
        let ghost prev = *self;
        self.find_in_expression(&assign_statement.expression);
        proof {
            lemma_prefix_transitive(
                old(self).completion_items@,
                prev.completion_items@,
                self.completion_items@,
            );
        }
    }

    /// Walks a for loop: the loop identifier is a local of the range
    /// and body, and the locals are restored on exit.
    pub fn find_in_for_loop_statement(&mut self, for_loop_statement: &ForLoopStatement)
        requires
            old(self).wf(),
        ensures
            expr_post(*old(self), *final(self)),
        decreases *for_loop_statement,
    {
        let locals_len = self.local_variables.len();
        self.local_variables.push(
            (for_loop_statement.identifier.name.clone(), for_loop_statement.identifier.span),
        );
        let ghost prev = *self;
        self.find_in_for_range(&for_loop_statement.range);
        self.find_in_expression(&for_loop_statement.block);
        proof {
            lemma_prefix_transitive(
                old(self).completion_items@,
                prev.completion_items@,
                self.completion_items@,
            );
        }
        self.local_variables.truncate(locals_len);
        proof {
            assert(self.local_variables@ =~= old(self).local_variables@);
        }
    }

    /// Walks the left-hand side of an assignment. A trailing dot right
    /// after a plain identifier completes the fields and methods of the
    /// identifier's recorded type.
    pub fn find_in_lvalue(&mut self, lvalue: &LValue)
        requires
            old(self).wf(),
        ensures
            expr_post(*old(self), *final(self)),
            ({
                match *lvalue {
                    LValue::Ident(id) => match crate::types::spec_reference_from(
                        old(self).interner.references@,
                        Location { span: id.span, file: old(self).file },
                        0,
                    ) {
                        Some(ReferenceId::Local(definition_id)) => match crate::types::spec_definition_type_from(
                            old(self).interner.definition_types@,
                            definition_id,
                            0,
                        ) {
                            Some(typ) => (old(self).byte == Some(DOT_BYTE) && id.span.end as int
                                == old(self).byte_index - 1)
                                ==> completes_type_fields_and_methods(
                                *old(self),
                                *final(self),
                                *typ,
                                ""@,
                            ),
                            None => true,
                        },
                        _ => true,
                    },
                    _ => true,
                }
            }),
        decreases *lvalue,
    {
        match lvalue {
            LValue::Ident(ident) => {
                let is_dot = match self.byte {
                    Some(b) => b == DOT_BYTE,
                    None => false,
                };
                if is_dot && ident.span.end as usize == self.byte_index - 1 {
                    let location = Location::new(ident.span, self.file);
                    if let Some(ReferenceId::Local(definition_id)) = self.interner.find_referenced(
                        location,
                    ) {
                        let typ_opt = self.interner.definition_type(definition_id);
                        if let Some(typ) = typ_opt {
                            self.complete_type_fields_and_methods(&typ, "");
                        }
                    }
                }
            },
            LValue::MemberAccess(object) => {
                self.find_in_lvalue(object);
            },
            LValue::Index(array, index) => {
                self.find_in_lvalue(array);
                let ghost prev = *self;
                self.find_in_expression(index);
                proof {
                    lemma_prefix_transitive(
                        old(self).completion_items@,
                        prev.completion_items@,
                        self.completion_items@,
                    );
                }
            },
            LValue::Dereference(inner) => {
                self.find_in_lvalue(inner);
            },
        }
    }

    /// Walks the range of a for loop.
    pub fn find_in_for_range(&mut self, for_range: &ForRange)
        requires
            old(self).wf(),
        ensures
            expr_post(*old(self), *final(self)),
        decreases *for_range,
    {
        match for_range {
            ForRange::Range(start, end) => {
                self.find_in_expression(start);
                let ghost prev = *self;
                self.find_in_expression(end);
                proof {
                    lemma_prefix_transitive(
                        old(self).completion_items@,
                        prev.completion_items@,
                        self.completion_items@,
                    );
                }
            },
            ForRange::Array(expression) => {
                self.find_in_expression(expression);
            },
        }
    }

    /// Walks a list of expressions.
    #[verifier::loop_isolation(false)]
    pub fn find_in_expressions(&mut self, expressions: &Vec<Expression>)
        requires
            old(self).wf(),
        ensures
            expr_post(*old(self), *final(self)),
        decreases *expressions,
    {
        let n = expressions.len();
        for i in 0..n
            invariant
                n == expressions.len(),
                self.wf(),
                expr_post(*old(self), *self),
        {
            proof {
                broadcast use vstd::std_specs::vec::group_vec_axioms;

                assert(decreases_to!(*expressions => expressions@[i as int]));
            }
            let ghost prev = *self;
            self.find_in_expression(&expressions[i]);
            proof {
                lemma_prefix_transitive(
                    old(self).completion_items@,
                    prev.completion_items@,
                    self.completion_items@,
                );
            }
        }
    }

    /// Walks one expression, and — when nothing else matched, the byte
    /// before the cursor is a dot, and the expression ends right before
    /// it — completes the fields and methods of the expression's
    /// recorded type.
    pub fn find_in_expression(&mut self, expression: &Expression)
        requires
            old(self).wf(),
        ensures
            expr_post(*old(self), *final(self)),
            expression_dot_completion(*old(self), *final(self), *expression),
        decreases *expression,
    {
        match &expression.kind {
            ExpressionKind::Literal(literal) => {
                self.find_in_literal(literal);
            },
            ExpressionKind::Block(block_expression) => {
                self.find_in_block_expression(block_expression);
            },
            ExpressionKind::Prefix(rhs) => {
                self.find_in_expression(rhs);
            },
            ExpressionKind::Index(index_expression) => {
                self.find_in_index_expression(index_expression);
            },
            ExpressionKind::Call(call_expression) => {
                self.find_in_call_expression(call_expression);
            },
            ExpressionKind::MethodCall(method_call_expression) => {
                self.find_in_method_call_expression(method_call_expression);
            },
            ExpressionKind::Constructor(constructor_expression) => {
                self.find_in_constructor_expression(constructor_expression);
            },
            ExpressionKind::MemberAccess(member_access_expression) => {
                self.find_in_member_access_expression(member_access_expression);
            },
            ExpressionKind::Cast(cast_expression) => {
                self.find_in_cast_expression(cast_expression);
            },
            ExpressionKind::Infix(infix_expression) => {
                self.find_in_infix_expression(infix_expression);
            },
            ExpressionKind::If(if_expression) => {
                self.find_in_if_expression(if_expression);
            },
            ExpressionKind::Variable(path) => {
                self.find_in_path(path, RequestedItems::AnyItems);
            },
            ExpressionKind::Tuple(expressions) => {
                self.find_in_expressions(expressions);
            },
            ExpressionKind::Lambda(lambda) => {
                self.find_in_lambda(lambda);
            },
            ExpressionKind::Parenthesized(inner) => {
                self.find_in_expression(inner);
            },
            ExpressionKind::Unquote(inner) => {
                self.find_in_expression(inner);
            },
            ExpressionKind::Comptime(block_expression) => {
                let mut saved: Vec<(String, Span)> = Vec::new();
                std::mem::swap(&mut self.local_variables, &mut saved);
                self.find_in_block_expression(block_expression);
                std::mem::swap(&mut self.local_variables, &mut saved);
            },
            ExpressionKind::Unsafe(block_expression) => {
                self.find_in_block_expression(block_expression);
            },
            ExpressionKind::AsTraitPath(as_trait_path) => {
                self.find_in_as_trait_path(as_trait_path);
            },
            ExpressionKind::Quote => {},
            ExpressionKind::Resolved => {},
            ExpressionKind::Error => {},
        }
        let is_dot = match self.byte {
            Some(b) => b == DOT_BYTE,
            None => false,
        };
        if self.completion_items.is_empty() && is_dot && expression.span.end as usize
            == self.byte_index - 1 {
            let location = Location::new(expression.span, self.file);
            if let Some(typ) = self.interner.type_at_location(location) {
                let typ = self.interner.follow_bindings(&typ);
                let ghost prev = *self;
                self.complete_type_fields_and_methods(&typ, "");
                proof {
                    lemma_prefix_transitive(
                        old(self).completion_items@,
                        prev.completion_items@,
                        self.completion_items@,
                    );
                }
            }
        }
    }

    /// Walks a literal: only arrays and slices hold expressions.
    pub fn find_in_literal(&mut self, literal: &Literal)
        requires
            old(self).wf(),
        ensures
            expr_post(*old(self), *final(self)),
        decreases *literal,
    {
        match literal {
            Literal::Array(array_literal) => {
                self.find_in_array_literal(array_literal);
            },
            Literal::Slice(array_literal) => {
                self.find_in_array_literal(array_literal);
            },
            _ => {},
        }
    }

    /// Walks an array literal.
    pub fn find_in_array_literal(&mut self, array_literal: &ArrayLiteral)
        requires
            old(self).wf(),
        ensures
            expr_post(*old(self), *final(self)),
        decreases *array_literal,
    {
        match array_literal {
            ArrayLiteral::Standard(expressions) => {
                self.find_in_expressions(expressions);
            },
            ArrayLiteral::Repeated { repeated_element, length } => {
                self.find_in_expression(repeated_element);
                let ghost prev = *self;
                self.find_in_expression(length);
                proof {
                    lemma_prefix_transitive(
                        old(self).completion_items@,
                        prev.completion_items@,
                        self.completion_items@,
                    );
                }
            },
        }
    }

    /// Walks an index expression.
    pub fn find_in_index_expression(&mut self, index_expression: &IndexExpression)
        requires
            old(self).wf(),
        ensures
            expr_post(*old(self), *final(self)),
        decreases *index_expression,
    {
        self.find_in_expression(&index_expression.collection);
        let ghost prev = *self;
        self.find_in_expression(&index_expression.index);
        proof {
            lemma_prefix_transitive(
                old(self).completion_items@,
                prev.completion_items@,
                self.completion_items@,
            );
        }
    }

    /// Walks a call expression.
    pub fn find_in_call_expression(&mut self, call_expression: &CallExpression)
        requires
            old(self).wf(),
        ensures
            expr_post(*old(self), *final(self)),
        decreases *call_expression,
    {
        self.find_in_expression(&call_expression.func);
        let ghost prev = *self;
        self.find_in_expressions(&call_expression.arguments);
        proof {
            lemma_prefix_transitive(
                old(self).completion_items@,
                prev.completion_items@,
                self.completion_items@,
            );
        }
    }

    /// Walks a method call expression.
    pub fn find_in_method_call_expression(
        &mut self,
        method_call_expression: &MethodCallExpression,
    )
        requires
            old(self).wf(),
        ensures
            expr_post(*old(self), *final(self)),
        decreases *method_call_expression,
    {
        self.find_in_expression(&method_call_expression.object);
        let ghost prev = *self;
        self.find_in_expressions(&method_call_expression.arguments);
        proof {
            lemma_prefix_transitive(
                old(self).completion_items@,
                prev.completion_items@,
                self.completion_items@,
            );
        }
    }

    /// Walks a constructor expression: its type path asks for types
    /// only.
    #[verifier::loop_isolation(false)]
    pub fn find_in_constructor_expression(
        &mut self,
        constructor_expression: &ConstructorExpression,
    )
        requires
            old(self).wf(),
        ensures
            expr_post(*old(self), *final(self)),
        decreases *constructor_expression,
    {
        self.find_in_path(&constructor_expression.typ_path, RequestedItems::OnlyTypes);
        let n = constructor_expression.fields.len();
        for i in 0..n
            invariant
                n == constructor_expression.fields.len(),
                self.wf(),
                expr_post(*old(self), *self),
        {
            proof {
                broadcast use vstd::std_specs::vec::group_vec_axioms;

                assert(decreases_to!(*constructor_expression => constructor_expression.fields));
                assert(decreases_to!(constructor_expression.fields => constructor_expression.fields@[
                    i as int
                ]));
            }
            let ghost prev = *self;
            self.find_in_expression(&constructor_expression.fields[i].1);
            proof {
                lemma_prefix_transitive(
                    old(self).completion_items@,
                    prev.completion_items@,
                    self.completion_items@,
                );
            }
        }
    }

    /// Walks a member access. With the cursor right at the member name,
    /// the fields and methods of the receiver's recorded type are
    /// completed with the member text as prefix.
    pub fn find_in_member_access_expression(
        &mut self,
        member_access_expression: &MemberAccessExpression,
    )
        requires
            old(self).wf(),
        ensures
            expr_post(*old(self), *final(self)),
            ({
                match spec_location_type_from(
                    old(self).interner.location_types@,
                    Location { span: member_access_expression.lhs.span, file: old(self).file },
                    0,
                ) {
                    Some(typ) => old(self).byte_index as int
                        == member_access_expression.rhs.span.end as int
                        ==> completes_type_fields_and_methods(
                        *old(self),
                        *final(self),
                        *old(self).interner.spec_follow_bindings(typ),
                        member_access_expression.rhs.name@,
                    ),
                    None => true,
                }
            }),
        decreases *member_access_expression,
    {
        let ident = &member_access_expression.rhs;
        if self.byte_index == ident.span.end as usize {
            let location = Location::new(member_access_expression.lhs.span, self.file);
            if let Some(typ) = self.interner.type_at_location(location) {
                let typ = self.interner.follow_bindings(&typ);
                let prefix = ident.name.clone();
                self.complete_type_fields_and_methods(&typ, prefix.as_str());
                return ;
            }
        }
        self.find_in_expression(&member_access_expression.lhs);
    }

    /// Walks a cast expression.
    pub fn find_in_cast_expression(&mut self, cast_expression: &CastExpression)
        requires
            old(self).wf(),
        ensures
            expr_post(*old(self), *final(self)),
        decreases *cast_expression,
    {
        self.find_in_expression(&cast_expression.lhs);
    }

    /// Walks an infix expression.
    pub fn find_in_infix_expression(&mut self, infix_expression: &InfixExpression)
        requires
            old(self).wf(),
        ensures
            expr_post(*old(self), *final(self)),
        decreases *infix_expression,
    {
        self.find_in_expression(&infix_expression.lhs);
        let ghost prev = *self;
        self.find_in_expression(&infix_expression.rhs);
        proof {
            lemma_prefix_transitive(
                old(self).completion_items@,
                prev.completion_items@,
                self.completion_items@,
            );
        }
    }

    /// Walks an if expression; each branch's locals stay its own.
    pub fn find_in_if_expression(&mut self, if_expression: &IfExpression)
        requires
            old(self).wf(),
        ensures
            expr_post(*old(self), *final(self)),
        decreases *if_expression,
    {
        self.find_in_expression(&if_expression.condition);
        let ghost prev = *self;
        self.find_in_expression(&if_expression.consequence);
        proof {
            lemma_prefix_transitive(
                old(self).completion_items@,
                prev.completion_items@,
                self.completion_items@,
            );
        }
        if let Some(alternative) = &if_expression.alternative {
            let ghost prev2 = *self;
            self.find_in_expression(alternative);
            proof {
                lemma_prefix_transitive(
                    old(self).completion_items@,
                    prev2.completion_items@,
                    self.completion_items@,
                );
            }
        }
    }

    /// Walks a lambda: its parameter patterns join the locals around
    /// its body, and the locals are restored on exit.
    #[verifier::loop_isolation(false)]
    pub fn find_in_lambda(&mut self, lambda: &Lambda)
        requires
            old(self).wf(),
        ensures
            expr_post(*old(self), *final(self)),
        decreases *lambda,
    {
        let n = lambda.parameters.len();
        for i in 0..n
            invariant
                n == lambda.parameters.len(),
                self.wf(),
                expr_post(*old(self), *self),
        {
            let ghost prev = *self;
            self.find_in_unresolved_type(&lambda.parameters[i].1);
            proof {
                lemma_prefix_transitive(
                    old(self).completion_items@,
                    prev.completion_items@,
                    self.completion_items@,
                );
            }
        }
        let locals_len = self.local_variables.len();
        for i in 0..n
            invariant
                n == lambda.parameters.len(),
                self.wf(),
                same_context(*old(self), *self),
                self.module_id == old(self).module_id,
                self.type_parameters@ == old(self).type_parameters@,
                locals_len == old(self).local_variables@.len(),
                old(self).local_variables@.is_prefix_of(self.local_variables@),
                items_extended(*old(self), *self),
        {
            let ghost prev = *self;
            self.collect_local_variables(&lambda.parameters[i].0);
            proof {
                lemma_prefix_transitive(
                    old(self).local_variables@,
                    prev.local_variables@,
                    self.local_variables@,
                );
            }
        }
        let ghost prev = *self;
        self.find_in_expression(&lambda.body);
        proof {
            lemma_prefix_transitive(
                old(self).completion_items@,
                prev.completion_items@,
                self.completion_items@,
            );
        }
        self.local_variables.truncate(locals_len);
        proof {
            assert(self.local_variables@ =~= old(self).local_variables@);
        }
    }

    /// Walks a `<Type as Trait>` path: only its trait path is visited.
    pub fn find_in_as_trait_path(&mut self, as_trait_path: &AsTraitPath)
        requires
            old(self).wf(),
        ensures
            expr_post(*old(self), *final(self)),
        decreases *as_trait_path,
    {
        self.find_in_path(&as_trait_path.trait_path, RequestedItems::OnlyTypes);
    }

    /// Walks a declared return type.
    pub fn find_in_function_return_type(&mut self, return_type: &FunctionReturnType)
        requires
            old(self).wf(),
        ensures
            expr_post(*old(self), *final(self)),
        decreases *return_type,
    {
        match return_type {
            FunctionReturnType::Default => {},
            FunctionReturnType::Ty(unresolved_type) => {
                self.find_in_unresolved_type(unresolved_type);
            },
        }
    }

    /// Walks a list of syntactic types.
    #[verifier::loop_isolation(false)]
    pub fn find_in_unresolved_types(&mut self, unresolved_types: &Vec<UnresolvedType>)
        requires
            old(self).wf(),
        ensures
            expr_post(*old(self), *final(self)),
        decreases *unresolved_types,
    {
        let n = unresolved_types.len();
        for i in 0..n
            invariant
                n == unresolved_types.len(),
                self.wf(),
                expr_post(*old(self), *self),
        {
            proof {
                broadcast use vstd::std_specs::vec::group_vec_axioms;

                assert(decreases_to!(*unresolved_types => unresolved_types@[i as int]));
            }
            let ghost prev = *self;
            self.find_in_unresolved_type(&unresolved_types[i]);
            proof {
                lemma_prefix_transitive(
                    old(self).completion_items@,
                    prev.completion_items@,
                    self.completion_items@,
                );
            }
        }
    }

    /// Walks one syntactic type, descending only when its span (if it
    /// has one) contains the cursor; named and trait paths ask for
    /// types only.
    pub fn find_in_unresolved_type(&mut self, unresolved_type: &UnresolvedType)
        requires
            old(self).wf(),
        ensures
            expr_post(*old(self), *final(self)),
            (unresolved_type.span matches Some(span) && !span.contains(
                old(self).byte_index as int,
            )) ==> final(self).completion_items@ == old(self).completion_items@,
            ({
                let gate = match unresolved_type.span {
                    Some(span) => span.contains(old(self).byte_index as int),
                    None => true,
                };
                match unresolved_type.typ {
                    UnresolvedTypeData::Named(p, _) => (gate && old(self).byte_index as int
                        == p.span.end as int && old(self).byte != Some(COLON_BYTE)
                        && p.segments@.len() == 1 && p.kind is Plain) ==> forall|i: int|
                        0 <= i < old(self).type_parameters@.len()
                            && p.segments@.last().ident.name@.is_prefix_of(
                            (#[trigger] old(self).type_parameters@[i])@,
                        ) ==> has_new_labeled_item(
                            *old(self),
                            *final(self),
                            old(self).type_parameters@[i]@,
                            CompletionItemKind::TypeParameter,
                        ),
                    UnresolvedTypeData::TraitAsType(p, _) => (gate && old(self).byte_index as int
                        == p.span.end as int && old(self).byte != Some(COLON_BYTE)
                        && p.segments@.len() == 1 && p.kind is Plain) ==> forall|i: int|
                        0 <= i < old(self).type_parameters@.len()
                            && p.segments@.last().ident.name@.is_prefix_of(
                            (#[trigger] old(self).type_parameters@[i])@,
                        ) ==> has_new_labeled_item(
                            *old(self),
                            *final(self),
                            old(self).type_parameters@[i]@,
                            CompletionItemKind::TypeParameter,
                        ),
                    _ => true,
                }
            }),
        decreases *unresolved_type,
    {
        if let Some(span) = unresolved_type.span {
            if !self.includes_span(span) {
                return ;
            }
        }
        match &unresolved_type.typ {
            UnresolvedTypeData::Array(inner) => {
                self.find_in_unresolved_type(inner);
            },
            UnresolvedTypeData::Slice(inner) => {
                self.find_in_unresolved_type(inner);
            },
            UnresolvedTypeData::Parenthesized(inner) => {
                self.find_in_unresolved_type(inner);
            },
            UnresolvedTypeData::Named(path, generics) => {
                self.find_in_path(path, RequestedItems::OnlyTypes);
                let ghost prev = *self;
                self.find_in_unresolved_types(generics);
                proof {
                    lemma_prefix_transitive(
                        old(self).completion_items@,
                        prev.completion_items@,
                        self.completion_items@,
                    );
                    if old(self).byte_index as int == path.span.end as int && old(self).byte
                        != Some(COLON_BYTE) && path.segments@.len() == 1 && path.kind is Plain {
                        assert forall|i: int|
                            0 <= i < old(self).type_parameters@.len()
                                && path.segments@.last().ident.name@.is_prefix_of(
                                (#[trigger] old(self).type_parameters@[i])@,
                            ) implies has_new_labeled_item(
                            *old(self),
                            *self,
                            old(self).type_parameters@[i]@,
                            CompletionItemKind::TypeParameter,
                        ) by {
                            lemma_labeled_item_persists(
                                *old(self),
                                prev,
                                *self,
                                old(self).type_parameters@[i]@,
                                CompletionItemKind::TypeParameter,
                            );
                        }
                    }
                }
            },
            UnresolvedTypeData::TraitAsType(path, generics) => {
                self.find_in_path(path, RequestedItems::OnlyTypes);
                let ghost prev = *self;
                self.find_in_unresolved_types(generics);
                proof {
                    lemma_prefix_transitive(
                        old(self).completion_items@,
                        prev.completion_items@,
                        self.completion_items@,
                    );
                    if old(self).byte_index as int == path.span.end as int && old(self).byte
                        != Some(COLON_BYTE) && path.segments@.len() == 1 && path.kind is Plain {
                        assert forall|i: int|
                            0 <= i < old(self).type_parameters@.len()
                                && path.segments@.last().ident.name@.is_prefix_of(
                                (#[trigger] old(self).type_parameters@[i])@,
                            ) implies has_new_labeled_item(
                            *old(self),
                            *self,
                            old(self).type_parameters@[i]@,
                            CompletionItemKind::TypeParameter,
                        ) by {
                            lemma_labeled_item_persists(
                                *old(self),
                                prev,
                                *self,
                                old(self).type_parameters@[i]@,
                                CompletionItemKind::TypeParameter,
                            );
                        }
                    }
                }
            },
            UnresolvedTypeData::MutableReference(inner) => {
                self.find_in_unresolved_type(inner);
            },
            UnresolvedTypeData::Tuple(types) => {
                self.find_in_unresolved_types(types);
            },
            UnresolvedTypeData::Function(args, ret, env) => {
                self.find_in_unresolved_types(args);
                let ghost prev = *self;
                self.find_in_unresolved_type(ret);
                let ghost prev2 = *self;
                self.find_in_unresolved_type(env);
                proof {
                    lemma_prefix_transitive(
                        old(self).completion_items@,
                        prev.completion_items@,
                        prev2.completion_items@,
                    );
                    lemma_prefix_transitive(
                        old(self).completion_items@,
                        prev2.completion_items@,
                        self.completion_items@,
                    );
                }
            },
            UnresolvedTypeData::AsTraitPath(as_trait_path) => {
                self.find_in_as_trait_path(as_trait_path);
            },
            _ => {},
        }
    }

    /// Walks a path. Completions are offered only with the cursor right
    /// at the path's end: after `::` the named module's direct children,
    /// otherwise everything visible under the trailing identifier as
    /// prefix — and, for a bare single segment, the locals, type
    /// parameters and builtins that the request kind allows.
    #[verifier::loop_isolation(false)]
    #[verifier::rlimit(100)]
    pub fn find_in_path(&mut self, path: &Path, requested_items: RequestedItems)
        requires
            old(self).wf(),
        ensures
            expr_post(*old(self), *final(self)),
            old(self).byte_index != path.span.end ==> final(self).completion_items@ == old(
                self,
            ).completion_items@,
            (old(self).byte_index as int == path.span.end as int && old(self).byte != Some(
                COLON_BYTE,
            ) && path.segments@.len() > 0) ==> forall|k: int|
                old(self).completion_items@.len() <= k < final(self).completion_items@.len()
                    ==> path.segments@.last().ident.name@.is_prefix_of(
                    (#[trigger] final(self).completion_items@[k]).label@,
                ),
            (old(self).byte_index as int == path.span.end as int && old(self).byte != Some(
                COLON_BYTE,
            ) && path.segments@.len() > 1 && match spec_resolve_path(
                *old(self),
                spec_path_pairs(path.segments@).drop_last(),
            ) {
                Some(ModuleDefId::Type(_)) => true,
                Some(ModuleDefId::TypeAlias(_)) => true,
                _ => false,
            }) ==> forall|k: int|
                old(self).completion_items@.len() <= k < final(self).completion_items@.len() ==> (
                #[trigger] final(self).completion_items@[k]).kind == CompletionItemKind::Function,
            (old(self).byte_index as int == path.span.end as int && old(self).byte != Some(
                COLON_BYTE,
            ) && path.segments@.len() > 1 && match spec_resolve_path(
                *old(self),
                spec_path_pairs(path.segments@).drop_last(),
            ) {
                None => true,
                Some(ModuleDefId::Function(_)) => true,
                Some(ModuleDefId::Trait(_)) => true,
                Some(ModuleDefId::Global(_)) => true,
                _ => false,
            }) ==> final(self).completion_items@ == old(self).completion_items@,
            (old(self).byte_index as int == path.span.end as int && old(self).byte != Some(
                COLON_BYTE,
            ) && path.segments@.len() == 1 && path.kind is Plain
                && requested_items is AnyItems) ==> forall|i: int|
                0 <= i < old(self).local_variables@.len()
                    && path.segments@.last().ident.name@.is_prefix_of(
                    (#[trigger] old(self).local_variables@[i]).0@,
                ) && !spec_has_later(old(self).local_variables@, i) ==> has_new_labeled_item(
                    *old(self),
                    *final(self),
                    old(self).local_variables@[i].0@,
                    CompletionItemKind::Variable,
                ),
            ({
                let after = old(self).byte == Some(COLON_BYTE);
                let pairs = if after {
                    spec_path_pairs(path.segments@)
                } else {
                    spec_path_pairs(path.segments@).drop_last()
                };
                let qprefix = if after {
                    Seq::<char>::empty()
                } else {
                    path.segments@.last().ident.name@
                };
                let enumeration_kind = if after {
                    ModuleCompletionKind::DirectChildren
                } else {
                    ModuleCompletionKind::AllVisibleItems
                };
                (old(self).byte_index as int == path.span.end as int && path.segments@.len() > 0
                    && pairs.len() > 0) ==> match spec_resolve_path(*old(self), pairs) {
                    Some(ModuleDefId::Module(m)) => module_enumeration_complete(
                        *old(self),
                        *final(self),
                        m,
                        qprefix,
                        path.kind,
                        false,
                        enumeration_kind,
                        FunctionCompletionKind::NameAndParameters,
                        requested_items,
                    ) && module_enumeration_sound(
                        *old(self),
                        *final(self),
                        m,
                        qprefix,
                        path.kind,
                        false,
                        enumeration_kind,
                        FunctionCompletionKind::NameAndParameters,
                        requested_items,
                    ),
                    Some(ModuleDefId::Type(struct_id)) => type_methods_complete(
                        *old(self),
                        *final(self),
                        MethodKey::Struct(struct_id),
                        qprefix,
                        FunctionKind::Any,
                    ),
                    Some(ModuleDefId::TypeAlias(alias_id)) => if alias_id.0 < old(
                        self,
                    ).interner.type_aliases.len() {
                        match old(self).interner.spec_method_key(
                            *old(self).interner.type_aliases@[alias_id.0 as int].typ,
                        ) {
                            Some(key) => type_methods_complete(
                                *old(self),
                                *final(self),
                                key,
                                qprefix,
                                FunctionKind::Any,
                            ),
                            None => final(self).completion_items@ == old(self).completion_items@,
                        }
                    } else {
                        final(self).completion_items@ == old(self).completion_items@
                    },
                    _ => final(self).completion_items@ == old(self).completion_items@,
                }
            }),
            (old(self).byte_index as int == path.span.end as int && old(self).byte != Some(
                COLON_BYTE,
            ) && path.segments@.len() == 1) ==> module_enumeration_complete(
                *old(self),
                *final(self),
                old(self).module_id,
                path.segments@.last().ident.name@,
                path.kind,
                true,
                ModuleCompletionKind::AllVisibleItems,
                FunctionCompletionKind::NameAndParameters,
                requested_items,
            ),
            (old(self).byte_index as int == path.span.end as int && old(self).byte != Some(
                COLON_BYTE,
            ) && path.segments@.len() == 1 && path.kind is Plain
                && requested_items is AnyItems) ==> {
                &&& (path.segments@.last().ident.name@.is_prefix_of("assert"@)
                    ==> has_new_labeled_item(
                    *old(self),
                    *final(self),
                    "assert"@,
                    CompletionItemKind::Function,
                ))
                &&& (path.segments@.last().ident.name@.is_prefix_of("assert_eq"@)
                    ==> has_new_labeled_item(
                    *old(self),
                    *final(self),
                    "assert_eq"@,
                    CompletionItemKind::Function,
                ))
                &&& (path.segments@.last().ident.name@.is_prefix_of("true"@)
                    ==> has_new_simple_item(
                    *old(self),
                    *final(self),
                    "true"@,
                    CompletionItemKind::Keyword,
                ))
                &&& (path.segments@.last().ident.name@.is_prefix_of("false"@)
                    ==> has_new_simple_item(
                    *old(self),
                    *final(self),
                    "false"@,
                    CompletionItemKind::Keyword,
                ))
            },
            (old(self).byte_index as int == path.span.end as int && old(self).byte != Some(
                COLON_BYTE,
            ) && path.segments@.len() == 1 && path.kind is Plain
                && requested_items is OnlyTypes) ==> {
                &&& (path.segments@.last().ident.name@.is_prefix_of("Field"@)
                    ==> has_new_simple_item(
                    *old(self),
                    *final(self),
                    "Field"@,
                    CompletionItemKind::Struct,
                ))
                &&& (path.segments@.last().ident.name@.is_prefix_of("bool"@)
                    ==> has_new_simple_item(
                    *old(self),
                    *final(self),
                    "bool"@,
                    CompletionItemKind::Struct,
                ))
                &&& forall|i: int|
                    0 <= i < old(self).type_parameters@.len()
                        && path.segments@.last().ident.name@.is_prefix_of(
                        (#[trigger] old(self).type_parameters@[i])@,
                    ) ==> has_new_labeled_item(
                        *old(self),
                        *final(self),
                        old(self).type_parameters@[i]@,
                        CompletionItemKind::TypeParameter,
                    )
            },
    {
        if self.byte_index != path.span.end as usize {
            return ;
        }
        let after_colons = match self.byte {
            Some(b) => b == COLON_BYTE,
            None => false,
        };
        let mut idents: Vec<(String, Span)> = Vec::new();
        let n_segments = path.segments.len();
        for i in 0..n_segments
            invariant
                n_segments == path.segments.len(),
                idents@ =~= spec_path_pairs(path.segments@).take(i as int),
        {
            let segment = &path.segments[i];
            idents.push((segment.ident.name.clone(), segment.ident.span));
            proof {
                assert(idents@ =~= spec_path_pairs(path.segments@).take(i as int + 1));
            }
        }
        proof {
            assert(idents@ =~= spec_path_pairs(path.segments@));
        }
        let prefix: String;
        let at_root: bool;
        if after_colons {
            prefix = String::new();
            at_root = false;
        } else {
            match idents.pop() {
                Some(last) => {
                    prefix = last.0;
                },
                None => {
                    return ;
                },
            }
            proof {
                assert(prefix@ == path.segments@.last().ident.name@);
                assert(idents@ =~= spec_path_pairs(path.segments@).drop_last());
            }
            at_root = idents.len() == 0;
        }
        let is_single_segment = !after_colons && idents.len() == 0 && matches!(
            path.kind,
            PathKind::Plain,
        );
        let module_id: ModuleId;
        if idents.len() == 0 {
            module_id = self.module_id;
        } else {
            let module_def_id = match self.resolve_path(&idents) {
                Some(id) => id,
                None => {
                    return ;
                },
            };
            match module_def_id {
                ModuleDefId::Module(id) => {
                    module_id = id;
                },
                ModuleDefId::Type(struct_id) => {
                    let typ = Type::Struct(struct_id, Vec::new());
                    self.complete_type_methods(&typ, prefix.as_str(), FunctionKind::Any);
                    return ;
                },
                ModuleDefId::Function(_) => {
                    return ;
                },
                ModuleDefId::TypeAlias(type_alias_id) => {
                    let target_opt = match self.interner.get_type_alias(type_alias_id) {
                        Some(alias) => Some(alias.typ.clone()),
                        None => None,
                    };
                    if let Some(target) = target_opt {
                        self.complete_type_methods(&target, prefix.as_str(), FunctionKind::Any);
                    }
                    return ;
                },
                ModuleDefId::Trait(_) => {
                    return ;
                },
                ModuleDefId::Global(_) => {
                    return ;
                },
            }
        }
        let module_completion_kind = if after_colons {
            ModuleCompletionKind::DirectChildren
        } else {
            ModuleCompletionKind::AllVisibleItems
        };
        let function_completion_kind = FunctionCompletionKind::NameAndParameters;
        self.complete_in_module(
            module_id,
            prefix.as_str(),
            path.kind,
            at_root,
            module_completion_kind,
            function_completion_kind,
            requested_items,
        );
        let ghost after_module = *self;
        if is_single_segment {
            match requested_items {
                RequestedItems::AnyItems => {
                    let ghost prev = *self;
                    self.local_variables_completion(prefix.as_str());
                    let ghost prev2 = *self;
                    self.builtin_functions_completion(prefix.as_str());
                    let ghost prev3 = *self;
                    self.builtin_values_completion(prefix.as_str());
                    proof {
                        lemma_prefix_transitive(
                            old(self).completion_items@,
                            prev.completion_items@,
                            prev2.completion_items@,
                        );
                        lemma_prefix_transitive(
                            old(self).completion_items@,
                            prev2.completion_items@,
                            prev3.completion_items@,
                        );
                        lemma_prefix_transitive(
                            old(self).completion_items@,
                            prev3.completion_items@,
                            self.completion_items@,
                        );
                        lemma_prefix_transitive(
                            prev.completion_items@,
                            prev2.completion_items@,
                            prev3.completion_items@,
                        );
                        lemma_prefix_transitive(
                            prev.completion_items@,
                            prev3.completion_items@,
                            self.completion_items@,
                        );
                        lemma_prefix_transitive(
                            prev2.completion_items@,
                            prev3.completion_items@,
                            self.completion_items@,
                        );
                        lemma_extended_elements(prev.completion_items@, self.completion_items@);
                        lemma_extended_elements(prev2.completion_items@, self.completion_items@);
                        lemma_extended_elements(prev3.completion_items@, self.completion_items@);
                        assert forall|k: int|
                            old(self).completion_items@.len() <= k < self.completion_items@.len()
                                implies prefix@.is_prefix_of(
                            (#[trigger] self.completion_items@[k]).label@,
                        ) by {
                            if k < prev.completion_items@.len() {
                                assert(self.completion_items@[k] == prev.completion_items@[k]);
                            } else if k < prev2.completion_items@.len() {
                                assert(self.completion_items@[k] == prev2.completion_items@[k]);
                            } else if k < prev3.completion_items@.len() {
                                assert(self.completion_items@[k] == prev3.completion_items@[k]);
                            }
                        }
                        assert forall|i: int|
                            0 <= i < old(self).local_variables@.len() && prefix@.is_prefix_of(
                                (#[trigger] old(self).local_variables@[i]).0@,
                            ) && !spec_has_later(old(self).local_variables@, i)
                            implies has_new_labeled_item(
                            *old(self),
                            *self,
                            old(self).local_variables@[i].0@,
                            CompletionItemKind::Variable,
                        ) by {
                            lemma_labeled_item_widen(
                                *old(self),
                                prev,
                                prev2,
                                old(self).local_variables@[i].0@,
                                CompletionItemKind::Variable,
                            );
                            lemma_labeled_item_persists(
                                *old(self),
                                prev2,
                                *self,
                                old(self).local_variables@[i].0@,
                                CompletionItemKind::Variable,
                            );
                        }
                        if prefix@.is_prefix_of("assert"@) {
                            lemma_labeled_item_widen(
                                *old(self),
                                prev2,
                                prev3,
                                "assert"@,
                                CompletionItemKind::Function,
                            );
                            lemma_labeled_item_persists(
                                *old(self),
                                prev3,
                                *self,
                                "assert"@,
                                CompletionItemKind::Function,
                            );
                        }
                        if prefix@.is_prefix_of("assert_eq"@) {
                            lemma_labeled_item_widen(
                                *old(self),
                                prev2,
                                prev3,
                                "assert_eq"@,
                                CompletionItemKind::Function,
                            );
                            lemma_labeled_item_persists(
                                *old(self),
                                prev3,
                                *self,
                                "assert_eq"@,
                                CompletionItemKind::Function,
                            );
                        }
                        if prefix@.is_prefix_of("true"@) {
                            lemma_simple_item_widen(
                                *old(self),
                                prev3,
                                *self,
                                "true"@,
                                CompletionItemKind::Keyword,
                            );
                        }
                        if prefix@.is_prefix_of("false"@) {
                            lemma_simple_item_widen(
                                *old(self),
                                prev3,
                                *self,
                                "false"@,
                                CompletionItemKind::Keyword,
                            );
                        }
                    }
                },
                RequestedItems::OnlyTypes => {
                    let ghost prev = *self;
                    self.builtin_types_completion(prefix.as_str());
                    let ghost prev2 = *self;
                    self.type_parameters_completion(prefix.as_str());
                    proof {
                        lemma_prefix_transitive(
                            old(self).completion_items@,
                            prev.completion_items@,
                            prev2.completion_items@,
                        );
                        lemma_prefix_transitive(
                            old(self).completion_items@,
                            prev2.completion_items@,
                            self.completion_items@,
                        );
                        lemma_prefix_transitive(
                            prev.completion_items@,
                            prev2.completion_items@,
                            self.completion_items@,
                        );
                        lemma_extended_elements(prev.completion_items@, self.completion_items@);
                        lemma_extended_elements(prev2.completion_items@, self.completion_items@);
                        assert forall|k: int|
                            old(self).completion_items@.len() <= k < self.completion_items@.len()
                                implies prefix@.is_prefix_of(
                            (#[trigger] self.completion_items@[k]).label@,
                        ) by {
                            if k < prev.completion_items@.len() {
                                assert(self.completion_items@[k] == prev.completion_items@[k]);
                            } else if k < prev2.completion_items@.len() {
                                assert(self.completion_items@[k] == prev2.completion_items@[k]);
                            }
                        }
                        if prefix@.is_prefix_of("Field"@) {
                            lemma_simple_item_widen(
                                *old(self),
                                prev,
                                prev2,
                                "Field"@,
                                CompletionItemKind::Struct,
                            );
                            lemma_simple_item_persists(
                                *old(self),
                                prev2,
                                *self,
                                "Field"@,
                                CompletionItemKind::Struct,
                            );
                        }
                        if prefix@.is_prefix_of("bool"@) {
                            lemma_simple_item_widen(
                                *old(self),
                                prev,
                                prev2,
                                "bool"@,
                                CompletionItemKind::Struct,
                            );
                            lemma_simple_item_persists(
                                *old(self),
                                prev2,
                                *self,
                                "bool"@,
                                CompletionItemKind::Struct,
                            );
                        }
                        assert forall|i: int|
                            0 <= i < old(self).type_parameters@.len() && prefix@.is_prefix_of(
                                (#[trigger] old(self).type_parameters@[i])@,
                            ) implies has_new_labeled_item(
                            *old(self),
                            *self,
                            old(self).type_parameters@[i]@,
                            CompletionItemKind::TypeParameter,
                        ) by {
                            lemma_labeled_item_widen(
                                *old(self),
                                prev2,
                                *self,
                                old(self).type_parameters@[i]@,
                                CompletionItemKind::TypeParameter,
                            );
                        }
                    }
                },
            }
        }
        proof {
            if !after_colons && path.segments.len() == 1 && is_single_segment {
                match spec_adjusted_module(
                    old(self).def_maps@,
                    old(self).module_id,
                    path.kind,
                    true,
                ) {
                    Some(adjusted) => {
                        assert forall|j: int|
                            0 <= j < spec_enumerated_entries(
                                old(self).def_maps@,
                                adjusted.0,
                                adjusted.1,
                                ModuleCompletionKind::AllVisibleItems,
                            ).len() && prefix@.is_prefix_of(
                                (#[trigger] spec_enumerated_entries(
                                    old(self).def_maps@,
                                    adjusted.0,
                                    adjusted.1,
                                    ModuleCompletionKind::AllVisibleItems,
                                )[j]).name@,
                            ) implies slot_item_found(
                            *old(self),
                            *self,
                            spec_enumerated_entries(
                                old(self).def_maps@,
                                adjusted.0,
                                adjusted.1,
                                ModuleCompletionKind::AllVisibleItems,
                            )[j].types,
                            spec_enumerated_entries(
                                old(self).def_maps@,
                                adjusted.0,
                                adjusted.1,
                                ModuleCompletionKind::AllVisibleItems,
                            )[j].name@,
                            (ModuleId {
                                krate: old(self).module_id.krate,
                                local_id: LocalModuleId(adjusted.1 as usize),
                            }),
                            FunctionCompletionKind::NameAndParameters,
                            requested_items,
                        ) && slot_item_found(
                            *old(self),
                            *self,
                            spec_enumerated_entries(
                                old(self).def_maps@,
                                adjusted.0,
                                adjusted.1,
                                ModuleCompletionKind::AllVisibleItems,
                            )[j].values,
                            spec_enumerated_entries(
                                old(self).def_maps@,
                                adjusted.0,
                                adjusted.1,
                                ModuleCompletionKind::AllVisibleItems,
                            )[j].name@,
                            (ModuleId {
                                krate: old(self).module_id.krate,
                                local_id: LocalModuleId(adjusted.1 as usize),
                            }),
                            FunctionCompletionKind::NameAndParameters,
                            requested_items,
                        ) by {
                            lemma_slot_item_persists(
                                *old(self),
                                after_module,
                                *self,
                                spec_enumerated_entries(
                                    old(self).def_maps@,
                                    adjusted.0,
                                    adjusted.1,
                                    ModuleCompletionKind::AllVisibleItems,
                                )[j].types,
                                spec_enumerated_entries(
                                    old(self).def_maps@,
                                    adjusted.0,
                                    adjusted.1,
                                    ModuleCompletionKind::AllVisibleItems,
                                )[j].name@,
                                (ModuleId {
                                    krate: old(self).module_id.krate,
                                    local_id: LocalModuleId(adjusted.1 as usize),
                                }),
                                FunctionCompletionKind::NameAndParameters,
                                requested_items,
                            );
                            lemma_slot_item_persists(
                                *old(self),
                                after_module,
                                *self,
                                spec_enumerated_entries(
                                    old(self).def_maps@,
                                    adjusted.0,
                                    adjusted.1,
                                    ModuleCompletionKind::AllVisibleItems,
                                )[j].values,
                                spec_enumerated_entries(
                                    old(self).def_maps@,
                                    adjusted.0,
                                    adjusted.1,
                                    ModuleCompletionKind::AllVisibleItems,
                                )[j].name@,
                                (ModuleId {
                                    krate: old(self).module_id.krate,
                                    local_id: LocalModuleId(adjusted.1 as usize),
                                }),
                                FunctionCompletionKind::NameAndParameters,
                                requested_items,
                            );
                        }
                    },
                    None => {},
                }
            }
        }
    }

    /// Walks a use tree, accumulating the path prefixes on a stack that
    /// is restored on exit.
    #[verifier::loop_isolation(false)]
    pub fn find_in_use_tree(
        &mut self,
        use_tree: &UseTree,
        root_kind: PathKind,
        segments: &mut Vec<(String, Span)>,
    )
        requires
            old(self).wf(),
        ensures
            expr_post(*old(self), *final(self)),
            final(segments)@ == old(segments)@,
        decreases *use_tree,
    {
        let segments_len = segments.len();
        let n_prefix = use_tree.prefix.segments.len();
        for i in 0..n_prefix
            invariant
                n_prefix == use_tree.prefix.segments.len(),
                segments_len == old(segments)@.len(),
                old(segments)@.is_prefix_of(segments@),
        {
            let segment = &use_tree.prefix.segments[i];
            segments.push((segment.ident.name.clone(), segment.ident.span));
        }
        match &use_tree.kind {
            UseTreeKind::Path(ident, alias) => {
                self.find_in_use_tree_path(segments, root_kind, ident, alias);
            },
            UseTreeKind::List(use_trees) => {
                let n = use_trees.len();
                for i in 0..n
                    invariant
                        n == use_trees.len(),
                        self.wf(),
                        expr_post(*old(self), *self),
                        old(segments)@.is_prefix_of(segments@),
                        segments_len == old(segments)@.len(),
                {
                    proof {
                        broadcast use vstd::std_specs::vec::group_vec_axioms;

                        assert(decreases_to!(*use_tree => *use_trees));
                        assert(decreases_to!(*use_trees => use_trees@[i as int]));
                    }
                    let ghost prev = *self;
                    self.find_in_use_tree(&use_trees[i], root_kind, segments);
                    proof {
                        lemma_prefix_transitive(
                            old(self).completion_items@,
                            prev.completion_items@,
                            self.completion_items@,
                        );
                    }
                }
            },
        }
        segments.truncate(segments_len);
        proof {
            assert(segments@ =~= old(segments)@);
        }
    }

    /// Handles the final segment of one use-tree path. An aliased
    /// import is never completed; otherwise, with the cursor right
    /// after the segment the visible names under it are offered, and
    /// right after a `::` the named module's direct children.
    pub fn find_in_use_tree_path(
        &mut self,
        segments: &Vec<(String, Span)>,
        path_kind: PathKind,
        ident: &Ident,
        alias: &Option<Ident>,
    )
        requires
            old(self).wf(),
        ensures
            expr_post(*old(self), *final(self)),
            alias is Some ==> final(self).completion_items@ == old(self).completion_items@,
            ({
                let after_colons = old(self).byte == Some(COLON_BYTE);
                let at_ident_end = old(self).byte_index as int == ident.span.end as int;
                let at_ident_colons_end = after_colons && old(self).byte_index >= 2 && old(
                    self,
                ).byte_index - 2 == ident.span.end as int;
                !(at_ident_end || at_ident_colons_end)
            }) ==> final(self).completion_items@ == old(self).completion_items@,
            (alias is None && old(self).byte == Some(COLON_BYTE) && old(self).byte_index >= 2
                && old(self).byte_index - 2 == ident.span.end as int) ==> match spec_resolve_path(
                *old(self),
                segments@.push((ident.name, ident.span)),
            ) {
                Some(ModuleDefId::Module(m)) => module_enumeration_complete(
                    *old(self),
                    *final(self),
                    m,
                    ""@,
                    path_kind,
                    false,
                    ModuleCompletionKind::DirectChildren,
                    FunctionCompletionKind::NameAndParameters,
                    RequestedItems::AnyItems,
                ) && module_enumeration_sound(
                    *old(self),
                    *final(self),
                    m,
                    ""@,
                    path_kind,
                    false,
                    ModuleCompletionKind::DirectChildren,
                    FunctionCompletionKind::NameAndParameters,
                    RequestedItems::AnyItems,
                ),
                _ => true,
            },
            (alias is None && old(self).byte != Some(COLON_BYTE) && old(self).byte_index as int
                == ident.span.end as int) ==> if segments@.len() == 0 {
                module_enumeration_complete(
                    *old(self),
                    *final(self),
                    old(self).module_id,
                    ident.name@,
                    path_kind,
                    true,
                    ModuleCompletionKind::DirectChildren,
                    FunctionCompletionKind::NameAndParameters,
                    RequestedItems::AnyItems,
                ) && module_enumeration_sound(
                    *old(self),
                    *final(self),
                    old(self).module_id,
                    ident.name@,
                    path_kind,
                    true,
                    ModuleCompletionKind::DirectChildren,
                    FunctionCompletionKind::NameAndParameters,
                    RequestedItems::AnyItems,
                )
            } else {
                match spec_resolve_path(*old(self), segments@) {
                    Some(ModuleDefId::Module(m)) => module_enumeration_complete(
                        *old(self),
                        *final(self),
                        m,
                        ident.name@,
                        path_kind,
                        false,
                        ModuleCompletionKind::DirectChildren,
                        FunctionCompletionKind::NameAndParameters,
                        RequestedItems::AnyItems,
                    ) && module_enumeration_sound(
                        *old(self),
                        *final(self),
                        m,
                        ident.name@,
                        path_kind,
                        false,
                        ModuleCompletionKind::DirectChildren,
                        FunctionCompletionKind::NameAndParameters,
                        RequestedItems::AnyItems,
                    ),
                    _ => final(self).completion_items@ == old(self).completion_items@,
                }
            },
    {
        if alias.is_some() {
            return ;
        }
        let after_colons = match self.byte {
            Some(b) => b == COLON_BYTE,
            None => false,
        };
        let at_ident_end = self.byte_index == ident.span.end as usize;
        let at_ident_colons_end = after_colons && self.byte_index >= 2 && self.byte_index - 2
            == ident.span.end as usize;
        if !(at_ident_end || at_ident_colons_end) {
            return ;
        }
        let module_completion_kind = ModuleCompletionKind::DirectChildren;
        let function_completion_kind = FunctionCompletionKind::NameAndParameters;
        let requested_items = RequestedItems::AnyItems;
        if after_colons {
            let mut segs = clone_segments(segments);
            segs.push((ident.name.clone(), ident.span));
            proof {
                assert(segs@ =~= segments@.push((ident.name, ident.span)));
            }
            if let Some(module_id) = self.resolve_module(&segs) {
                self.complete_in_module(
                    module_id,
                    "",
                    path_kind,
                    false,
                    module_completion_kind,
                    function_completion_kind,
                    requested_items,
                );
            }
        } else {
            let prefix = ident.name.clone();
            if segments.len() == 0 {
                let current_module = self.module_id;
                self.complete_in_module(
                    current_module,
                    prefix.as_str(),
                    path_kind,
                    true,
                    module_completion_kind,
                    function_completion_kind,
                    requested_items,
                );
            } else {
                let segs = clone_segments(segments);
                proof {
                    assert(segs@ =~= segments@);
                }
                if let Some(module_id) = self.resolve_module(&segs) {
                    self.complete_in_module(
                        module_id,
                        prefix.as_str(),
                        path_kind,
                        false,
                        module_completion_kind,
                        function_completion_kind,
                        requested_items,
                    );
                }
            }
        }
    }
}

} // verus!

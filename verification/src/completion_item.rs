//! Completion items and their constructors: plain items, crate items,
//! function items with a parameter snippet, and the sort text that
//! pushes names starting with an underscore below all others.

use vstd::prelude::*;
use vstd::string::StringExecFns;

use crate::ids::ModuleDefId;
use crate::kinds::{FunctionCompletionKind, FunctionKind, RequestedItems};
use crate::text::{push_decimal, spec_decimal};
use crate::types::{FuncInfo, Interner};

verus! {

/// The kind a completion item is shown as.
#[derive(Clone, Copy, PartialEq, Eq, Structural, Debug)]
pub enum CompletionItemKind {
    Function,
    Module,
    Struct,
    TypeParameter,
    Field,
    Variable,
    Keyword,
    Class,
}

/// One candidate offered at the cursor.
#[derive(Debug, PartialEq)]
pub struct CompletionItem {
    pub label: String,
    pub kind: CompletionItemKind,
    pub detail: Option<String>,
    pub insert_text: Option<String>,
    pub sort_text: Option<String>,
}

/// Whether `it` is a plain item with the given label, kind and detail
/// text, no insert text and no sort text.
pub open spec fn item_is_simple(
    it: CompletionItem,
    label: Seq<char>,
    kind: CompletionItemKind,
    detail: Option<Seq<char>>,
) -> bool {
    &&& it.label@ == label
    &&& it.kind == kind
    &&& match detail {
        Some(d) => it.detail matches Some(text) && text@ == d,
        None => it.detail is None,
    }
    &&& it.insert_text is None
    &&& it.sort_text is None
}

/// Builds a plain completion item.
pub fn simple_completion_item(
    label: String,
    kind: CompletionItemKind,
    description: Option<String>,
) -> (r: CompletionItem)
    ensures
        item_is_simple(
            r,
            label@,
            kind,
            match description {
                Some(d) => Some(d@),
                None => None,
            },
        ),
        r.label == label,
        r.detail == description,
{
    CompletionItem { label, kind, detail: description, insert_text: None, sort_text: None }
}

/// Builds the completion item of a dependency crate.
pub fn crate_completion_item(name: String) -> (r: CompletionItem)
    ensures
        item_is_simple(r, name@, CompletionItemKind::Class, None),
{
    CompletionItem {
        label: name,
        kind: CompletionItemKind::Class,
        detail: None,
        insert_text: None,
        sort_text: None,
    }
}

/// The sort text given to labels that start with an underscore: it
/// collates after every identifier character, so those labels sink to
/// the bottom of the list.
pub open spec fn spec_underscore_sort_text() -> Seq<char> {
    "~"@
}

/// The sort text that pushes a label below all others.
pub fn underscore_sort_text() -> (r: String)
    ensures
        r@ == spec_underscore_sort_text(),
{
    "~".to_owned()
}

/// A copy of an optional string. The derived clone of an option says
/// nothing to the verifier; this copy is known to be the same value.
pub fn clone_opt_string(o: &Option<String>) -> (r: Option<String>)
    ensures
        r == *o,
{
    match o {
        Some(s) => Some(s.clone()),
        None => None,
    }
}

/// One snippet placeholder: `${i:name}`.
pub open spec fn spec_snippet_param(i: int, name: Seq<char>) -> Seq<char> {
    "${"@ + spec_decimal(i) + ":"@ + name + "}"@
}

/// The comma-separated snippet placeholders of a parameter list,
/// numbering from `i` on.
pub open spec fn spec_snippet_params(params: Seq<Seq<char>>, i: int) -> Seq<char>
    decreases params.len(),
{
    if params.len() == 0 {
        Seq::empty()
    } else if params.len() == 1 {
        spec_snippet_param(i, params[0])
    } else {
        spec_snippet_param(i, params[0]) + ", "@ + spec_snippet_params(params.drop_first(), i + 1)
    }
}

/// The insert text of a function completion with parameters:
/// `name(${1:a}, ${2:b})`.
pub open spec fn spec_function_snippet(name: Seq<char>, params: Seq<Seq<char>>) -> Seq<char> {
    name + "("@ + spec_snippet_params(params, 1) + ")"@
}

/// Appends the snippet placeholders of `params[i..]`, numbering from
/// `i + 1` on.
fn push_snippet_params(out: &mut String, params: &Vec<String>, i: usize)
    requires
        i <= params.len(),
        params.len() < usize::MAX,
    ensures
        final(out)@ == old(out)@ + spec_snippet_params(
            params@.skip(i as int).map_values(|p: String| p@),
            i + 1,
        ),
    decreases params.len() - i,
{
    let ghost tail = params@.skip(i as int).map_values(|p: String| p@);
    if i < params.len() {
        out.append("${");
        push_decimal(out, (i + 1) as u64);
        out.append(":");
        out.append(params[i].as_str());
        out.append("}");
        proof {
            assert(tail[0] == params@[i as int]@);
        }
        if i + 1 < params.len() {
            out.append(", ");
            push_snippet_params(out, params, i + 1);
            proof {
                assert(params@.skip(i as int + 1).map_values(|p: String| p@)
                    =~= tail.drop_first());
                assert(out@ =~= old(out)@ + spec_snippet_params(tail, i + 1));
            }
        } else {
            push_snippet_params(out, params, i + 1);
            proof {
                assert(tail.len() == 1);
                assert(out@ =~= old(out)@ + spec_snippet_params(tail, i + 1));
            }
        }
    } else {
        proof {
            assert(tail.len() == 0);
            assert(out@ =~= old(out)@ + spec_snippet_params(tail, i + 1));
        }
    }
}

/// Builds the insert text of a function completion with parameters.
pub fn function_snippet(name: &str, params: &Vec<String>) -> (r: String)
    requires
        params.len() < usize::MAX,
    ensures
        r@ == spec_function_snippet(name@, params@.map_values(|p: String| p@)),
{
    let mut out = name.to_owned();
    out.append("(");
    push_snippet_params(&mut out, params, 0);
    out.append(")");
    proof {
        assert(params@.skip(0).map_values(|p: String| p@) =~= params@.map_values(
            |p: String| p@,
        ));
        assert(out@ =~= spec_function_snippet(name@, params@.map_values(|p: String| p@)));
    }
    out
}

/// Whether `r` is exactly the function completion that `name` and the
/// signature `info` produce under the given request kinds: excluded
/// entirely when a receiver is required but the function takes none,
/// otherwise a `Function` item whose insert text is the name-and-
/// parameters snippet when one was asked for.
pub open spec fn is_function_completion(
    name: Seq<char>,
    info: FuncInfo,
    completion_kind: FunctionCompletionKind,
    function_kind: FunctionKind,
    r: Option<CompletionItem>,
) -> bool {
    let included = match function_kind {
        FunctionKind::Any => true,
        FunctionKind::SelfType(_) => info.has_self,
    };
    if !included {
        r is None
    } else {
        &&& r matches Some(it)
        &&& it.label@ == name
        &&& it.kind == CompletionItemKind::Function
        &&& it.detail is None
        &&& it.sort_text is None
        &&& match completion_kind {
            FunctionCompletionKind::Name => it.insert_text is None,
            FunctionCompletionKind::NameAndParameters => it.insert_text matches Some(text)
                && text@ == spec_function_snippet(name, info.params@.map_values(|p: String| p@)),
        }
    }
}

/// Builds the completion item of a function, or nothing when a receiver
/// is required but the function takes none.
pub fn function_completion_item(
    name: &String,
    info: &FuncInfo,
    completion_kind: FunctionCompletionKind,
    function_kind: FunctionKind,
) -> (r: Option<CompletionItem>)
    requires
        info.params.len() < usize::MAX,
    ensures
        is_function_completion(name@, *info, completion_kind, function_kind, r),
{
    let included = match function_kind {
        FunctionKind::Any => true,
        FunctionKind::SelfType(_) => info.has_self,
    };
    if !included {
        return None;
    }
    let insert_text = match completion_kind {
        FunctionCompletionKind::Name => None,
        FunctionCompletionKind::NameAndParameters => Some(
            function_snippet(name.as_str(), &info.params),
        ),
    };
    Some(
        CompletionItem {
            label: name.clone(),
            kind: CompletionItemKind::Function,
            detail: None,
            insert_text,
            sort_text: None,
        },
    )
}

/// Whether `r` is exactly the completion that the item definition
/// `def_id` named `name` produces: nothing when only types were asked
/// for and the item is no type, a function completion for functions,
/// and a plain item of the fitting kind otherwise.
pub open spec fn is_module_def_id_completion(
    interner: Interner,
    def_id: ModuleDefId,
    name: Seq<char>,
    completion_kind: FunctionCompletionKind,
    function_kind: FunctionKind,
    requested_items: RequestedItems,
    r: Option<CompletionItem>,
) -> bool {
    if requested_items is OnlyTypes && (def_id is Function || def_id is Global) {
        r is None
    } else {
        match def_id {
            ModuleDefId::Module(_) => r matches Some(it) && item_is_simple(
                it,
                name,
                CompletionItemKind::Module,
                None,
            ),
            ModuleDefId::Type(_) => r matches Some(it) && item_is_simple(
                it,
                name,
                CompletionItemKind::Struct,
                None,
            ),
            ModuleDefId::TypeAlias(_) => r matches Some(it) && item_is_simple(
                it,
                name,
                CompletionItemKind::Struct,
                None,
            ),
            ModuleDefId::Trait(_) => r matches Some(it) && item_is_simple(
                it,
                name,
                CompletionItemKind::Class,
                None,
            ),
            ModuleDefId::Global(_) => r matches Some(it) && item_is_simple(
                it,
                name,
                CompletionItemKind::Variable,
                None,
            ),
            ModuleDefId::Function(id) => match spec_get_function_info(interner, id.0 as int) {
                Some(info) => is_function_completion(
                    name,
                    info,
                    completion_kind,
                    function_kind,
                    r,
                ),
                None => r is None,
            },
        }
    }
}

/// The signature of function `i`, if the interner holds it.
pub open spec fn spec_get_function_info(interner: Interner, i: int) -> Option<FuncInfo> {
    if 0 <= i < interner.functions.len() {
        Some(interner.functions@[i])
    } else {
        None
    }
}

/// Builds the completion item of an item definition found in a module's
/// scope.
pub fn module_def_id_completion_item(
    interner: &Interner,
    def_id: ModuleDefId,
    name: String,
    completion_kind: FunctionCompletionKind,
    function_kind: FunctionKind,
    requested_items: RequestedItems,
) -> (r: Option<CompletionItem>)
    requires
        forall|i: int|
            0 <= i < interner.functions.len() ==> (#[trigger] interner.functions@[i]).params.len()
                < usize::MAX,
    ensures
        is_module_def_id_completion(
            *interner,
            def_id,
            name@,
            completion_kind,
            function_kind,
            requested_items,
            r,
        ),
{
    match requested_items {
        RequestedItems::OnlyTypes => {
            match def_id {
                ModuleDefId::Function(_) => {
                    return None;
                },
                ModuleDefId::Global(_) => {
                    return None;
                },
                _ => {},
            }
        },
        RequestedItems::AnyItems => {},
    }
    match def_id {
        ModuleDefId::Module(_) => Some(
            simple_completion_item(name, CompletionItemKind::Module, None),
        ),
        ModuleDefId::Type(_) => Some(simple_completion_item(name, CompletionItemKind::Struct, None)),
        ModuleDefId::TypeAlias(_) => Some(
            simple_completion_item(name, CompletionItemKind::Struct, None),
        ),
        ModuleDefId::Trait(_) => Some(simple_completion_item(name, CompletionItemKind::Class, None)),
        ModuleDefId::Global(_) => Some(
            simple_completion_item(name, CompletionItemKind::Variable, None),
        ),
        ModuleDefId::Function(id) => {
            match interner.get_function(id) {
                Some(info) => function_completion_item(
                    &name,
                    info,
                    completion_kind,
                    function_kind,
                ),
                None => None,
            }
        },
    }
}

} // verus!

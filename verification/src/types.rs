//! The type-side model: the sum of source-language types, struct data,
//! type aliases, function signatures, and the interner — the table that
//! answers the engine's queries (the type at a location, the definition a
//! location refers to, a type's method set).

use std::rc::Rc;
use vstd::prelude::*;
use vstd::string::StringExecFns;

use crate::ids::{DefinitionId, FuncId, ModuleId, ReferenceId, StructId, TraitId, TypeAliasId};
use crate::span::Location;
use crate::text::{push_decimal, spec_decimal};

verus! {

#[derive(Clone, Copy, PartialEq, Eq, Structural, Debug)]
pub enum Signedness {
    Signed,
    Unsigned,
}

/// A resolved source-language type. Only `Struct` carries fields;
/// `Alias` and `MutableReference` are transparent for member access and
/// method lookup.
#[derive(Debug)]
pub enum Type {
    FieldElement,
    Integer(Signedness, u32),
    Bool,
    Str(u32),
    FmtStr,
    Unit,
    Array(u32, Box<Type>),
    Slice(Box<Type>),
    Tuple(Vec<Type>),
    Struct(StructId, Vec<Rc<Type>>),
    Alias(TypeAliasId, Vec<Rc<Type>>),
    MutableReference(Box<Type>),
    Function(Vec<Type>, Box<Type>),
    TypeVariable(usize),
    NamedGeneric(String),
    TraitAsType(TraitId),
    Forall,
    Constant(u32),
    Quoted,
    InfixExpr,
    Error,
}

/// The key under which a type's methods are filed in the method table.
/// Types that cannot carry methods have no key.
#[derive(Clone, Copy, PartialEq, Eq, Structural, Debug)]
pub enum MethodKey {
    Struct(StructId),
    FieldElement,
    Integer,
    Bool,
    Str,
    Unit,
    Array,
    Slice,
    Tuple,
    Function,
    Quoted,
}

/// The method-table key of a type, before unwrapping aliases and mutable
/// references.
pub open spec fn spec_shallow_method_key(t: Type) -> Option<MethodKey> {
    match t {
        Type::Struct(id, _) => Some(MethodKey::Struct(id)),
        Type::FieldElement => Some(MethodKey::FieldElement),
        Type::Integer(_, _) => Some(MethodKey::Integer),
        Type::Bool => Some(MethodKey::Bool),
        Type::Str(_) => Some(MethodKey::Str),
        Type::Unit => Some(MethodKey::Unit),
        Type::Array(_, _) => Some(MethodKey::Array),
        Type::Slice(_) => Some(MethodKey::Slice),
        Type::Tuple(_) => Some(MethodKey::Tuple),
        Type::Function(_, _) => Some(MethodKey::Function),
        Type::Quoted => Some(MethodKey::Quoted),
        _ => None,
    }
}

/// The method-table key of a type, before unwrapping aliases and mutable
/// references.
pub fn shallow_method_key(t: &Type) -> (r: Option<MethodKey>)
    ensures
        r == spec_shallow_method_key(*t),
{
    match t {
        Type::Struct(id, _) => Some(MethodKey::Struct(*id)),
        Type::FieldElement => Some(MethodKey::FieldElement),
        Type::Integer(_, _) => Some(MethodKey::Integer),
        Type::Bool => Some(MethodKey::Bool),
        Type::Str(_) => Some(MethodKey::Str),
        Type::Unit => Some(MethodKey::Unit),
        Type::Array(_, _) => Some(MethodKey::Array),
        Type::Slice(_) => Some(MethodKey::Slice),
        Type::Tuple(_) => Some(MethodKey::Tuple),
        Type::Function(_, _) => Some(MethodKey::Function),
        Type::Quoted => Some(MethodKey::Quoted),
        _ => None,
    }
}

/// A struct definition: its identity, name, the module it is declared
/// in, its generic parameter names, and its fields.
#[derive(Debug)]
pub struct StructType {
    pub id: StructId,
    pub name: String,
    pub parent_module: ModuleId,
    pub generics: Vec<String>,
    pub fields: Vec<(String, Rc<Type>)>,
}

/// The position of `name` among the generic parameter names, scanning
/// from `i` on.
pub open spec fn spec_generic_index_from(generics: Seq<String>, name: Seq<char>, i: int) -> Option<
    int,
>
    decreases generics.len() - i,
{
    if i < 0 || i >= generics.len() {
        None
    } else if generics[i]@ == name {
        Some(i)
    } else {
        spec_generic_index_from(generics, name, i + 1)
    }
}

/// A field type with the struct's generics substituted: a type that just
/// names one of the struct's generic parameters becomes the
/// corresponding argument; every other type stands as declared.
pub open spec fn spec_substitute_field_type(
    generics: Seq<String>,
    args: Seq<Rc<Type>>,
    t: Rc<Type>,
) -> Rc<Type> {
    match *t {
        Type::NamedGeneric(name) => match spec_generic_index_from(generics, name@, 0) {
            Some(i) => if i < args.len() {
                args[i]
            } else {
                t
            },
            None => t,
        },
        _ => t,
    }
}

/// The fields of a struct, with the given generic arguments substituted.
pub open spec fn spec_get_fields(st: StructType, args: Seq<Rc<Type>>) -> Seq<(String, Rc<Type>)> {
    st.fields@.map_values(
        |field: (String, Rc<Type>)|
            (field.0, spec_substitute_field_type(st.generics@, args, field.1)),
    )
}

impl StructType {
    /// The module this struct is declared in.
    #[verifier::allow_in_spec]
    pub fn parent_module_id(&self) -> (m: ModuleId)
        returns (self.parent_module),
    {
        self.parent_module
    }

    /// The position of `name` among this struct's generic parameter
    /// names.
    fn generic_index(&self, name: &String) -> (r: Option<usize>)
        ensures
            match r {
                Some(i) => spec_generic_index_from(self.generics@, name@, 0) == Some(i as int),
                None => spec_generic_index_from(self.generics@, name@, 0) is None,
            },
    {
        let n = self.generics.len();
        for i in 0..n
            invariant
                n == self.generics.len(),
                spec_generic_index_from(self.generics@, name@, 0) == spec_generic_index_from(
                    self.generics@,
                    name@,
                    i as int,
                ),
        {
            if self.generics[i].eq(name) {
                return Some(i);
            }
        }
        None
    }

    /// The fields of this struct with the generic arguments `args`
    /// substituted for the struct's generic parameters.
    pub fn get_fields(&self, args: &Vec<Rc<Type>>) -> (r: Vec<(String, Rc<Type>)>)
        ensures
            r@ == spec_get_fields(*self, args@),
    {
        let mut out: Vec<(String, Rc<Type>)> = Vec::new();
        let n = self.fields.len();
        for i in 0..n
            invariant
                n == self.fields.len(),
                out@ =~= spec_get_fields(*self, args@).take(i as int),
        {
            let field = &self.fields[i];
            let typ: Rc<Type> = match &*field.1 {
                Type::NamedGeneric(name) => {
                    match self.generic_index(name) {
                        Some(j) => if j < args.len() {
                            args[j].clone()
                        } else {
                            field.1.clone()
                        },
                        None => field.1.clone(),
                    }
                },
                _ => field.1.clone(),
            };
            out.push((field.0.clone(), typ));
            proof {
                assert(out@ =~= spec_get_fields(*self, args@).take(i as int + 1));
            }
        }
        proof {
            assert(out@ =~= spec_get_fields(*self, args@));
        }
        out
    }
}

/// A type alias definition: the aliased type. The target is itself
/// neither an alias nor a mutable reference.
#[derive(Debug)]
pub struct TypeAliasData {
    pub id: TypeAliasId,
    pub name: String,
    pub typ: Rc<Type>,
}

/// What the engine needs of a function: its non-receiver parameter names
/// (for the parameter snippet) and whether it takes a receiver.
#[derive(Debug)]
pub struct FuncInfo {
    pub params: Vec<String>,
    pub has_self: bool,
}

/// One name of a method table, with the functions overloading it.
#[derive(Debug)]
pub struct MethodNameGroup {
    pub name: String,
    pub func_ids: Vec<FuncId>,
}

/// The interner: the read-only tables the engine queries during a
/// request.
#[derive(Debug)]
pub struct Interner {
    /// Struct definitions, by `StructId`.
    pub structs: Vec<StructType>,
    /// Type alias definitions, by `TypeAliasId`.
    pub type_aliases: Vec<TypeAliasData>,
    /// Function signatures, by `FuncId`.
    pub functions: Vec<FuncInfo>,
    /// Method sets, keyed by the receiver type's method key.
    pub method_tables: Vec<(MethodKey, Vec<MethodNameGroup>)>,
    /// The resolved type of the expression at a location.
    pub location_types: Vec<(Location, Rc<Type>)>,
    /// What the name at a location was resolved to refer to.
    pub references: Vec<(Location, ReferenceId)>,
    /// The type of a local definition.
    pub definition_types: Vec<(DefinitionId, Rc<Type>)>,
    /// Solved type variables. A binding's target is itself fully solved.
    pub type_variable_bindings: Vec<(usize, Rc<Type>)>,
}

/// First type recorded for `location`, scanning from `i` on.
pub open spec fn spec_location_type_from(
    entries: Seq<(Location, Rc<Type>)>,
    location: Location,
    i: int,
) -> Option<Rc<Type>>
    decreases entries.len() - i,
{
    if i < 0 || i >= entries.len() {
        None
    } else if entries[i].0 == location {
        Some(entries[i].1)
    } else {
        spec_location_type_from(entries, location, i + 1)
    }
}

/// First reference recorded for `location`, scanning from `i` on.
pub open spec fn spec_reference_from(
    entries: Seq<(Location, ReferenceId)>,
    location: Location,
    i: int,
) -> Option<ReferenceId>
    decreases entries.len() - i,
{
    if i < 0 || i >= entries.len() {
        None
    } else if entries[i].0 == location {
        Some(entries[i].1)
    } else {
        spec_reference_from(entries, location, i + 1)
    }
}

/// First type recorded for the definition `id`, scanning from `i` on.
pub open spec fn spec_definition_type_from(
    entries: Seq<(DefinitionId, Rc<Type>)>,
    id: DefinitionId,
    i: int,
) -> Option<Rc<Type>>
    decreases entries.len() - i,
{
    if i < 0 || i >= entries.len() {
        None
    } else if entries[i].0 == id {
        Some(entries[i].1)
    } else {
        spec_definition_type_from(entries, id, i + 1)
    }
}

/// First binding recorded for the type variable `v`, scanning from `i`
/// on.
pub open spec fn spec_binding_from(
    entries: Seq<(usize, Rc<Type>)>,
    v: usize,
    i: int,
) -> Option<Rc<Type>>
    decreases entries.len() - i,
{
    if i < 0 || i >= entries.len() {
        None
    } else if entries[i].0 == v {
        Some(entries[i].1)
    } else {
        spec_binding_from(entries, v, i + 1)
    }
}

/// Index of the method table for `key`, scanning from `i` on.
pub open spec fn spec_method_table_index_from(
    tables: Seq<(MethodKey, Vec<MethodNameGroup>)>,
    key: MethodKey,
    i: int,
) -> Option<int>
    decreases tables.len() - i,
{
    if i < 0 || i >= tables.len() {
        None
    } else if tables[i].0 == key {
        Some(i)
    } else {
        spec_method_table_index_from(tables, key, i + 1)
    }
}

impl Interner {
    /// The method-table key of a type: mutable references are
    /// unwrapped, and an alias stands for its target.
    pub open spec fn spec_method_key(self, t: Type) -> Option<MethodKey>
        decreases t,
    {
        match t {
            Type::MutableReference(inner) => self.spec_method_key(*inner),
            Type::Alias(id, _) => if id.0 < self.type_aliases.len() {
                spec_shallow_method_key(*self.type_aliases@[id.0 as int].typ)
            } else {
                None
            },
            _ => spec_shallow_method_key(t),
        }
    }

    /// The method-table key of a type, transparently through mutable
    /// references and aliases.
    pub fn method_key(&self, t: &Type) -> (r: Option<MethodKey>)
        ensures
            r == self.spec_method_key(*t),
        decreases *t,
    {
        match t {
            Type::MutableReference(inner) => self.method_key(inner),
            Type::Alias(id, _) => {
                if id.0 < self.type_aliases.len() {
                    shallow_method_key(&self.type_aliases[id.0].typ)
                } else {
                    None
                }
            },
            _ => shallow_method_key(t),
        }
    }

    /// The struct definition of `id`, if the table holds it.
    pub fn get_struct(&self, id: StructId) -> (r: Option<&StructType>)
        ensures
            match r {
                Some(st) => id.0 < self.structs.len() && *st == self.structs@[id.0 as int],
                None => id.0 >= self.structs.len(),
            },
    {
        if id.0 < self.structs.len() {
            Some(&self.structs[id.0])
        } else {
            None
        }
    }

    /// The alias definition of `id`, if the table holds it.
    pub fn get_type_alias(&self, id: TypeAliasId) -> (r: Option<&TypeAliasData>)
        ensures
            match r {
                Some(a) => id.0 < self.type_aliases.len() && *a == self.type_aliases@[id.0 as int],
                None => id.0 >= self.type_aliases.len(),
            },
    {
        if id.0 < self.type_aliases.len() {
            Some(&self.type_aliases[id.0])
        } else {
            None
        }
    }

    /// The signature of the function `id`, if the table holds it.
    pub fn get_function(&self, id: FuncId) -> (r: Option<&FuncInfo>)
        ensures
            match r {
                Some(f) => id.0 < self.functions.len() && *f == self.functions@[id.0 as int],
                None => id.0 >= self.functions.len(),
            },
    {
        if id.0 < self.functions.len() {
            Some(&self.functions[id.0])
        } else {
            None
        }
    }

    /// The type the expression at `location` was given, if one was
    /// recorded.
    pub fn type_at_location(&self, location: Location) -> (r: Option<Rc<Type>>)
        ensures
            r == spec_location_type_from(self.location_types@, location, 0),
    {
        let n = self.location_types.len();
        for i in 0..n
            invariant
                n == self.location_types.len(),
                spec_location_type_from(self.location_types@, location, 0)
                    == spec_location_type_from(self.location_types@, location, i as int),
        {
            let entry = &self.location_types[i];
            if entry.0 == location {
                return Some(entry.1.clone());
            }
        }
        None
    }

    /// What the name at `location` refers to, if a reference was
    /// recorded.
    pub fn find_referenced(&self, location: Location) -> (r: Option<ReferenceId>)
        ensures
            r == spec_reference_from(self.references@, location, 0),
    {
        let n = self.references.len();
        for i in 0..n
            invariant
                n == self.references.len(),
                spec_reference_from(self.references@, location, 0) == spec_reference_from(
                    self.references@,
                    location,
                    i as int,
                ),
        {
            let entry = &self.references[i];
            if entry.0 == location {
                return Some(entry.1);
            }
        }
        None
    }

    /// The type of the local definition `id`, if one was recorded.
    pub fn definition_type(&self, id: DefinitionId) -> (r: Option<Rc<Type>>)
        ensures
            r == spec_definition_type_from(self.definition_types@, id, 0),
    {
        let n = self.definition_types.len();
        for i in 0..n
            invariant
                n == self.definition_types.len(),
                spec_definition_type_from(self.definition_types@, id, 0)
                    == spec_definition_type_from(self.definition_types@, id, i as int),
        {
            let entry = &self.definition_types[i];
            if entry.0 == id {
                return Some(entry.1.clone());
            }
        }
        None
    }

    /// The solved form of a type: a bound type variable becomes its
    /// binding, every other type stands as it is.
    pub open spec fn spec_follow_bindings(self, t: Rc<Type>) -> Rc<Type> {
        match *t {
            Type::TypeVariable(v) => match spec_binding_from(self.type_variable_bindings@, v, 0) {
                Some(bound) => bound,
                None => t,
            },
            _ => t,
        }
    }

    /// Follows a solved type variable to its binding.
    #[verifier::loop_isolation(false)]
    pub fn follow_bindings(&self, t: &Rc<Type>) -> (r: Rc<Type>)
        ensures
            r == self.spec_follow_bindings(*t),
    {
        match &**t {
            Type::TypeVariable(v) => {
                let n = self.type_variable_bindings.len();
                for i in 0..n
                    invariant
                        n == self.type_variable_bindings.len(),
                        spec_binding_from(self.type_variable_bindings@, *v, 0) == spec_binding_from(
                            self.type_variable_bindings@,
                            *v,
                            i as int,
                        ),
                {
                    let entry = &self.type_variable_bindings[i];
                    if entry.0 == *v {
                        return entry.1.clone();
                    }
                }
                t.clone()
            },
            _ => t.clone(),
        }
    }

    /// Index of the method table of `key`, if the interner holds one.
    pub fn find_method_table(&self, key: MethodKey) -> (r: Option<usize>)
        ensures
            match r {
                Some(ix) => spec_method_table_index_from(self.method_tables@, key, 0) == Some(
                    ix as int,
                ) && ix < self.method_tables.len() && self.method_tables@[ix as int].0 == key,
                None => spec_method_table_index_from(self.method_tables@, key, 0) is None,
            },
    {
        let n = self.method_tables.len();
        for i in 0..n
            invariant
                n == self.method_tables.len(),
                spec_method_table_index_from(self.method_tables@, key, 0)
                    == spec_method_table_index_from(self.method_tables@, key, i as int),
        {
            if self.method_tables[i].0 == key {
                return Some(i);
            }
        }
        None
    }

    /// The compact rendering of a type, used as a completion item's
    /// detail text.
    pub open spec fn spec_type_text(self, t: Type) -> Seq<char>
        decreases t,
    {
        match t {
            Type::FieldElement => "Field"@,
            Type::Integer(s, b) => if s is Signed {
                "i"@ + spec_decimal(b as int)
            } else {
                "u"@ + spec_decimal(b as int)
            },
            Type::Bool => "bool"@,
            Type::Str(n) => "str<"@ + spec_decimal(n as int) + ">"@,
            Type::FmtStr => "fmtstr"@,
            Type::Unit => "()"@,
            Type::Array(n, inner) => "["@ + self.spec_type_text(*inner) + "; "@ + spec_decimal(
                n as int,
            ) + "]"@,
            Type::Slice(inner) => "["@ + self.spec_type_text(*inner) + "]"@,
            Type::Tuple(_) => "(..)"@,
            Type::Struct(id, _) => if id.0 < self.structs.len() {
                self.structs@[id.0 as int].name@
            } else {
                "?"@
            },
            Type::Alias(id, _) => if id.0 < self.type_aliases.len() {
                self.type_aliases@[id.0 as int].name@
            } else {
                "?"@
            },
            Type::MutableReference(inner) => "&mut "@ + self.spec_type_text(*inner),
            Type::Function(_, _) => "fn"@,
            Type::TypeVariable(_) => "_"@,
            Type::NamedGeneric(name) => name@,
            Type::TraitAsType(_) => "impl"@,
            Type::Forall => "forall"@,
            Type::Constant(n) => spec_decimal(n as int),
            Type::Quoted => "quoted"@,
            Type::InfixExpr => "expr"@,
            Type::Error => "error"@,
        }
    }

    /// Renders a type as its compact text.
    pub fn type_to_string(&self, t: &Type) -> (r: String)
        ensures
            r@ == self.spec_type_text(*t),
        decreases *t,
    {
        match t {
            Type::FieldElement => "Field".to_owned(),
            Type::Integer(s, b) => {
                let mut out = if matches!(s, Signedness::Signed) {
                    "i".to_owned()
                } else {
                    "u".to_owned()
                };
                push_decimal(&mut out, *b as u64);
                out
            },
            Type::Bool => "bool".to_owned(),
            Type::Str(n) => {
                let mut out = "str<".to_owned();
                push_decimal(&mut out, *n as u64);
                out.append(">");
                proof {
                    assert(out@ =~= self.spec_type_text(*t));
                }
                out
            },
            Type::FmtStr => "fmtstr".to_owned(),
            Type::Unit => "()".to_owned(),
            Type::Array(n, inner) => {
                let mut out = "[".to_owned();
                let inner_text = self.type_to_string(inner);
                out.append(inner_text.as_str());
                out.append("; ");
                push_decimal(&mut out, *n as u64);
                out.append("]");
                proof {
                    assert(out@ =~= self.spec_type_text(*t));
                }
                out
            },
            Type::Slice(inner) => {
                let mut out = "[".to_owned();
                let inner_text = self.type_to_string(inner);
                out.append(inner_text.as_str());
                out.append("]");
                proof {
                    assert(out@ =~= self.spec_type_text(*t));
                }
                out
            },
            Type::Tuple(_) => "(..)".to_owned(),
            Type::Struct(id, _) => {
                if id.0 < self.structs.len() {
                    self.structs[id.0].name.clone()
                } else {
                    "?".to_owned()
                }
            },
            Type::Alias(id, _) => {
                if id.0 < self.type_aliases.len() {
                    self.type_aliases[id.0].name.clone()
                } else {
                    "?".to_owned()
                }
            },
            Type::MutableReference(inner) => {
                let mut out = "&mut ".to_owned();
                let inner_text = self.type_to_string(inner);
                out.append(inner_text.as_str());
                proof {
                    assert(out@ =~= self.spec_type_text(*t));
                }
                out
            },
            Type::Function(_, _) => "fn".to_owned(),
            Type::TypeVariable(_) => "_".to_owned(),
            Type::NamedGeneric(name) => name.clone(),
            Type::TraitAsType(_) => "impl".to_owned(),
            Type::Forall => "forall".to_owned(),
            Type::Constant(n) => {
                let mut out = String::new();
                push_decimal(&mut out, *n as u64);
                proof {
                    assert(out@ =~= self.spec_type_text(*t));
                }
                out
            },
            Type::Quoted => "quoted".to_owned(),
            Type::InfixExpr => "expr".to_owned(),
            Type::Error => "error".to_owned(),
        }
    }
}

} // verus!

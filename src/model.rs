use vstd::prelude::*;

verus! {

/// A type as declared in the service metadata.
///
/// Lists of types and fields are persistent cons lists, so that resolution
/// results can be described directly by spec functions.
#[derive(Debug, PartialEq, Eq)]
pub enum Type {
    /// A reference to the declaration with index `id`, applied to `type_arguments`.
    Named { id: u32, type_arguments: TypeList },
    Struct { fields: FieldList },
    /// A map; each side carries the handle of its validation rule, if any.
    Mapping {
        key: Option<Box<Type>>,
        value: Option<Box<Type>>,
        key_validation: Option<u32>,
        value_validation: Option<u32>,
    },
    List { elem: Option<Box<Type>>, elem_validation: Option<u32> },
    Union { types: TypeList },
    /// A primitive; `kind` is the primitive's code.
    Builtin { kind: u32 },
    Literal { value: String },
    Pointer { base: Option<Box<Type>> },
    /// The positional type parameter of the enclosing generic declaration.
    TypeParameter { param_idx: u32 },
    /// A configuration type, which has no wire form.
    Config,
}

#[derive(Debug, PartialEq, Eq)]
pub enum TypeList {
    Nil,
    /// An item with the handle of its validation rule, if any.
    Cons { head: Box<Type>, validation: Option<u32>, tail: Box<TypeList> },
}

#[derive(Debug, PartialEq, Eq)]
pub enum FieldList {
    Nil,
    Cons { head: Box<Field>, tail: Box<FieldList> },
}

/// An explicit placement of a field on the wire.
#[derive(Debug, PartialEq, Eq)]
pub enum WireSpec {
    Header { name: Option<String> },
    Query,
    Cookie { name: Option<String> },
}

#[derive(Debug, PartialEq, Eq)]
pub struct Field {
    pub name: String,
    pub typ: Option<Type>,
    pub optional: bool,
    /// Handle of the field's validation rule, if it has one.
    pub validation: Option<u32>,
    pub wire: Option<WireSpec>,
}

/// A type declaration; its id is its index in `Metadata::decls`.
#[derive(Debug, PartialEq, Eq)]
pub struct Decl {
    pub name: String,
    pub typ: Option<Type>,
}

/// The declaration table of one service.
#[derive(Debug, PartialEq, Eq)]
pub struct Metadata {
    pub decls: Vec<Decl>,
}

/// The number of items in a type list.
pub open spec fn list_len(l: TypeList) -> nat
    decreases l,
{
    match l {
        TypeList::Nil => 0,
        TypeList::Cons { tail, .. } => 1 + list_len(*tail),
    }
}

/// The `i`-th item of a type list.
pub open spec fn list_get(l: TypeList, i: int) -> Option<Type>
    decreases l,
{
    match l {
        TypeList::Nil => None,
        TypeList::Cons { head, tail, .. } => if i == 0 {
            Some(*head)
        } else {
            list_get(*tail, i - 1)
        },
    }
}

/// The fields of a field list, in order.
pub open spec fn fields_seq(l: FieldList) -> Seq<Field>
    decreases l,
{
    match l {
        FieldList::Nil => Seq::empty(),
        FieldList::Cons { head, tail } => seq![*head] + fields_seq(*tail),
    }
}

impl Type {
    /// A deep copy.
    pub fn copy(&self) -> (r: Type)
        ensures
            r == *self,
        decreases *self,
    {
        match self {
            Type::Named { id, type_arguments } => Type::Named {
                id: *id,
                type_arguments: type_arguments.copy(),
            },
            Type::Struct { fields } => Type::Struct { fields: fields.copy() },
            Type::Mapping { key, value, key_validation, value_validation } => Type::Mapping {
                key: copy_boxed(key),
                value: copy_boxed(value),
                key_validation: *key_validation,
                value_validation: *value_validation,
            },
            Type::List { elem, elem_validation } => Type::List {
                elem: copy_boxed(elem),
                elem_validation: *elem_validation,
            },
            Type::Union { types } => Type::Union { types: types.copy() },
            Type::Builtin { kind } => Type::Builtin { kind: *kind },
            Type::Literal { value } => Type::Literal { value: value.clone() },
            Type::Pointer { base } => Type::Pointer { base: copy_boxed(base) },
            Type::TypeParameter { param_idx } => Type::TypeParameter { param_idx: *param_idx },
            Type::Config => Type::Config,
        }
    }
}

fn copy_boxed(t: &Option<Box<Type>>) -> (r: Option<Box<Type>>)
    ensures
        r == *t,
    decreases *t,
{
    match t {
        None => None,
        Some(b) => Some(Box::new((**b).copy())),
    }
}

impl TypeList {
    /// A deep copy.
    pub fn copy(&self) -> (r: TypeList)
        ensures
            r == *self,
        decreases *self,
    {
        match self {
            TypeList::Nil => TypeList::Nil,
            TypeList::Cons { head, validation, tail } => TypeList::Cons {
                head: Box::new((**head).copy()),
                validation: *validation,
                tail: Box::new((**tail).copy()),
            },
        }
    }
}

impl FieldList {
    /// A deep copy.
    pub fn copy(&self) -> (r: FieldList)
        ensures
            r == *self,
        decreases *self,
    {
        match self {
            FieldList::Nil => FieldList::Nil,
            FieldList::Cons { head, tail } => FieldList::Cons {
                head: Box::new((**head).copy()),
                tail: Box::new((**tail).copy()),
            },
        }
    }
}

impl WireSpec {
    pub fn copy(&self) -> (r: WireSpec)
        ensures
            r == *self,
    {
        match self {
            WireSpec::Header { name } => WireSpec::Header { name: copy_name(name) },
            WireSpec::Query => WireSpec::Query,
            WireSpec::Cookie { name } => WireSpec::Cookie { name: copy_name(name) },
        }
    }
}

pub(crate) fn copy_name(n: &Option<String>) -> (r: Option<String>)
    ensures
        r == *n,
{
    match n {
        None => None,
        Some(s) => Some(s.clone()),
    }
}

impl Field {
    /// A deep copy.
    pub fn copy(&self) -> (r: Field)
        ensures
            r == *self,
        decreases *self,
    {
        let typ = match &self.typ {
            None => None,
            Some(t) => Some(t.copy()),
        };
        let wire = match &self.wire {
            None => None,
            Some(w) => Some(w.copy()),
        };
        Field {
            name: self.name.clone(),
            typ,
            optional: self.optional,
            validation: self.validation,
            wire,
        }
    }
}

} // verus!

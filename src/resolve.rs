//! Generic type resolution: substitutes type arguments and declaration
//! references into one concrete type tree.
use vstd::prelude::*;
use crate::error::EncodingError;
use crate::model::{Decl, Field, FieldList, Type, TypeList, fields_seq, list_get};

verus! {

/// A stack of declarations under resolution: distinct ids of the table.
pub open spec fn stack_ok(decls: Seq<Decl>, visiting: Seq<u32>) -> bool {
    &&& visiting.no_duplicates()
    &&& forall|i: int| 0 <= i < visiting.len() ==> (visiting[i] as int) < decls.len()
}

/// The field `f` with its type replaced by `t`.
pub open spec fn with_type(f: Field, t: Type) -> Field {
    Field { name: f.name, typ: Some(t), optional: f.optional, validation: f.validation, wire: f.wire }
}

/// The resolution of `t` with type parameters bound to `args`, while the
/// declarations in `visiting` are being expanded.
///
/// A reference to a declaration on the stack stays as it is; a pointer
/// resolves to its base.
pub open spec fn resolve_spec(decls: Seq<Decl>, t: Type, args: TypeList, visiting: Seq<u32>) -> Result<
    Type,
    EncodingError,
>
    decreases decls.len() - visiting.len(), t,
{
    match t {
        Type::Named { id, type_arguments } => {
            if visiting.contains(id) {
                Ok(t)
            } else if (id as int) >= decls.len() || visiting.len() >= decls.len() {
                // A stack of distinct ids of the table is shorter than the
                // table whenever `id` is not on it, so the second test never
                // holds under `stack_ok`; it bounds the recursion.
                Err(EncodingError::MalformedMetadata)
            } else {
                match resolve_list_spec(decls, type_arguments, args, visiting) {
                    Err(e) => Err(e),
                    Ok(rargs) => match decls[id as int].typ {
                        None => Err(EncodingError::MalformedMetadata),
                        Some(dt) => resolve_spec(decls, dt, rargs, visiting.push(id)),
                    },
                }
            }
        },
        Type::Struct { fields } => match resolve_fields_spec(decls, fields, args, visiting) {
            Err(e) => Err(e),
            Ok(rf) => Ok(Type::Struct { fields: rf }),
        },
        Type::Mapping { key, value, key_validation, value_validation } => match (key, value) {
            (Some(k), Some(v)) => match resolve_spec(decls, *k, args, visiting) {
                Err(e) => Err(e),
                Ok(rk) => match resolve_spec(decls, *v, args, visiting) {
                    Err(e) => Err(e),
                    Ok(rv) => Ok(
                        Type::Mapping {
                            key: Some(Box::new(rk)),
                            value: Some(Box::new(rv)),
                            key_validation,
                            value_validation,
                        },
                    ),
                },
            },
            _ => Err(EncodingError::MalformedMetadata),
        },
        Type::List { elem, elem_validation } => match elem {
            None => Err(EncodingError::MalformedMetadata),
            Some(e) => match resolve_spec(decls, *e, args, visiting) {
                Err(err) => Err(err),
                Ok(re) => Ok(Type::List { elem: Some(Box::new(re)), elem_validation }),
            },
        },
        Type::Union { types } => match resolve_list_spec(decls, types, args, visiting) {
            Err(e) => Err(e),
            Ok(rt) => Ok(Type::Union { types: rt }),
        },
        Type::Builtin { .. } => Ok(t),
        Type::Literal { .. } => Ok(t),
        Type::Pointer { base } => match base {
            None => Err(EncodingError::MalformedMetadata),
            Some(b) => resolve_spec(decls, *b, args, visiting),
        },
        Type::TypeParameter { param_idx } => match list_get(args, param_idx as int) {
            None => Err(EncodingError::MalformedMetadata),
            Some(a) => Ok(a),
        },
        Type::Config => Err(EncodingError::UnsupportedType),
    }
}

/// The resolution of each type of a list, in order; the first failure wins.
pub open spec fn resolve_list_spec(decls: Seq<Decl>, l: TypeList, args: TypeList, visiting: Seq<u32>) -> Result<
    TypeList,
    EncodingError,
>
    decreases decls.len() - visiting.len(), l,
{
    match l {
        TypeList::Nil => Ok(TypeList::Nil),
        TypeList::Cons { head, validation, tail } => match resolve_spec(decls, *head, args, visiting) {
            Err(e) => Err(e),
            Ok(rh) => match resolve_list_spec(decls, *tail, args, visiting) {
                Err(e) => Err(e),
                Ok(rt) => Ok(TypeList::Cons { head: Box::new(rh), validation, tail: Box::new(rt) }),
            },
        },
    }
}

/// The resolution of each field's type, in order; a field without a type
/// is malformed.
pub open spec fn resolve_fields_spec(
    decls: Seq<Decl>,
    l: FieldList,
    args: TypeList,
    visiting: Seq<u32>,
) -> Result<FieldList, EncodingError>
    decreases decls.len() - visiting.len(), l,
{
    match l {
        FieldList::Nil => Ok(FieldList::Nil),
        FieldList::Cons { head, tail } => match head.typ {
            None => Err(EncodingError::MalformedMetadata),
            Some(ht) => match resolve_spec(decls, ht, args, visiting) {
                Err(e) => Err(e),
                Ok(rh) => match resolve_fields_spec(decls, *tail, args, visiting) {
                    Err(e) => Err(e),
                    Ok(rt) => Ok(
                        FieldList::Cons { head: Box::new(with_type(*head, rh)), tail: Box::new(rt) },
                    ),
                },
            },
        },
    }
}

/// The resolution of a top-level type: no bindings and an empty stack.
pub open spec fn resolve_top(decls: Seq<Decl>, t: Type) -> Result<Type, EncodingError> {
    resolve_spec(decls, t, TypeList::Nil, Seq::empty())
}

/// A stack of distinct ids below `n` holds at most `n` ids.
proof fn lemma_stack_bound(s: Seq<u32>, n: nat)
    requires
        s.no_duplicates(),
        forall|i: int| 0 <= i < s.len() ==> (s[i] as int) < n,
    ensures
        s.len() <= n,
    decreases n,
{
    if n == 0 {
        if s.len() > 0 {
            assert((s[0] as int) < 0);
        }
    } else if exists|k: int| 0 <= k < s.len() && s[k] as int == n - 1 {
        let k = choose|k: int| 0 <= k < s.len() && s[k] as int == n - 1;
        let t = s.remove(k);
        assert forall|i: int| 0 <= i < t.len() implies (t[i] as int) < n - 1 by {
            if i < k {
                assert(t[i] == s[i]);
            } else {
                assert(t[i] == s[i + 1]);
            }
        }
        assert forall|i: int, j: int| 0 <= i < t.len() && 0 <= j < t.len() && i != j implies t[i]
            != t[j] by {
            let si = if i < k { i } else { i + 1 };
            let sj = if j < k { j } else { j + 1 };
            assert(t[i] == s[si]);
            assert(t[j] == s[sj]);
        }
        lemma_stack_bound(t, (n - 1) as nat);
    } else {
        lemma_stack_bound(s, (n - 1) as nat);
    }
}

fn stack_contains(v: &Vec<u32>, id: u32) -> (r: bool)
    ensures
        r == v@.contains(id),
{
    let mut i: usize = 0;
    while i < v.len()
        invariant
            i <= v.len(),
            forall|j: int| 0 <= j < i ==> v@[j] != id,
        decreases v.len() - i,
    {
        if v[i] == id {
            return true;
        }
        i = i + 1;
    }
    false
}

fn list_nth(l: &TypeList, i: u32) -> (r: Option<Type>)
    ensures
        r == list_get(*l, i as int),
    decreases *l,
{
    match l {
        TypeList::Nil => None,
        TypeList::Cons { head, validation, tail } => {
            if i == 0 {
                Some((**head).copy())
            } else {
                list_nth(tail, i - 1)
            }
        },
    }
}

/// Resolves `t` with type parameters bound to `args`, while the declarations
/// in `visiting` are being expanded.
pub fn resolve(decls: &Vec<Decl>, t: &Type, args: &TypeList, visiting: &Vec<u32>) -> (r: Result<
    Type,
    EncodingError,
>)
    requires
        stack_ok(decls@, visiting@),
    ensures
        r == resolve_spec(decls@, *t, *args, visiting@),
    decreases decls@.len() - visiting@.len(), *t,
{
    match t {
        Type::Named { id, type_arguments } => {
            if stack_contains(visiting, *id) {
                return Ok(t.copy());
            }
            if *id as usize >= decls.len() {
                return Err(EncodingError::MalformedMetadata);
            }
            proof {
                lemma_stack_bound(visiting@.push(*id), decls@.len());
            }
            let rargs = match resolve_list(decls, type_arguments, args, visiting) {
                Err(e) => return Err(e),
                Ok(ra) => ra,
            };
            match &decls[*id as usize].typ {
                None => Err(EncodingError::MalformedMetadata),
                Some(dt) => {
                    let mut nested = visiting.clone();
                    assert(nested@ =~= visiting@);
                    nested.push(*id);
                    resolve(decls, dt, &rargs, &nested)
                },
            }
        },
        Type::Struct { fields } => match resolve_fields(decls, fields, args, visiting) {
            Err(e) => Err(e),
            Ok(rf) => Ok(Type::Struct { fields: rf }),
        },
        Type::Mapping { key, value, key_validation, value_validation } => match (key, value) {
            (Some(k), Some(v)) => {
                let rk = match resolve(decls, k, args, visiting) {
                    Err(e) => return Err(e),
                    Ok(rk) => rk,
                };
                let rv = match resolve(decls, v, args, visiting) {
                    Err(e) => return Err(e),
                    Ok(rv) => rv,
                };
                Ok(
                        Type::Mapping {
                            key: Some(Box::new(rk)),
                            value: Some(Box::new(rv)),
                            key_validation: *key_validation,
                            value_validation: *value_validation,
                        },
                    )
            },
            _ => Err(EncodingError::MalformedMetadata),
        },
        Type::List { elem, elem_validation } => match elem {
            None => Err(EncodingError::MalformedMetadata),
            Some(e) => match resolve(decls, e, args, visiting) {
                Err(err) => Err(err),
                Ok(re) => Ok(Type::List { elem: Some(Box::new(re)), elem_validation: *elem_validation }),
            },
        },
        Type::Union { types } => match resolve_list(decls, types, args, visiting) {
            Err(e) => Err(e),
            Ok(rt) => Ok(Type::Union { types: rt }),
        },
        Type::Builtin { .. } => Ok(t.copy()),
        Type::Literal { .. } => Ok(t.copy()),
        Type::Pointer { base } => match base {
            None => Err(EncodingError::MalformedMetadata),
            Some(b) => resolve(decls, b, args, visiting),
        },
        Type::TypeParameter { param_idx } => match list_nth(args, *param_idx) {
            None => Err(EncodingError::MalformedMetadata),
            Some(a) => Ok(a),
        },
        Type::Config => Err(EncodingError::UnsupportedType),
    }
}

/// Resolves each type of a list, in order.
pub fn resolve_list(decls: &Vec<Decl>, l: &TypeList, args: &TypeList, visiting: &Vec<u32>) -> (r:
    Result<TypeList, EncodingError>)
    requires
        stack_ok(decls@, visiting@),
    ensures
        r == resolve_list_spec(decls@, *l, *args, visiting@),
    decreases decls@.len() - visiting@.len(), *l,
{
    match l {
        TypeList::Nil => Ok(TypeList::Nil),
        TypeList::Cons { head, validation, tail } => {
            let rh = match resolve(decls, head, args, visiting) {
                Err(e) => return Err(e),
                Ok(rh) => rh,
            };
            match resolve_list(decls, tail, args, visiting) {
                Err(e) => Err(e),
                Ok(rt) => Ok(TypeList::Cons { head: Box::new(rh), validation: *validation, tail: Box::new(rt) }),
            }
        },
    }
}

/// Resolves the type of each field of a struct, in order.
pub fn resolve_fields(decls: &Vec<Decl>, l: &FieldList, args: &TypeList, visiting: &Vec<u32>) -> (r:
    Result<FieldList, EncodingError>)
    requires
        stack_ok(decls@, visiting@),
    ensures
        r == resolve_fields_spec(decls@, *l, *args, visiting@),
    decreases decls@.len() - visiting@.len(), *l,
{
    match l {
        FieldList::Nil => Ok(FieldList::Nil),
        FieldList::Cons { head, tail } => match &head.typ {
            None => Err(EncodingError::MalformedMetadata),
            Some(ht) => {
                let rh = match resolve(decls, ht, args, visiting) {
                    Err(e) => return Err(e),
                    Ok(rh) => rh,
                };
                let wire = match &head.wire {
                    None => None,
                    Some(w) => Some(w.copy()),
                };
                let field = Field {
                    name: head.name.clone(),
                    typ: Some(rh),
                    optional: head.optional,
                    validation: head.validation,
                    wire,
                };
                match resolve_fields(decls, tail, args, visiting) {
                    Err(e) => Err(e),
                    Ok(rt) => Ok(FieldList::Cons { head: Box::new(field), tail: Box::new(rt) }),
                }
            },
        },
    }
}

/// Resolves a top-level type: no bindings and no declaration under expansion.
pub fn resolve_type(decls: &Vec<Decl>, t: &Type) -> (r: Result<Type, EncodingError>)
    ensures
        r == resolve_top(decls@, *t),
{
    let visiting: Vec<u32> = Vec::new();
    resolve(decls, t, &TypeList::Nil, &visiting)
}

} // verus!

verus! {

/// A type with no declaration reference, type parameter, pointer or config
/// type, and with every part present.
pub open spec fn concrete(t: Type) -> bool
    decreases t,
{
    match t {
        Type::Struct { fields } => concrete_fields(fields),
        Type::Mapping { key, value, key_validation, value_validation } => match (key, value) {
            (Some(k), Some(v)) => concrete(*k) && concrete(*v),
            _ => false,
        },
        Type::List { elem, elem_validation } => match elem {
            Some(e) => concrete(*e),
            None => false,
        },
        Type::Union { types } => concrete_list(types),
        Type::Builtin { .. } => true,
        Type::Literal { .. } => true,
        _ => false,
    }
}

pub open spec fn concrete_list(l: TypeList) -> bool
    decreases l,
{
    match l {
        TypeList::Nil => true,
        TypeList::Cons { head, validation, tail } => concrete(*head) && concrete_list(*tail),
    }
}

pub open spec fn concrete_fields(l: FieldList) -> bool
    decreases l,
{
    match l {
        FieldList::Nil => true,
        FieldList::Cons { head, tail } => match head.typ {
            Some(t) => concrete(t) && concrete_fields(*tail),
            None => false,
        },
    }
}

/// Resolution stops where a declaration recurs: a reference to a declaration
/// that is being expanded comes back unexpanded.
pub proof fn lemma_recurrence_unexpanded(
    decls: Seq<Decl>,
    id: u32,
    type_arguments: TypeList,
    args: TypeList,
    visiting: Seq<u32>,
)
    requires
        visiting.contains(id),
    ensures
        resolve_spec(decls, Type::Named { id, type_arguments }, args, visiting) == Ok::<
            Type,
            EncodingError,
        >(Type::Named { id, type_arguments }),
{
}

/// Resolving a type that is already concrete gives it back unchanged.
pub proof fn lemma_concrete_unchanged(decls: Seq<Decl>, t: Type, args: TypeList, visiting: Seq<u32>)
    requires
        concrete(t),
    ensures
        resolve_spec(decls, t, args, visiting) == Ok::<Type, EncodingError>(t),
    decreases t,
{
    match t {
        Type::Struct { fields } => lemma_concrete_fields_unchanged(decls, fields, args, visiting),
        Type::Mapping { key, value, key_validation, value_validation } => {
            lemma_concrete_unchanged(decls, *key->Some_0, args, visiting);
            lemma_concrete_unchanged(decls, *value->Some_0, args, visiting);
        },
        Type::List { elem, elem_validation } => lemma_concrete_unchanged(decls, *elem->Some_0, args, visiting),
        Type::Union { types } => lemma_concrete_list_unchanged(decls, types, args, visiting),
        _ => {},
    }
}

proof fn lemma_concrete_list_unchanged(decls: Seq<Decl>, l: TypeList, args: TypeList, visiting: Seq<u32>)
    requires
        concrete_list(l),
    ensures
        resolve_list_spec(decls, l, args, visiting) == Ok::<TypeList, EncodingError>(l),
    decreases l,
{
    if let TypeList::Cons { head, tail, .. } = l {
        lemma_concrete_unchanged(decls, *head, args, visiting);
        lemma_concrete_list_unchanged(decls, *tail, args, visiting);
    }
}

proof fn lemma_concrete_fields_unchanged(decls: Seq<Decl>, l: FieldList, args: TypeList, visiting: Seq<u32>)
    requires
        concrete_fields(l),
    ensures
        resolve_fields_spec(decls, l, args, visiting) == Ok::<FieldList, EncodingError>(l),
    decreases l,
{
    if let FieldList::Cons { head, tail } = l {
        lemma_concrete_unchanged(decls, head.typ->Some_0, args, visiting);
        lemma_concrete_fields_unchanged(decls, *tail, args, visiting);
    }
}

/// The field has a type, and it resolves.
pub open spec fn field_resolves(decls: Seq<Decl>, f: Field, args: TypeList, visiting: Seq<u32>) -> bool {
    match f.typ {
        Some(ft) => resolve_spec(decls, ft, args, visiting) is Ok,
        None => false,
    }
}

/// A struct with a field of config type fails to resolve with
/// `UnsupportedType`, once every field before it resolves.
pub proof fn lemma_config_field_rejected(
    decls: Seq<Decl>,
    l: FieldList,
    args: TypeList,
    visiting: Seq<u32>,
    k: int,
)
    requires
        0 <= k < fields_seq(l).len(),
        fields_seq(l)[k].typ == Some(Type::Config),
        forall|j: int| 0 <= j < k ==> field_resolves(decls, #[trigger] fields_seq(l)[j], args, visiting),
    ensures
        resolve_fields_spec(decls, l, args, visiting) == Err::<FieldList, EncodingError>(
            EncodingError::UnsupportedType,
        ),
        resolve_spec(decls, Type::Struct { fields: l }, args, visiting) == Err::<Type, EncodingError>(
            EncodingError::UnsupportedType,
        ),
    decreases l,
{
    if let FieldList::Cons { head, tail } = l {
        assert(fields_seq(l)[0] == *head);
        if k == 0 {
            assert(head.typ == Some(Type::Config));
            assert(resolve_spec(decls, Type::Config, args, visiting) == Err::<Type, EncodingError>(
                EncodingError::UnsupportedType,
            ));
        } else {
            assert(field_resolves(decls, fields_seq(l)[0], args, visiting));
            assert forall|j: int| 0 <= j < k - 1 implies field_resolves(
                decls,
                #[trigger] fields_seq(*tail)[j],
                args,
                visiting,
            ) by {
                assert(fields_seq(*tail)[j] == fields_seq(l)[j + 1]);
            }
            assert(fields_seq(*tail)[k - 1] == fields_seq(l)[k]);
            lemma_config_field_rejected(decls, *tail, args, visiting, k - 1);
        }
    }
}

} // verus!

verus! {

/// A declaration whose struct type refers to the declaration itself resolves
/// to that struct, with the inner reference left unexpanded.
pub proof fn lemma_self_reference(decls: Seq<Decl>, id: u32, f: Field)
    requires
        (id as int) < decls.len(),
        decls[id as int].typ == Some(
            Type::Struct {
                fields: FieldList::Cons { head: Box::new(f), tail: Box::new(FieldList::Nil) },
            },
        ),
        f.typ == Some(Type::Named { id, type_arguments: TypeList::Nil }),
    ensures
        resolve_top(decls, Type::Named { id, type_arguments: TypeList::Nil }) == Ok::<Type, EncodingError>(
            Type::Struct {
                fields: FieldList::Cons { head: Box::new(f), tail: Box::new(FieldList::Nil) },
            },
        ),
{
    let visiting = Seq::<u32>::empty().push(id);
    assert(visiting.contains(id)) by {
        assert(visiting[0] == id);
    }
    let named = Type::Named { id, type_arguments: TypeList::Nil };
    let fields = FieldList::Cons { head: Box::new(f), tail: Box::new(FieldList::Nil) };
    assert(with_type(f, named) == f);
    assert(!Seq::<u32>::empty().contains(id));
    assert(resolve_list_spec(decls, TypeList::Nil, TypeList::Nil, Seq::empty()) == Ok::<
        TypeList,
        EncodingError,
    >(TypeList::Nil));
    lemma_recurrence_unexpanded(decls, id, TypeList::Nil, TypeList::Nil, visiting);
    assert(resolve_fields_spec(decls, FieldList::Nil, TypeList::Nil, visiting) == Ok::<
        FieldList,
        EncodingError,
    >(FieldList::Nil));
    assert(resolve_fields_spec(decls, fields, TypeList::Nil, visiting) == Ok::<FieldList, EncodingError>(
        fields,
    ));
    assert(resolve_spec(decls, Type::Struct { fields }, TypeList::Nil, visiting) == Ok::<
        Type,
        EncodingError,
    >(Type::Struct { fields }));
}

} // verus!

verus! {

/// The declaration after `j` in a cycle of `k`: the last leads back to the first.
pub open spec fn next_in_cycle(j: int, k: int) -> int {
    if j + 1 == k {
        0
    } else {
        j + 1
    }
}

/// The struct of declaration `j` of a cycle, each declaration holding a link
/// field followed by concrete fields, with the link resolved: each later
/// declaration expanded once, and the link back to the first left as a
/// reference.
pub open spec fn cycle_shape(links: Seq<Field>, rests: Seq<FieldList>, j: int, k: int) -> Type
    decreases k - j,
{
    let next = if j + 1 >= k {
        Type::Named { id: 0, type_arguments: TypeList::Nil }
    } else {
        cycle_shape(links, rests, j + 1, k)
    };
    Type::Struct {
        fields: FieldList::Cons { head: Box::new(with_type(links[j], next)), tail: Box::new(rests[j]) },
    }
}

/// Declarations `0..k` form a cycle: declaration `j` is a struct whose first
/// field `links[j]` refers to the next declaration, and whose other fields
/// `rests[j]` are concrete.
pub open spec fn is_cycle(decls: Seq<Decl>, links: Seq<Field>, rests: Seq<FieldList>, k: int) -> bool {
    &&& 1 <= k <= decls.len()
    &&& k <= u32::MAX
    &&& links.len() == k
    &&& rests.len() == k
    &&& forall|j: int|
        0 <= j < k ==> (#[trigger] decls[j]).typ == Some(
            Type::Struct {
                fields: FieldList::Cons { head: Box::new(links[j]), tail: Box::new(rests[j]) },
            },
        ) && concrete_fields(rests[j]) && links[j].typ == Some(
            Type::Named { id: next_in_cycle(j, k) as u32, type_arguments: TypeList::Nil },
        )
}

/// The ids `0..j`, in order.
pub open spec fn first_ids(j: int) -> Seq<u32> {
    Seq::new(j as nat, |i: int| i as u32)
}

proof fn lemma_cycle_from(decls: Seq<Decl>, links: Seq<Field>, rests: Seq<FieldList>, k: int, j: int)
    requires
        is_cycle(decls, links, rests, k),
        0 <= j < k,
    ensures
        resolve_spec(decls, Type::Named { id: j as u32, type_arguments: TypeList::Nil }, TypeList::Nil, first_ids(j))
            == Ok::<Type, EncodingError>(cycle_shape(links, rests, j, k)),
    decreases k - j,
{
    let visiting = first_ids(j);
    let pushed = visiting.push(j as u32);
    assert(pushed =~= first_ids(j + 1));
    assert(!visiting.contains(j as u32)) by {
        if visiting.contains(j as u32) {
            let i = choose|i: int| 0 <= i < visiting.len() && visiting[i] == j as u32;
            assert(visiting[i] == i as u32);
        }
    }
    assert(decls[j].typ == Some(
        Type::Struct {
            fields: FieldList::Cons { head: Box::new(links[j]), tail: Box::new(rests[j]) },
        },
    ));
    assert(resolve_list_spec(decls, TypeList::Nil, TypeList::Nil, visiting) == Ok::<
        TypeList,
        EncodingError,
    >(TypeList::Nil));
    let next = if j + 1 >= k {
        Type::Named { id: 0, type_arguments: TypeList::Nil }
    } else {
        cycle_shape(links, rests, j + 1, k)
    };
    if j + 1 >= k {
        assert(pushed[0] == 0u32);
        lemma_recurrence_unexpanded(decls, 0, TypeList::Nil, TypeList::Nil, pushed);
    } else {
        lemma_cycle_from(decls, links, rests, k, j + 1);
    }
    assert(resolve_spec(decls, links[j].typ->Some_0, TypeList::Nil, pushed) == Ok::<Type, EncodingError>(next));
    let fields = FieldList::Cons { head: Box::new(links[j]), tail: Box::new(rests[j]) };
    lemma_concrete_fields_unchanged(decls, rests[j], TypeList::Nil, pushed);
    assert(resolve_fields_spec(decls, fields, TypeList::Nil, pushed) == Ok::<FieldList, EncodingError>(
        FieldList::Cons { head: Box::new(with_type(links[j], next)), tail: Box::new(rests[j]) },
    ));
    assert(resolve_spec(decls, Type::Struct { fields }, TypeList::Nil, pushed) == Ok::<Type, EncodingError>(
        cycle_shape(links, rests, j, k),
    ));
}

/// Resolving the first declaration of a cycle of any length terminates and
/// expands each declaration once, leaving the reference back to the first
/// unexpanded at the point of recurrence.
pub proof fn lemma_cycle_resolves(decls: Seq<Decl>, links: Seq<Field>, rests: Seq<FieldList>, k: int)
    requires
        is_cycle(decls, links, rests, k),
    ensures
        resolve_top(decls, Type::Named { id: 0, type_arguments: TypeList::Nil }) == Ok::<Type, EncodingError>(
            cycle_shape(links, rests, 0, k),
        ),
{
    assert(first_ids(0) =~= Seq::<u32>::empty());
    lemma_cycle_from(decls, links, rests, k, 0);
}

} // verus!

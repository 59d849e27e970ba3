//! The schema registry: interns struct values during construction and hands
//! them out by handle once frozen.
use vstd::prelude::*;
use crate::error::EncodingError;
use crate::model::{Field, Type, copy_name};

verus! {

/// One field of a registered struct value.
#[derive(Debug, PartialEq, Eq)]
pub struct FieldEntry {
    pub name: String,
    pub typ: Type,
    pub optional: bool,
    pub validation: Option<u32>,
    /// The name the field travels under, where it differs from `name`.
    pub name_override: Option<String>,
}

/// A registered struct value, its fields in insertion order.
#[derive(Debug, PartialEq, Eq)]
pub struct StructValue {
    pub fields: Vec<FieldEntry>,
}

/// The registry under construction.
pub struct Builder {
    pub values: Vec<StructValue>,
}

/// The frozen registry.
pub struct Registry {
    pub values: Vec<StructValue>,
}

/// The registry entry for field `f`; a field without a type is malformed.
pub open spec fn entry_spec(f: Field) -> Result<FieldEntry, EncodingError> {
    match f.typ {
        None => Err(EncodingError::MalformedMetadata),
        Some(t) => Ok(
            FieldEntry {
                name: f.name,
                typ: t,
                optional: f.optional,
                validation: f.validation,
                name_override: None,
            },
        ),
    }
}

/// The fields of each registered value, in registration order.
pub open spec fn values_view(values: Seq<StructValue>) -> Seq<Seq<FieldEntry>> {
    values.map_values(|v: StructValue| v.fields@)
}

impl FieldEntry {
    /// A deep copy.
    pub fn copy(&self) -> (r: FieldEntry)
        ensures
            r == *self,
    {
        FieldEntry {
            name: self.name.clone(),
            typ: self.typ.copy(),
            optional: self.optional,
            validation: self.validation,
            name_override: copy_name(&self.name_override),
        }
    }
}

impl StructValue {
    /// A deep copy.
    pub fn copy(&self) -> (r: StructValue)
        ensures
            r.fields@ == self.fields@,
    {
        let mut fields: Vec<FieldEntry> = Vec::new();
        let mut i: usize = 0;
        while i < self.fields.len()
            invariant
                i <= self.fields.len(),
                fields@ == self.fields@.take(i as int),
            decreases self.fields.len() - i,
        {
            fields.push(self.fields[i].copy());
            assert(self.fields@.take(i + 1) =~= self.fields@.take(i as int).push(self.fields@[i as int]));
            i = i + 1;
        }
        assert(self.fields@.take(i as int) =~= self.fields@);
        StructValue { fields }
    }
}

impl Builder {
    pub fn new() -> (r: Builder)
        ensures
            r.values@.len() == 0,
    {
        Builder { values: Vec::new() }
    }

    /// The registry entry for a field of a struct.
    pub fn struct_field(&self, f: &Field) -> (r: Result<FieldEntry, EncodingError>)
        ensures
            r == entry_spec(*f),
    {
        match &f.typ {
            None => Err(EncodingError::MalformedMetadata),
            Some(t) => Ok(
                FieldEntry {
                    name: f.name.clone(),
                    typ: t.copy(),
                    optional: f.optional,
                    validation: f.validation,
                    name_override: None,
                },
            ),
        }
    }

    /// Registers a struct value and returns its handle.
    pub fn register_value(&mut self, v: StructValue) -> (r: usize)
        ensures
            final(self).values@ == old(self).values@.push(v),
            r == old(self).values@.len(),
    {
        let r = self.values.len();
        self.values.push(v);
        r
    }

    /// Ends construction; the handles given out stay valid.
    pub fn freeze(self) -> (r: Registry)
        ensures
            r.values@ == self.values@,
    {
        Registry { values: self.values }
    }
}

impl Registry {
    pub fn len(&self) -> (r: usize)
        ensures
            r == self.values@.len(),
    {
        self.values.len()
    }

    /// The struct value registered under handle `h`.
    pub fn schema(&self, h: usize) -> (r: StructValue)
        requires
            h < self.values@.len(),
        ensures
            r.fields@ == self.values@[h as int].fields@,
    {
        self.values[h].copy()
    }
}

} // verus!

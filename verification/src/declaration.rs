//! Variable declarations discovered by, or synthesized during, compilation.

use vstd::prelude::*;

verus! {

use crate::types::{Type, type_eq_spec};
use crate::value::{YarnValue, value_eq};

/// Where a declaration came from.
#[derive(Debug, Clone, Copy, PartialEq, Eq, Structural)]
pub enum DeclarationSource {
    /// Written out in the source text.
    Explicit,
    /// Inferred from a use without a written declaration.
    Implicit,
    /// Supplied by the host or synthesized by the pipeline.
    External,
}

/// A variable declaration: its name, its declared or inferred type (absent
/// while unresolved), its optional default value, a textual description, and
/// its provenance.
#[derive(Debug)]
pub struct Declaration {
    pub name: String,
    pub ty: Option<Type>,
    pub default_value: Option<YarnValue>,
    pub description: String,
    pub source: DeclarationSource,
}

/// Equality of optional types, component-wise and structural.
pub open spec fn opt_type_eq(a: Option<Type>, b: Option<Type>) -> bool {
    match (a, b) {
        (Option::None, Option::None) => true,
        (Option::Some(x), Option::Some(y)) => type_eq_spec(x, y),
        _ => false,
    }
}

/// Equality of optional values, component-wise.
pub open spec fn opt_value_eq(a: Option<YarnValue>, b: Option<YarnValue>) -> bool {
    match (a, b) {
        (Option::None, Option::None) => true,
        (Option::Some(x), Option::Some(y)) => value_eq(x, y),
        _ => false,
    }
}

/// Equality of declarations, string fields by their character sequences.
pub open spec fn decl_eq(a: Declaration, b: Declaration) -> bool {
    &&& a.name@ == b.name@
    &&& opt_type_eq(a.ty, b.ty)
    &&& opt_value_eq(a.default_value, b.default_value)
    &&& a.description@ == b.description@
    &&& a.source == b.source
}

impl Default for Declaration {
    /// An empty declaration: no name, no type, no default value.
    fn default() -> (r: Self)
        ensures
            r.name@ == Seq::<char>::empty(),
            r.ty is None,
            r.default_value is None,
            r.description@ == Seq::<char>::empty(),
            r.source == DeclarationSource::External,
    {
        Declaration {
            name: String::new(),
            ty: None,
            default_value: None,
            description: String::new(),
            source: DeclarationSource::External,
        }
    }
}

impl Declaration {
    /// Replaces the name.
    pub fn with_name(self, name: String) -> (r: Self)
        ensures
            r.name == name,
            r.ty == self.ty,
            r.default_value == self.default_value,
            r.description == self.description,
            r.source == self.source,
    {
        Declaration { name, ..self }
    }

    /// Replaces the type.
    pub fn with_type(self, ty: Type) -> (r: Self)
        ensures
            r.ty == Some(ty),
            r.name == self.name,
            r.default_value == self.default_value,
            r.description == self.description,
            r.source == self.source,
    {
        Declaration { ty: Some(ty), ..self }
    }

    /// Replaces the default value.
    pub fn with_default_value(self, value: YarnValue) -> (r: Self)
        ensures
            r.default_value == Some(value),
            r.name == self.name,
            r.ty == self.ty,
            r.description == self.description,
            r.source == self.source,
    {
        Declaration { default_value: Some(value), ..self }
    }

    /// Replaces the description.
    pub fn with_description(self, description: String) -> (r: Self)
        ensures
            r.description == description,
            r.name == self.name,
            r.ty == self.ty,
            r.default_value == self.default_value,
            r.source == self.source,
    {
        Declaration { description, ..self }
    }

    /// Replaces the provenance.
    pub fn with_source(self, source: DeclarationSource) -> (r: Self)
        ensures
            r.source == source,
            r.name == self.name,
            r.ty == self.ty,
            r.default_value == self.default_value,
            r.description == self.description,
    {
        Declaration { source, ..self }
    }
}

impl Clone for Declaration {
    /// Cloning preserves the declaration up to structural type equality.
    fn clone(&self) -> (r: Self)
        ensures
            decl_eq(r, *self),
    {
        let ty = match &self.ty {
            Some(t) => Some(t.clone()),
            None => None,
        };
        let default_value = match &self.default_value {
            Some(v) => Some(v.clone()),
            None => None,
        };
        Declaration {
            name: self.name.clone(),
            ty,
            default_value,
            description: self.description.clone(),
            source: self.source,
        }
    }
}

} // verus!

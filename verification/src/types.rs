//! The dialogue language's type system: a closed set of value types, the
//! signature carried by function types, and the subtype relation.

use vstd::prelude::*;

verus! {

/// A type in the dialogue language.
///
/// `Any` is a supertype of every type; `Undefined` marks a declaration whose
/// type could not be resolved and is never a valid parent type.  A function
/// type carries its signature: its parameter types and its return type.
#[derive(Debug)]
pub enum Type {
    String,
    Number,
    Boolean,
    Function { parameters: Vec<Type>, return_type: Box<Type> },
    Any,
    Undefined,
}

/// Structural equality on types: unit variants are equal to themselves, and
/// function types are equal when their signatures agree component-wise.
pub open spec fn type_eq_spec(a: Type, b: Type) -> bool
    decreases a,
{
    match (a, b) {
        (Type::String, Type::String) => true,
        (Type::Number, Type::Number) => true,
        (Type::Boolean, Type::Boolean) => true,
        (Type::Any, Type::Any) => true,
        (Type::Undefined, Type::Undefined) => true,
        (
            Type::Function { parameters: pa, return_type: ra },
            Type::Function { parameters: pb, return_type: rb },
        ) => {
            &&& type_seq_eq(pa@, pb@)
            &&& type_eq_spec(*ra, *rb)
        },
        _ => false,
    }
}

/// Component-wise structural equality on sequences of types.
pub open spec fn type_seq_eq(x: Seq<Type>, y: Seq<Type>) -> bool
    decreases x,
{
    if x.len() != y.len() {
        false
    } else if x.len() == 0 {
        true
    } else {
        type_eq_spec(x[0], y[0]) && type_seq_eq(
            x.subrange(1, x.len() as int),
            y.subrange(1, y.len() as int),
        )
    }
}

/// `type_seq_eq` holds exactly when the sequences have the same length and
/// agree at every index.
pub proof fn lemma_type_seq_eq_pointwise(x: Seq<Type>, y: Seq<Type>)
    ensures
        type_seq_eq(x, y) <==> (x.len() == y.len() && forall|i: int|
            0 <= i < x.len() ==> type_eq_spec(x[i], y[i])),
    decreases x.len(),
{
    if x.len() != 0 && x.len() == y.len() {
        let xs = x.subrange(1, x.len() as int);
        let ys = y.subrange(1, y.len() as int);
        lemma_type_seq_eq_pointwise(xs, ys);
        assert forall|i: int| 1 <= i < x.len() implies x[i] == xs[i - 1] && y[i] == ys[i - 1] by {}
    }
}

/// The subtype relation: every type is a subtype of `Any`; `Undefined` is a
/// subtype of nothing else; otherwise subtyping is structural equality.
pub open spec fn sub_type_of_spec(s: Type, p: Type) -> bool {
    if p is Any {
        true
    } else if s is Undefined {
        false
    } else {
        type_eq_spec(s, p)
    }
}

/// Checks whether `self` may be used where `parent` is expected.
pub trait SubTypeOf {
    /// What the subtype query returns.
    spec fn is_sub_type_of_spec(&self, parent: &Self) -> bool;

    /// Which queries are meaningful; `is_sub_type_of` may only be asked these.
    spec fn sub_type_query_allowed(&self, parent: &Self) -> bool;

    /// Checks to see if `self` is equal to `parent`, or if `parent` exists in
    /// `self`'s type hierarchy.
    fn is_sub_type_of(&self, parent: &Self) -> (r: bool)
        requires
            self.sub_type_query_allowed(parent),
        ensures
            r == self.is_sub_type_of_spec(parent),
    ;
}

impl SubTypeOf for Type {
    open spec fn is_sub_type_of_spec(&self, parent: &Self) -> bool {
        sub_type_of_spec(*self, *parent)
    }

    /// `Undefined` is never a valid parent type, except against an `Undefined`
    /// subtype (where the answer is no before the parent is inspected).
    open spec fn sub_type_query_allowed(&self, parent: &Self) -> bool {
        !(*parent is Undefined) || *self is Undefined
    }

    fn is_sub_type_of(&self, parent: &Self) -> (r: bool) {
        match parent {
            Type::Any => true,
            _ => match self {
                Type::Undefined => false,
                _ => type_eq(self, parent),
            },
        }
    }
}

/// Decides structural equality of two types.
pub fn type_eq(a: &Type, b: &Type) -> (r: bool)
    ensures
        r == type_eq_spec(*a, *b),
    decreases *a,
{
    match (a, b) {
        (Type::String, Type::String) => true,
        (Type::Number, Type::Number) => true,
        (Type::Boolean, Type::Boolean) => true,
        (Type::Any, Type::Any) => true,
        (Type::Undefined, Type::Undefined) => true,
        (
            Type::Function { parameters: pa, return_type: ra },
            Type::Function { parameters: pb, return_type: rb },
        ) => {
            if pa.len() != pb.len() {
                proof {
                    lemma_type_seq_eq_pointwise(pa@, pb@);
                }
                false
            } else {
                let n = pa.len();
                let mut i: usize = 0;
                let mut same = true;
                while i < n
                    invariant
                        n == pa@.len() == pb@.len(),
                        i <= n,
                        same <==> forall|j: int| 0 <= j < i ==> type_eq_spec(pa@[j], pb@[j]),
                        *a is Function,
                        (*a)->Function_parameters == *pa,
                    decreases n - i,
                {
                    proof {
                        vstd::std_specs::vec::axiom_vec_index_decreases::<Type>(*pa, i as int);
                        assert(decreases_to!(*a => (*a)->Function_parameters));
                        assert((*a)->Function_parameters == *pa);
                    }
                    if !type_eq(&pa[i], &pb[i]) {
                        same = false;
                    }
                    i += 1;
                }
                proof {
                    lemma_type_seq_eq_pointwise(pa@, pb@);
                }
                same && type_eq(ra, rb)
            }
        },
        _ => false,
    }
}

/// The display name of a type, as used in diagnostic messages.
pub open spec fn format_name_spec(t: Type) -> Seq<char> {
    match t {
        Type::String => "String"@,
        Type::Number => "Number"@,
        Type::Boolean => "Boolean"@,
        Type::Function { .. } => "Function"@,
        Type::Any => "Any"@,
        Type::Undefined => "Undefined"@,
    }
}

impl Type {
    /// Returns the display name of this type.
    pub fn format_name(&self) -> (r: &'static str)
        ensures
            r@ == format_name_spec(*self),
    {
        match self {
            Type::String => "String",
            Type::Number => "Number",
            Type::Boolean => "Boolean",
            Type::Function { .. } => "Function",
            Type::Any => "Any",
            Type::Undefined => "Undefined",
        }
    }
}

impl Clone for Type {
    /// Cloning preserves the type structurally.
    fn clone(&self) -> (r: Self)
        ensures
            type_eq_spec(r, *self),
        decreases *self,
    {
        match self {
            Type::String => Type::String,
            Type::Number => Type::Number,
            Type::Boolean => Type::Boolean,
            Type::Any => Type::Any,
            Type::Undefined => Type::Undefined,
            Type::Function { parameters, return_type } => {
                let mut params: Vec<Type> = Vec::new();
                let n = parameters.len();
                let mut i: usize = 0;
                while i < n
                    invariant
                        n == parameters@.len(),
                        i <= n,
                        params@.len() == i,
                        forall|j: int| 0 <= j < i ==> type_eq_spec(params@[j], parameters@[j]),
                        *self is Function,
                        (*self)->Function_parameters == *parameters,
                    decreases n - i,
                {
                    proof {
                        vstd::std_specs::vec::axiom_vec_index_decreases::<Type>(*parameters, i as int);
                        assert(decreases_to!(*self => (*self)->Function_parameters));
                        assert((*self)->Function_parameters == *parameters);
                    }
                    params.push(parameters[i].clone());
                    i += 1;
                }
                let ret = Box::new((**return_type).clone());
                proof {
                    lemma_type_seq_eq_pointwise(params@, parameters@);
                }
                Type::Function { parameters: params, return_type: ret }
            },
        }
    }
}

} // verus!

//! The function library: named callables registered by the host, consulted
//! by the type checker for signatures and by the virtual machine for calls.

use vstd::prelude::*;

verus! {

use crate::types::Type;
use crate::value::{YarnValue, ValueView, value_view, value_views, opt_value_view};

/// The behaviour of a registered callable.  Each callable has a fixed
/// signature, from which the type checker infers parameter and return types.
#[derive(Debug, Clone, Copy, PartialEq, Eq, Structural)]
pub enum Callable {
    /// `(String, String) -> String`: concatenation.
    ConcatStrings,
    /// `(Number, Number) -> Number`: saturating addition.
    AddNumbers,
    /// `(Number, Number) -> Number`: saturating subtraction.
    SubtractNumbers,
    /// `(Boolean) -> Boolean`: logical negation.
    NegateBool,
    /// `(Number, Number) -> Boolean`: equality.
    NumbersEqual,
    /// `(Number, Number) -> Boolean`: strict less-than.
    NumberLessThan,
    /// `(Boolean, Boolean) -> Boolean`: conjunction.
    BoolAnd,
    /// `(Boolean, Boolean) -> Boolean`: disjunction.
    BoolOr,
}

/// The parameter types of a callable.
pub open spec fn callable_param_types(c: Callable) -> Seq<Type> {
    match c {
        Callable::ConcatStrings => seq![Type::String, Type::String],
        Callable::AddNumbers => seq![Type::Number, Type::Number],
        Callable::SubtractNumbers => seq![Type::Number, Type::Number],
        Callable::NegateBool => seq![Type::Boolean],
        Callable::NumbersEqual => seq![Type::Number, Type::Number],
        Callable::NumberLessThan => seq![Type::Number, Type::Number],
        Callable::BoolAnd => seq![Type::Boolean, Type::Boolean],
        Callable::BoolOr => seq![Type::Boolean, Type::Boolean],
    }
}

/// The return type of a callable.
pub open spec fn callable_return_type(c: Callable) -> Type {
    match c {
        Callable::ConcatStrings => Type::String,
        Callable::AddNumbers => Type::Number,
        Callable::SubtractNumbers => Type::Number,
        Callable::NegateBool => Type::Boolean,
        Callable::NumbersEqual => Type::Boolean,
        Callable::NumberLessThan => Type::Boolean,
        Callable::BoolAnd => Type::Boolean,
        Callable::BoolOr => Type::Boolean,
    }
}

/// Saturating 64-bit addition.
pub open spec fn sat_add_spec(a: i64, b: i64) -> i64 {
    if a + b > i64::MAX {
        i64::MAX
    } else if a + b < i64::MIN {
        i64::MIN
    } else {
        (a + b) as i64
    }
}

/// Saturating 64-bit subtraction.
pub open spec fn sat_sub_spec(a: i64, b: i64) -> i64 {
    if a - b > i64::MAX {
        i64::MAX
    } else if a - b < i64::MIN {
        i64::MIN
    } else {
        (a - b) as i64
    }
}

/// What a call returns: `None` when argument count or types do not match the
/// callable's signature (a runtime diagnosis), otherwise the result value.
pub open spec fn invoke_spec(c: Callable, args: Seq<ValueView>) -> Option<ValueView> {
    match c {
        Callable::ConcatStrings => {
            if args.len() == 2 && args[0] is VStr && args[1] is VStr {
                Some(ValueView::VStr(args[0]->VStr_0 + args[1]->VStr_0))
            } else {
                None
            }
        },
        Callable::AddNumbers => {
            if args.len() == 2 && args[0] is VNum && args[1] is VNum {
                Some(ValueView::VNum(sat_add_spec(args[0]->VNum_0, args[1]->VNum_0)))
            } else {
                None
            }
        },
        Callable::SubtractNumbers => {
            if args.len() == 2 && args[0] is VNum && args[1] is VNum {
                Some(ValueView::VNum(sat_sub_spec(args[0]->VNum_0, args[1]->VNum_0)))
            } else {
                None
            }
        },
        Callable::NegateBool => {
            if args.len() == 1 && args[0] is VBool {
                Some(ValueView::VBool(!args[0]->VBool_0))
            } else {
                None
            }
        },
        Callable::NumbersEqual => {
            if args.len() == 2 && args[0] is VNum && args[1] is VNum {
                Some(ValueView::VBool(args[0]->VNum_0 == args[1]->VNum_0))
            } else {
                None
            }
        },
        Callable::NumberLessThan => {
            if args.len() == 2 && args[0] is VNum && args[1] is VNum {
                Some(ValueView::VBool(args[0]->VNum_0 < args[1]->VNum_0))
            } else {
                None
            }
        },
        Callable::BoolAnd => {
            if args.len() == 2 && args[0] is VBool && args[1] is VBool {
                Some(ValueView::VBool(args[0]->VBool_0 && args[1]->VBool_0))
            } else {
                None
            }
        },
        Callable::BoolOr => {
            if args.len() == 2 && args[0] is VBool && args[1] is VBool {
                Some(ValueView::VBool(args[0]->VBool_0 || args[1]->VBool_0))
            } else {
                None
            }
        },
    }
}

impl Callable {
    /// The number of arguments the callable takes.
    pub fn arity(&self) -> (r: usize)
        ensures
            r == callable_param_types(*self).len(),
    {
        match self {
            Callable::NegateBool => 1,
            _ => 2,
        }
    }

    /// The parameter types of the callable.
    pub fn param_types(&self) -> (r: Vec<Type>)
        ensures
            r@ =~= callable_param_types(*self),
    {
        match self {
            Callable::ConcatStrings => vec![Type::String, Type::String],
            Callable::AddNumbers => vec![Type::Number, Type::Number],
            Callable::SubtractNumbers => vec![Type::Number, Type::Number],
            Callable::NegateBool => vec![Type::Boolean],
            Callable::NumbersEqual => vec![Type::Number, Type::Number],
            Callable::NumberLessThan => vec![Type::Number, Type::Number],
            Callable::BoolAnd => vec![Type::Boolean, Type::Boolean],
            Callable::BoolOr => vec![Type::Boolean, Type::Boolean],
        }
    }

    /// The return type of the callable.
    pub fn return_type(&self) -> (r: Type)
        ensures
            r == callable_return_type(*self),
    {
        match self {
            Callable::ConcatStrings => Type::String,
            Callable::AddNumbers => Type::Number,
            Callable::SubtractNumbers => Type::Number,
            Callable::NegateBool => Type::Boolean,
            Callable::NumbersEqual => Type::Boolean,
            Callable::NumberLessThan => Type::Boolean,
            Callable::BoolAnd => Type::Boolean,
            Callable::BoolOr => Type::Boolean,
        }
    }
}

/// Saturating 64-bit addition.
pub fn sat_add(a: i64, b: i64) -> (r: i64)
    ensures
        r == sat_add_spec(a, b),
{
    if b >= 0 {
        if a > i64::MAX - b {
            i64::MAX
        } else {
            a + b
        }
    } else {
        if a < i64::MIN - b {
            i64::MIN
        } else {
            a + b
        }
    }
}

/// Saturating 64-bit subtraction.
pub fn sat_sub(a: i64, b: i64) -> (r: i64)
    ensures
        r == sat_sub_spec(a, b),
{
    if b <= 0 {
        if a > i64::MAX + b {
            i64::MAX
        } else {
            a - b
        }
    } else {
        if a < i64::MIN + b {
            i64::MIN
        } else {
            a - b
        }
    }
}

/// Invokes a callable on argument values.
pub fn invoke(c: Callable, args: &Vec<YarnValue>) -> (r: Option<YarnValue>)
    ensures
        opt_value_view(r) == invoke_spec(c, value_views(args@)),
{
    proof {
        assert(value_views(args@).len() == args@.len());
        assert(forall|i: int| 0 <= i < args@.len() ==> value_views(args@)[i] == value_view(
            args@[i],
        ));
    }
    match c {
        Callable::ConcatStrings => {
            if args.len() == 2 {
                match (&args[0], &args[1]) {
                    (YarnValue::Str(a), YarnValue::Str(b)) => {
                        Some(YarnValue::Str(a.clone().concat(b.as_str())))
                    },
                    _ => None,
                }
            } else {
                None
            }
        },
        Callable::AddNumbers => {
            if args.len() == 2 {
                match (&args[0], &args[1]) {
                    (YarnValue::Number(a), YarnValue::Number(b)) => {
                        Some(YarnValue::Number(sat_add(*a, *b)))
                    },
                    _ => None,
                }
            } else {
                None
            }
        },
        Callable::SubtractNumbers => {
            if args.len() == 2 {
                match (&args[0], &args[1]) {
                    (YarnValue::Number(a), YarnValue::Number(b)) => {
                        Some(YarnValue::Number(sat_sub(*a, *b)))
                    },
                    _ => None,
                }
            } else {
                None
            }
        },
        Callable::NegateBool => {
            if args.len() == 1 {
                match &args[0] {
                    YarnValue::Bool(a) => Some(YarnValue::Bool(!*a)),
                    _ => None,
                }
            } else {
                None
            }
        },
        Callable::NumbersEqual => {
            if args.len() == 2 {
                match (&args[0], &args[1]) {
                    (YarnValue::Number(a), YarnValue::Number(b)) => {
                        Some(YarnValue::Bool(*a == *b))
                    },
                    _ => None,
                }
            } else {
                None
            }
        },
        Callable::NumberLessThan => {
            if args.len() == 2 {
                match (&args[0], &args[1]) {
                    (YarnValue::Number(a), YarnValue::Number(b)) => Some(YarnValue::Bool(*a < *b)),
                    _ => None,
                }
            } else {
                None
            }
        },
        Callable::BoolAnd => {
            if args.len() == 2 {
                match (&args[0], &args[1]) {
                    (YarnValue::Bool(a), YarnValue::Bool(b)) => Some(YarnValue::Bool(*a && *b)),
                    _ => None,
                }
            } else {
                None
            }
        },
        Callable::BoolOr => {
            if args.len() == 2 {
                match (&args[0], &args[1]) {
                    (YarnValue::Bool(a), YarnValue::Bool(b)) => Some(YarnValue::Bool(*a || *b)),
                    _ => None,
                }
            } else {
                None
            }
        },
    }
}

/// The first registration for a name, if any.
pub open spec fn resolve_spec(entries: Seq<(String, Callable)>, name: Seq<char>) -> Option<Callable>
    decreases entries.len(),
{
    if entries.len() == 0 {
        None
    } else if entries[0].0@ == name {
        Some(entries[0].1)
    } else {
        resolve_spec(entries.subrange(1, entries.len() as int), name)
    }
}

/// Resolution over concatenated registrations: the front list's names win.
pub proof fn lemma_resolve_concat(
    a: Seq<(String, Callable)>,
    b: Seq<(String, Callable)>,
    k: Seq<char>,
)
    ensures
        resolve_spec(a + b, k) == (match resolve_spec(a, k) {
            Some(c) => Some(c),
            None => resolve_spec(b, k),
        }),
    decreases a.len(),
{
    if a.len() == 0 {
        assert(a + b =~= b);
    } else {
        let t = a.subrange(1, a.len() as int);
        lemma_resolve_concat(t, b, k);
        assert((a + b).subrange(1, (a + b).len() as int) =~= t + b);
        assert((a + b)[0] == a[0]);
    }
}

/// A mapping from names to host-registered callables.  The most recent
/// registration of a name shadows earlier ones.
#[derive(Debug)]
pub struct Library {
    pub entries: Vec<(String, Callable)>,
}

impl Library {
    /// An empty library.
    pub fn new() -> (r: Self)
        ensures
            r.entries@.len() == 0,
    {
        Library { entries: Vec::new() }
    }

    /// Registers a callable under a name, shadowing any earlier registration.
    pub fn with_function(self, name: &str, c: Callable) -> (r: Self)
        ensures
            resolve_spec(r.entries@, name@) == Some(c),
            forall|k: Seq<char>| k != name@ ==> #[trigger] resolve_spec(r.entries@, k)
                == resolve_spec(self.entries@, k),
    {
        let mut entries = self.entries;
        entries.insert(0, (name.to_owned(), c));
        proof {
            assert forall|k: Seq<char>| k != name@ implies #[trigger] resolve_spec(entries@, k)
                == resolve_spec(self.entries@, k) by {
                assert(entries@.subrange(1, entries@.len() as int) =~= self.entries@);
            }
            assert(resolve_spec(entries@, name@) == Some(c));
        }
        Library { entries }
    }

    /// Looks a name up, yielding its callable.
    pub fn resolve(&self, name: &str) -> (r: Option<Callable>)
        ensures
            r == resolve_spec(self.entries@, name@),
    {
        let n = self.entries.len();
        proof {
            assert(self.entries@.subrange(0, n as int) =~= self.entries@);
        }
        let mut i: usize = 0;
        while i < n
            invariant
                n == self.entries@.len(),
                i <= n,
                resolve_spec(self.entries@, name@) == resolve_spec(
                    self.entries@.subrange(i as int, n as int),
                    name@,
                ),
            decreases n - i,
        {
            let ghost tail = self.entries@.subrange(i as int, n as int);
            proof {
                assert(tail[0] == self.entries@[i as int]);
                assert(tail.subrange(1, tail.len() as int) =~= self.entries@.subrange(
                    i + 1,
                    n as int,
                ));
            }
            if crate::util::str_eq(self.entries[i].0.as_str(), name) {
                return Some(self.entries[i].1);
            }
            i += 1;
        }
        None
    }
}

impl Clone for Library {
    /// Cloning preserves every registration.
    fn clone(&self) -> (r: Self)
        ensures
            r.entries@ =~= self.entries@,
    {
        let n = self.entries.len();
        let mut entries: Vec<(String, Callable)> = Vec::new();
        let mut i: usize = 0;
        while i < n
            invariant
                n == self.entries@.len(),
                i <= n,
                entries@.len() == i,
                forall|j: int| 0 <= j < i ==> entries@[j] == self.entries@[j],
            decreases n - i,
        {
            entries.push((self.entries[i].0.clone(), self.entries[i].1));
            i += 1;
        }
        Library { entries }
    }
}

impl Default for Library {
    /// The default library is empty.
    fn default() -> (r: Self)
        ensures
            r.entries@.len() == 0,
    {
        Library { entries: Vec::new() }
    }
}

} // verus!

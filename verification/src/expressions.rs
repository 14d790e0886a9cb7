//! The expression vtable boundary: compiled property expressions are opaque
//! units of logic keyed by integer id, invoked against the live scope stack.
//! The crate ships one simple table implementation; a compiled cartridge
//! supplies its own.

use vstd::prelude::*;

use crate::coproduct::PropertiesCoproduct;
use crate::coproduct::TypesCoproduct;
use crate::coproduct::clone_types_value;
use crate::runtime::StackFrame;

verus! {

/// Equality of typed values up to the views of their payloads.
pub open spec fn types_value_like(a: TypesCoproduct, b: TypesCoproduct) -> bool {
    match (a, b) {
        (TypesCoproduct::PropertiesList(x), TypesCoproduct::PropertiesList(y)) => x@ == y@,
        (TypesCoproduct::Segments(x), TypesCoproduct::Segments(y)) => x@ == y@,
        _ => a == b,
    }
}

/// Equality of optional typed values up to the views of their payloads.
pub open spec fn opt_types_like(a: Option<TypesCoproduct>, b: Option<TypesCoproduct>) -> bool {
    match (a, b) {
        (Some(x), Some(y)) => types_value_like(x, y),
        (None, None) => true,
        _ => false,
    }
}

/// A table of compiled property expressions. `evaluate` runs entry `id`
/// against the live scope stack and returns its typed value, or nothing when
/// the table has no such entry. Evaluation must not mutate the stack, which
/// the shared borrow enforces.
///
/// Each implementation declares what its entries compute as a function of
/// the table's state and the stack (`spec_evaluate`), and proves that its
/// `evaluate` returns exactly that, up to the views of list payloads: the
/// same table, entry and stack always give the same value.
pub trait ExpressionTable {
    /// What entry `id` computes against a scope stack.
    spec fn spec_evaluate(&self, id: usize, stack: Seq<StackFrame>) -> Option<TypesCoproduct>;

    /// Computes vtable entry `id` against the scope stack.
    fn evaluate(&self, id: usize, stack: &Vec<StackFrame>) -> (r: Option<TypesCoproduct>)
        ensures
            opt_types_like(r, self.spec_evaluate(id, stack@)),
    ;
}

/// One property that is either a literal value or bound to a vtable entry.
/// The stored value doubles as the fallback when the table has no entry for
/// the bound id.
pub struct PropertyBinding<T> {
    /// The literal, or last known, value.
    pub value: T,
    /// The vtable entry this property is bound to, if any.
    pub vtable_id: Option<usize>,
}

impl<T> PropertyBinding<T> {
    /// A literal property: never recomputed.
    pub fn literal(value: T) -> (r: PropertyBinding<T>)
        ensures
            r.value == value,
            r.vtable_id is None,
    {
        PropertyBinding { value, vtable_id: None }
    }

    /// A property bound to vtable entry `id`, with a starting value.
    pub fn expression(id: usize, value: T) -> (r: PropertyBinding<T>)
        ensures
            r.value == value,
            r.vtable_id == Some(id),
    {
        PropertyBinding { value, vtable_id: Some(id) }
    }

    /// The current value.
    pub fn get(&self) -> (r: &T)
        ensures
            *r == self.value,
    {
        &self.value
    }

    /// Replaces the current value, keeping the binding.
    pub fn set(&mut self, value: T)
        ensures
            final(self).value == value,
            final(self).vtable_id == old(self).vtable_id,
    {
        self.value = value;
    }
}

/// One entry of the simple expression table: enough of an expression
/// language to exercise the runtime's scope discipline.
pub enum SimpleExpression {
    /// A constant value.
    Constant(TypesCoproduct),
    /// The index binding `i` of the repeat scope `offset` frames below the
    /// top of the stack.
    RepeatIndexAt { offset: usize },
    /// The element binding of the repeat scope `offset` frames below the
    /// top of the stack.
    RepeatElemAt { offset: usize },
}

/// What evaluating a simple expression against a stack yields.
pub open spec fn simple_eval(e: SimpleExpression, stack: Seq<StackFrame>) -> Option<TypesCoproduct> {
    match e {
        SimpleExpression::Constant(v) => Some(v),
        SimpleExpression::RepeatIndexAt { offset } => if offset < stack.len() {
            match stack[stack.len() - 1 - offset].properties {
                PropertiesCoproduct::RepeatItem { datum: _, i } => Some(TypesCoproduct::Usize(i)),
                _ => None,
            }
        } else {
            None
        },
        SimpleExpression::RepeatElemAt { offset } => if offset < stack.len() {
            match stack[stack.len() - 1 - offset].properties {
                PropertiesCoproduct::RepeatItem { datum, i: _ } => match *datum {
                    PropertiesCoproduct::Isize(v) => Some(TypesCoproduct::Isize(v)),
                    PropertiesCoproduct::Usize(v) => Some(TypesCoproduct::Usize(v)),
                    PropertiesCoproduct::Bool(v) => Some(TypesCoproduct::Bool(v)),
                    PropertiesCoproduct::Str(s) => Some(TypesCoproduct::Str(s)),
                    _ => None,
                },
                _ => None,
            }
        } else {
            None
        },
    }
}

/// Looks a simple expression up by id, first match wins.
pub open spec fn simple_table_lookup(s: Seq<(usize, SimpleExpression)>, id: usize) -> Option<
    SimpleExpression,
>
    decreases s.len(),
{
    if s.len() == 0 {
        None
    } else if s[0].0 == id {
        Some(s[0].1)
    } else {
        simple_table_lookup(s.skip(1), id)
    }
}

proof fn lemma_simple_table_lookup_found(s: Seq<(usize, SimpleExpression)>, id: usize, i: int)
    requires
        0 <= i < s.len(),
        s[i].0 == id,
        forall|j: int| 0 <= j < i ==> (#[trigger] s[j]).0 != id,
    ensures
        simple_table_lookup(s, id) == Some(s[i].1),
    decreases i,
{
    if i > 0 {
        assert(s.skip(1)[i - 1] == s[i]);
        assert(forall|j: int| 0 <= j < i - 1 ==> #[trigger] s.skip(1)[j] == s[j + 1]);
        lemma_simple_table_lookup_found(s.skip(1), id, i - 1);
    }
}

proof fn lemma_simple_table_lookup_none(s: Seq<(usize, SimpleExpression)>, id: usize)
    requires
        forall|j: int| 0 <= j < s.len() ==> (#[trigger] s[j]).0 != id,
    ensures
        simple_table_lookup(s, id) is None,
    decreases s.len(),
{
    if s.len() > 0 {
        assert(forall|j: int| 0 <= j < s.skip(1).len() ==> #[trigger] s.skip(1)[j] == s[j + 1]);
        lemma_simple_table_lookup_none(s.skip(1), id);
    }
}

/// A table of simple expressions, keyed by vtable id.
pub struct SimpleExpressionTable {
    pub entries: Vec<(usize, SimpleExpression)>,
}

/// What a simple table returns for an entry id against a stack: the same
/// values give the same result, and evaluation reads the stack alone.
pub open spec fn simple_table_eval(
    entries: Seq<(usize, SimpleExpression)>,
    id: usize,
    stack: Seq<StackFrame>,
) -> Option<TypesCoproduct> {
    match simple_table_lookup(entries, id) {
        Some(e) => simple_eval(e, stack),
        None => None,
    }
}

/// Evaluates entry `id` of a simple table against the scope stack.
pub fn evaluate_simple(table: &SimpleExpressionTable, id: usize, stack: &Vec<StackFrame>) -> (r:
    Option<TypesCoproduct>)
    ensures
        match simple_table_eval(table.entries@, id, stack@) {
            Some(v) => r matches Some(w) && types_value_like(w, v),
            None => r is None,
        },
{
    let n = table.entries.len();
    let mut i: usize = 0;
    while i < n
        invariant
            n == table.entries@.len(),
            i <= n,
            forall|j: int| 0 <= j < i ==> (#[trigger] table.entries@[j]).0 != id,
        decreases n - i,
    {
        if table.entries[i].0 == id {
            proof {
                lemma_simple_table_lookup_found(table.entries@, id, i as int);
            }
            let e = &table.entries[i].1;
            return match e {
                SimpleExpression::Constant(v) => Some(clone_types_value(v)),
                SimpleExpression::RepeatIndexAt { offset } => {
                    let depth = stack.len();
                    if *offset < depth {
                        match &stack[depth - 1 - *offset].properties {
                            PropertiesCoproduct::RepeatItem { datum: _, i } => Some(
                                TypesCoproduct::Usize(*i),
                            ),
                            _ => None,
                        }
                    } else {
                        None
                    }
                },
                SimpleExpression::RepeatElemAt { offset } => {
                    let depth = stack.len();
                    if *offset < depth {
                        match &stack[depth - 1 - *offset].properties {
                            PropertiesCoproduct::RepeatItem { datum, i: _ } => match &**datum {
                                PropertiesCoproduct::Isize(v) => Some(TypesCoproduct::Isize(*v)),
                                PropertiesCoproduct::Usize(v) => Some(TypesCoproduct::Usize(*v)),
                                PropertiesCoproduct::Bool(v) => Some(TypesCoproduct::Bool(*v)),
                                PropertiesCoproduct::Str(s) => Some(TypesCoproduct::Str(s.clone())),
                                _ => None,
                            },
                            _ => None,
                        }
                    } else {
                        None
                    }
                },
            };
        }
        i += 1;
    }
    proof {
        lemma_simple_table_lookup_none(table.entries@, id);
    }
    None
}

impl ExpressionTable for SimpleExpressionTable {
    /// A simple table computes exactly what its entry list dictates.
    open spec fn spec_evaluate(&self, id: usize, stack: Seq<StackFrame>) -> Option<TypesCoproduct> {
        simple_table_eval(self.entries@, id, stack)
    }

    fn evaluate(&self, id: usize, stack: &Vec<StackFrame>) -> (r: Option<TypesCoproduct>) {
        evaluate_simple(self, id, stack)
    }
}

} // verus!

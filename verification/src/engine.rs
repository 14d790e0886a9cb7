//! The engine: an arena of render-node instances, their per-frame property
//! evaluation, and the depth-first traversal that expands control flow,
//! threads the scope stack through component boundaries, emits draw commands
//! and diffs native patches.

use vstd::prelude::*;

use crate::controlflow::ChildRef;
use crate::controlflow::VirtualInstance;
use crate::controlflow::clone_child_refs;
use crate::controlflow::conditional_children;
use crate::controlflow::expand_repeat;
use crate::controlflow::range_elems;
use crate::controlflow::slot_children;
use crate::coproduct::PropertiesCoproduct;
use crate::coproduct::TypesCoproduct;
use crate::coproduct::clone_properties;
use crate::coproduct::clone_properties_list;
use crate::expressions::ExpressionTable;
use crate::expressions::PropertyBinding;
use crate::patches::NativeMessage;
use crate::patches::PatchCache;
use crate::registry::InstanceRegistry;
use crate::rendering::Color;
use crate::rendering::DrawCommand;
use crate::rendering::PathSegment;
use crate::rendering::Size;
use crate::rendering::Transform2D;
use crate::rendering::compute_size_within_bound;
use crate::rendering::size_within;
use crate::rendering::copy_chain;
use crate::rendering::copy_segments;
use crate::rendering::copy_transforms;
use crate::rendering::extend_chain;
use crate::rendering::extend_transforms;
use crate::runtime::Runtime;
use crate::runtime::RuntimeViolation;
use crate::runtime::StackFrame;
use crate::runtime::TimelineSnapshot;

verus! {

/// Properties every render node carries: its transform and declared size,
/// each either literal or bound to an expression.
pub struct CommonProperties {
    pub transform: PropertyBinding<Transform2D>,
    pub width: PropertyBinding<Size>,
    pub height: PropertyBinding<Size>,
}

impl CommonProperties {
    /// Identity transform, full-size extent, nothing bound.
    pub fn plain() -> (r: CommonProperties)
        ensures
            r.transform == (PropertyBinding::<Transform2D> {
                value: Transform2D::identity_spec(),
                vtable_id: None,
            }),
            r.width == (PropertyBinding::<Size> { value: Size::Percent(100), vtable_id: None }),
            r.height == (PropertyBinding::<Size> { value: Size::Percent(100), vtable_id: None }),
    {
        CommonProperties {
            transform: PropertyBinding::literal(Transform2D::identity()),
            width: PropertyBinding::literal(Size::Percent(100)),
            height: PropertyBinding::literal(Size::Percent(100)),
        }
    }
}

/// The kind-specific state of a render node.
pub enum NodeKind {
    /// A component boundary: renders its template after pushing a scope
    /// frame holding its flattened adoptees and its property bag. The bag is
    /// instantiation state: expressions drive the common properties and the
    /// control-flow inputs, and a host that recomputes a bag (as a compiled
    /// cartridge does through its property closure) replaces it between
    /// frames.
    Component {
        template: Vec<usize>,
        adoptees: Vec<usize>,
        properties: PropertiesCoproduct,
        timeline: Option<TimelineSnapshot>,
    },
    /// Expands a source (range or collection) into virtual child scopes.
    Repeat {
        source_range: Option<PropertyBinding<(isize, isize)>>,
        source_list: Option<PropertyBinding<Vec<PropertiesCoproduct>>>,
        children: Vec<usize>,
    },
    /// Reports its declared children iff its condition holds this frame.
    Conditional { condition: PropertyBinding<bool>, children: Vec<usize> },
    /// Projects the adoptee of the enclosing frame selected by its index.
    Slot { index: PropertyBinding<usize> },
    /// A vector path drawn with a fill and a stroke.
    Path {
        fill: PropertyBinding<Color>,
        stroke_color: PropertyBinding<Color>,
        stroke_width: PropertyBinding<u64>,
        segments: PropertyBinding<Vec<PathSegment>>,
    },
    /// An image drawn to the node's bounds, addressed by an asset path.
    Image { path: PropertyBinding<String> },
}

/// The handlers a node's host should invoke on input events, by name; the
/// compiled cartridge binds the names to code on the host side.
pub struct HandlerRegistry {
    pub click_handlers: Vec<String>,
    pub scroll_handlers: Vec<String>,
}

/// One node of the instance arena.
pub struct NodeInstance {
    /// The stable id minted at instantiation.
    pub instance_id: u64,
    pub common: CommonProperties,
    pub kind: NodeKind,
    /// Handlers the host dispatches to this node, if it declared any.
    pub handler_registry: Option<HandlerRegistry>,
}

impl NodeInstance {
    /// The node's handler registry, if it declared one.
    pub fn get_handler_registry(&self) -> (r: Option<&HandlerRegistry>)
        ensures
            match r {
                Some(h) => self.handler_registry matches Some(h2) && *h == h2,
                None => self.handler_registry is None,
            },
    {
        match &self.handler_registry {
            Some(h) => Some(h),
            None => None,
        }
    }
}

/// A drawable leaf none of whose properties is bound to an expression: its
/// rendering consults no outside logic at all.
pub open spec fn literal_leaf(n: NodeInstance) -> bool {
    &&& n.common.transform.vtable_id is None
    &&& n.common.width.vtable_id is None
    &&& n.common.height.vtable_id is None
    &&& match n.kind {
        NodeKind::Path { fill, stroke_color, stroke_width, segments } => {
            &&& fill.vtable_id is None
            &&& stroke_color.vtable_id is None
            &&& stroke_width.vtable_id is None
            &&& segments.vtable_id is None
        },
        NodeKind::Image { path } => path.vtable_id is None,
        _ => false,
    }
}

/// Every child index a node kind declares stays inside the arena.
pub open spec fn kind_children_wf(kind: NodeKind, len: nat) -> bool {
    match kind {
        NodeKind::Component { template, adoptees, .. } => {
            &&& forall|k: int| 0 <= k < template@.len() ==> (#[trigger] template@[k]) < len
            &&& forall|k: int| 0 <= k < adoptees@.len() ==> (#[trigger] adoptees@[k]) < len
        },
        NodeKind::Repeat { children, .. } => forall|k: int|
            0 <= k < children@.len() ==> (#[trigger] children@[k]) < len,
        NodeKind::Conditional { children, .. } => forall|k: int|
            0 <= k < children@.len() ==> (#[trigger] children@[k]) < len,
        NodeKind::Slot { .. } => true,
        NodeKind::Path { .. } => true,
        NodeKind::Image { .. } => true,
    }
}

/// Every child index a node declares stays inside the arena.
pub open spec fn node_children_wf(n: NodeInstance, len: nat) -> bool {
    kind_children_wf(n.kind, len)
}

/// The arena's structural invariant.
pub open spec fn arena_wf(ns: Seq<NodeInstance>) -> bool {
    forall|i: int| 0 <= i < ns.len() ==> node_children_wf(#[trigger] ns[i], ns.len())
}

/// What evaluating a `usize` binding yields, as a function of the table's
/// declared semantics: the stored value when unbound or without an entry,
/// the entry's value when it downcasts, and a violation otherwise.
pub open spec fn spec_eval_usize<T: ExpressionTable>(
    table: &T,
    stack: Seq<StackFrame>,
    b: PropertyBinding<usize>,
) -> Result<usize, RuntimeViolation> {
    match b.vtable_id {
        None => Ok(b.value),
        Some(id) => match table.spec_evaluate(id, stack) {
            None => Ok(b.value),
            Some(tc) => match tc {
                TypesCoproduct::Usize(v) => Ok(v),
                _ => Err(RuntimeViolation::CoproductDowncastMismatch),
            },
        },
    }
}

/// As `spec_eval_usize`, for a `bool` binding.
pub open spec fn spec_eval_bool<T: ExpressionTable>(
    table: &T,
    stack: Seq<StackFrame>,
    b: PropertyBinding<bool>,
) -> Result<bool, RuntimeViolation> {
    match b.vtable_id {
        None => Ok(b.value),
        Some(id) => match table.spec_evaluate(id, stack) {
            None => Ok(b.value),
            Some(tc) => match tc {
                TypesCoproduct::Bool(v) => Ok(v),
                _ => Err(RuntimeViolation::CoproductDowncastMismatch),
            },
        },
    }
}

/// As `spec_eval_usize`, for a `u64` binding.
pub open spec fn spec_eval_u64<T: ExpressionTable>(
    table: &T,
    stack: Seq<StackFrame>,
    b: PropertyBinding<u64>,
) -> Result<u64, RuntimeViolation> {
    match b.vtable_id {
        None => Ok(b.value),
        Some(id) => match table.spec_evaluate(id, stack) {
            None => Ok(b.value),
            Some(tc) => match tc {
                TypesCoproduct::U64(v) => Ok(v),
                _ => Err(RuntimeViolation::CoproductDowncastMismatch),
            },
        },
    }
}

/// As `spec_eval_usize`, for a transform binding.
pub open spec fn spec_eval_transform<T: ExpressionTable>(
    table: &T,
    stack: Seq<StackFrame>,
    b: PropertyBinding<Transform2D>,
) -> Result<Transform2D, RuntimeViolation> {
    match b.vtable_id {
        None => Ok(b.value),
        Some(id) => match table.spec_evaluate(id, stack) {
            None => Ok(b.value),
            Some(tc) => match tc {
                TypesCoproduct::Transform(v) => Ok(v),
                _ => Err(RuntimeViolation::CoproductDowncastMismatch),
            },
        },
    }
}

/// As `spec_eval_usize`, for a size binding.
pub open spec fn spec_eval_size<T: ExpressionTable>(
    table: &T,
    stack: Seq<StackFrame>,
    b: PropertyBinding<Size>,
) -> Result<Size, RuntimeViolation> {
    match b.vtable_id {
        None => Ok(b.value),
        Some(id) => match table.spec_evaluate(id, stack) {
            None => Ok(b.value),
            Some(tc) => match tc {
                TypesCoproduct::SizeValue(v) => Ok(v),
                _ => Err(RuntimeViolation::CoproductDowncastMismatch),
            },
        },
    }
}

/// As `spec_eval_usize`, for a color binding.
pub open spec fn spec_eval_color<T: ExpressionTable>(
    table: &T,
    stack: Seq<StackFrame>,
    b: PropertyBinding<Color>,
) -> Result<Color, RuntimeViolation> {
    match b.vtable_id {
        None => Ok(b.value),
        Some(id) => match table.spec_evaluate(id, stack) {
            None => Ok(b.value),
            Some(tc) => match tc {
                TypesCoproduct::ColorValue(v) => Ok(v),
                _ => Err(RuntimeViolation::CoproductDowncastMismatch),
            },
        },
    }
}

/// As `spec_eval_usize`, for a string binding.
pub open spec fn spec_eval_string<T: ExpressionTable>(
    table: &T,
    stack: Seq<StackFrame>,
    b: PropertyBinding<String>,
) -> Result<String, RuntimeViolation> {
    match b.vtable_id {
        None => Ok(b.value),
        Some(id) => match table.spec_evaluate(id, stack) {
            None => Ok(b.value),
            Some(tc) => match tc {
                TypesCoproduct::Str(v) => Ok(v),
                _ => Err(RuntimeViolation::CoproductDowncastMismatch),
            },
        },
    }
}

/// As `spec_eval_usize`, for a segment-list binding: the yielded list is
/// fixed by its view.
pub open spec fn spec_eval_segments<T: ExpressionTable>(
    table: &T,
    stack: Seq<StackFrame>,
    b: PropertyBinding<Vec<PathSegment>>,
) -> Result<Seq<PathSegment>, RuntimeViolation> {
    match b.vtable_id {
        None => Ok(b.value@),
        Some(id) => match table.spec_evaluate(id, stack) {
            None => Ok(b.value@),
            Some(tc) => match tc {
                TypesCoproduct::Segments(v) => Ok(v@),
                _ => Err(RuntimeViolation::CoproductDowncastMismatch),
            },
        },
    }
}

/// Evaluates a `usize` property binding: unbound properties keep their
/// value; a bound one takes whatever the table computed, provided it
/// downcasts, and keeps its value when the table has no entry.
fn eval_usize<T: ExpressionTable>(
    table: &T,
    stack: &Vec<StackFrame>,
    b: &PropertyBinding<usize>,
) -> (r: Result<usize, RuntimeViolation>)
    ensures
        r == spec_eval_usize(table, stack@, *b),
{
    match b.vtable_id {
        None => Ok(b.value),
        Some(id) => match table.evaluate(id, stack) {
            None => Ok(b.value),
            Some(tc) => match tc.unwrap_usize() {
                Some(v) => Ok(v),
                None => Err(RuntimeViolation::CoproductDowncastMismatch),
            },
        },
    }
}

/// Evaluates a `bool` property binding, as `eval_usize` does.
fn eval_bool<T: ExpressionTable>(
    table: &T,
    stack: &Vec<StackFrame>,
    b: &PropertyBinding<bool>,
) -> (r: Result<bool, RuntimeViolation>)
    ensures
        r == spec_eval_bool(table, stack@, *b),
{
    match b.vtable_id {
        None => Ok(b.value),
        Some(id) => match table.evaluate(id, stack) {
            None => Ok(b.value),
            Some(tc) => match tc.unwrap_bool() {
                Some(v) => Ok(v),
                None => Err(RuntimeViolation::CoproductDowncastMismatch),
            },
        },
    }
}

/// Evaluates a `u64` property binding, as `eval_usize` does.
fn eval_u64<T: ExpressionTable>(
    table: &T,
    stack: &Vec<StackFrame>,
    b: &PropertyBinding<u64>,
) -> (r: Result<u64, RuntimeViolation>)
    ensures
        r == spec_eval_u64(table, stack@, *b),
{
    match b.vtable_id {
        None => Ok(b.value),
        Some(id) => match table.evaluate(id, stack) {
            None => Ok(b.value),
            Some(tc) => match tc.unwrap_u64() {
                Some(v) => Ok(v),
                None => Err(RuntimeViolation::CoproductDowncastMismatch),
            },
        },
    }
}

/// Evaluates a transform property binding, as `eval_usize` does.
fn eval_transform<T: ExpressionTable>(
    table: &T,
    stack: &Vec<StackFrame>,
    b: &PropertyBinding<Transform2D>,
) -> (r: Result<Transform2D, RuntimeViolation>)
    ensures
        r == spec_eval_transform(table, stack@, *b),
{
    match b.vtable_id {
        None => Ok(b.value),
        Some(id) => match table.evaluate(id, stack) {
            None => Ok(b.value),
            Some(tc) => match tc.unwrap_transform() {
                Some(v) => Ok(v),
                None => Err(RuntimeViolation::CoproductDowncastMismatch),
            },
        },
    }
}

/// Evaluates a size property binding, as `eval_usize` does.
fn eval_size<T: ExpressionTable>(
    table: &T,
    stack: &Vec<StackFrame>,
    b: &PropertyBinding<Size>,
) -> (r: Result<Size, RuntimeViolation>)
    ensures
        r == spec_eval_size(table, stack@, *b),
{
    match b.vtable_id {
        None => Ok(b.value),
        Some(id) => match table.evaluate(id, stack) {
            None => Ok(b.value),
            Some(tc) => match tc.unwrap_size() {
                Some(v) => Ok(v),
                None => Err(RuntimeViolation::CoproductDowncastMismatch),
            },
        },
    }
}

/// Evaluates a color property binding, as `eval_usize` does.
fn eval_color<T: ExpressionTable>(
    table: &T,
    stack: &Vec<StackFrame>,
    b: &PropertyBinding<Color>,
) -> (r: Result<Color, RuntimeViolation>)
    ensures
        r == spec_eval_color(table, stack@, *b),
{
    match b.vtable_id {
        None => Ok(b.value),
        Some(id) => match table.evaluate(id, stack) {
            None => Ok(b.value),
            Some(tc) => match tc.unwrap_color() {
                Some(v) => Ok(v),
                None => Err(RuntimeViolation::CoproductDowncastMismatch),
            },
        },
    }
}

/// Evaluates a string property binding, as `eval_usize` does.
fn eval_string<T: ExpressionTable>(
    table: &T,
    stack: &Vec<StackFrame>,
    b: &PropertyBinding<String>,
) -> (r: Result<String, RuntimeViolation>)
    ensures
        r == spec_eval_string(table, stack@, *b),
{
    match b.vtable_id {
        None => Ok(b.value.clone()),
        Some(id) => match table.evaluate(id, stack) {
            None => Ok(b.value.clone()),
            Some(tc) => match tc.unwrap_str() {
                Some(v) => Ok(v),
                None => Err(RuntimeViolation::CoproductDowncastMismatch),
            },
        },
    }
}

/// Evaluates a segment-list property binding; the fallback value is copied
/// element for element.
fn eval_segments<T: ExpressionTable>(
    table: &T,
    stack: &Vec<StackFrame>,
    b: &PropertyBinding<Vec<PathSegment>>,
) -> (r: Result<Vec<PathSegment>, RuntimeViolation>)
    ensures
        match spec_eval_segments(table, stack@, *b) {
            Ok(sv) => r matches Ok(v) && v@ == sv,
            Err(e) => r == Err::<Vec<PathSegment>, RuntimeViolation>(e),
        },
{
    match b.vtable_id {
        None => Ok(copy_segments(&b.value)),
        Some(id) => match table.evaluate(id, stack) {
            None => Ok(copy_segments(&b.value)),
            Some(tc) => match tc.unwrap_segments() {
                Some(v) => Ok(v),
                None => Err(RuntimeViolation::CoproductDowncastMismatch),
            },
        },
    }
}

/// The elements of a numeric range source: one numeric bag per value.
pub open spec fn spec_range_elems(start: isize, end: isize) -> Seq<PropertiesCoproduct> {
    Seq::new(
        if start <= end {
            (end - start) as nat
        } else {
            0
        },
        |k: int| PropertiesCoproduct::Isize((start + k) as isize),
    )
}

/// What evaluating a repeat node's source yields: the elements of its range
/// or collection, fixed by the table's declared semantics.
pub open spec fn spec_eval_repeat_elems<T: ExpressionTable>(
    table: &T,
    stack: Seq<StackFrame>,
    source_range: Option<PropertyBinding<(isize, isize)>>,
    source_list: Option<PropertyBinding<Vec<PropertiesCoproduct>>>,
) -> Result<Seq<PropertiesCoproduct>, RuntimeViolation> {
    match source_range {
        Some(b) => match b.vtable_id {
            None => Ok(spec_range_elems(b.value.0, b.value.1)),
            Some(id) => match table.spec_evaluate(id, stack) {
                None => Ok(spec_range_elems(b.value.0, b.value.1)),
                Some(tc) => match tc {
                    TypesCoproduct::RangeIsize { start, end } => Ok(spec_range_elems(start, end)),
                    _ => Err(RuntimeViolation::CoproductDowncastMismatch),
                },
            },
        },
        None => match source_list {
            Some(b) => match b.vtable_id {
                None => Ok(b.value@),
                Some(id) => match table.spec_evaluate(id, stack) {
                    None => Ok(b.value@),
                    Some(tc) => match tc {
                        TypesCoproduct::PropertiesList(v) => Ok(v@),
                        _ => Err(RuntimeViolation::CoproductDowncastMismatch),
                    },
                },
            },
            None => Ok(Seq::<PropertiesCoproduct>::empty()),
        },
    }
}

/// The virtual instances of one expansion: one per element, in order, bound
/// to the element and its position.
pub open spec fn spec_expand_repeat(
    repeat_instance_id: u64,
    repeat_node: usize,
    elems: Seq<PropertiesCoproduct>,
) -> Seq<ChildRef> {
    Seq::new(
        elems.len(),
        |k: int|
            ChildRef::Virtual(
                VirtualInstance {
                    repeat_instance_id,
                    repeat_node,
                    index: k as usize,
                    datum: elems[k],
                },
            ),
    )
}

/// Evaluates a repeat node's source into its element list. A range source
/// yields one numeric bag per value; a collection source yields its bags; a
/// repeat with no source yields nothing.
fn eval_repeat_source<T: ExpressionTable>(
    table: &T,
    stack: &Vec<StackFrame>,
    source_range: &Option<PropertyBinding<(isize, isize)>>,
    source_list: &Option<PropertyBinding<Vec<PropertiesCoproduct>>>,
) -> (r: Result<Vec<PropertiesCoproduct>, RuntimeViolation>)
    ensures
        match spec_eval_repeat_elems(table, stack@, *source_range, *source_list) {
            Ok(es) => r matches Ok(v) && v@ == es,
            Err(e) => r == Err::<Vec<PropertiesCoproduct>, RuntimeViolation>(e),
        },
{
    match source_range {
        Some(b) => {
            let (start, end) = match b.vtable_id {
                None => (b.value.0, b.value.1),
                Some(id) => match table.evaluate(id, stack) {
                    None => (b.value.0, b.value.1),
                    Some(tc) => match tc.unwrap_range() {
                        Some(se) => se,
                        None => {
                            return Err(RuntimeViolation::CoproductDowncastMismatch);
                        },
                    },
                },
            };
            let elems = range_elems(start, end);
            proof {
                assert(elems@ =~= spec_range_elems(start, end));
            }
            Ok(elems)
        },
        None => match source_list {
            Some(b) => match b.vtable_id {
                None => Ok(clone_properties_list(&b.value)),
                Some(id) => match table.evaluate(id, stack) {
                    None => Ok(clone_properties_list(&b.value)),
                    Some(tc) => match tc.unwrap_properties_list() {
                        Some(v) => Ok(v),
                        None => Err(RuntimeViolation::CoproductDowncastMismatch),
                    },
                },
            },
            None => Ok(Vec::new()),
        },
    }
}

/// Joins an already-flattened prefix with the outcome of flattening the
/// remaining adoptees.
pub open spec fn flat_join(
    prefix: Seq<ChildRef>,
    rest: Result<Seq<ChildRef>, RuntimeViolation>,
) -> Result<Seq<ChildRef>, RuntimeViolation> {
    match rest {
        Ok(t) => Ok(prefix + t),
        Err(e) => Err(e),
    }
}

/// What flattening a list of declared adoptees yields: in declared order, a
/// conditional contributes its own flattened children while its condition
/// holds and nothing otherwise, a repeat contributes its virtual instances,
/// and every other node contributes itself.
pub open spec fn spec_flatten_adoptees<T: ExpressionTable>(
    table: &T,
    nodes: Seq<NodeInstance>,
    stack: Seq<StackFrame>,
    ids: Seq<usize>,
    fuel: nat,
) -> Result<Seq<ChildRef>, RuntimeViolation>
    decreases fuel, ids.len(),
{
    if fuel == 0 {
        Err(RuntimeViolation::TraversalDepthExceeded)
    } else if ids.len() == 0 {
        Ok(Seq::<ChildRef>::empty())
    } else {
        let id = ids[0];
        let head: Result<Seq<ChildRef>, RuntimeViolation> = if id < nodes.len() {
            match nodes[id as int].kind {
                NodeKind::Conditional { condition, children } => match spec_eval_bool(
                    table,
                    stack,
                    condition,
                ) {
                    Ok(c) => if c {
                        spec_flatten_adoptees(table, nodes, stack, children@, (fuel - 1) as nat)
                    } else {
                        Ok(Seq::<ChildRef>::empty())
                    },
                    Err(e) => Err(e),
                },
                NodeKind::Repeat { source_range, source_list, children: _ } => match spec_eval_repeat_elems(
                    table,
                    stack,
                    source_range,
                    source_list,
                ) {
                    Ok(elems) => Ok(spec_expand_repeat(nodes[id as int].instance_id, id, elems)),
                    Err(e) => Err(e),
                },
                _ => Ok(seq![ChildRef::Node(id)]),
            }
        } else {
            Ok(seq![ChildRef::Node(id)])
        };
        match head {
            Err(e) => Err(e),
            Ok(h) => flat_join(h, spec_flatten_adoptees(table, nodes, stack, ids.skip(1), fuel)),
        }
    }
}

/// Flattens a component's declared adoptees: a conditional adoptee is
/// replaced by its expansion, a repeat adoptee by its virtual instances, and
/// every other node stands for itself. Expansion needs the adoptee's own
/// per-frame properties, so the live stack is consulted, never changed.
fn flatten_adoptees<T: ExpressionTable>(
    nodes: &Vec<NodeInstance>,
    table: &T,
    stack: &Vec<StackFrame>,
    ids: &Vec<usize>,
    fuel: usize,
) -> (r: Result<Vec<ChildRef>, RuntimeViolation>)
    requires
        arena_wf(nodes@),
        forall|k: int| 0 <= k < ids@.len() ==> (#[trigger] ids@[k]) < nodes@.len(),
    ensures
        match spec_flatten_adoptees(table, nodes@, stack@, ids@, fuel as nat) {
            Ok(cs) => r matches Ok(v) && v@ == cs,
            Err(e) => r == Err::<Vec<ChildRef>, RuntimeViolation>(e),
        },
    decreases fuel,
{
    let ghost full = spec_flatten_adoptees(table, nodes@, stack@, ids@, fuel as nat);
    if fuel == 0 {
        return Err(RuntimeViolation::TraversalDepthExceeded);
    }
    let mut out: Vec<ChildRef> = Vec::new();
    let n = ids.len();
    let mut k: usize = 0;
    proof {
        assert(ids@.skip(0) =~= ids@);
        match full {
            Ok(t) => {
                assert(Seq::<ChildRef>::empty() + t =~= t);
            },
            Err(_) => {},
        }
    }
    while k < n
        invariant
            arena_wf(nodes@),
            forall|j: int| 0 <= j < ids@.len() ==> (#[trigger] ids@[j]) < nodes@.len(),
            n == ids@.len(),
            k <= n,
            fuel >= 1,
            full == spec_flatten_adoptees(table, nodes@, stack@, ids@, fuel as nat),
            full == flat_join(
                out@,
                spec_flatten_adoptees(table, nodes@, stack@, ids@.skip(k as int), fuel as nat),
            ),
        decreases n - k,
    {
        let ghost rest = ids@.skip(k as int);
        proof {
            assert(rest[0] == ids@[k as int]);
            assert(rest.skip(1) =~= ids@.skip(k as int + 1));
        }
        let ghost tail_spec = spec_flatten_adoptees(
            table,
            nodes@,
            stack@,
            ids@.skip(k as int + 1),
            fuel as nat,
        );
        let id = ids[k];
        match &nodes[id].kind {
            NodeKind::Conditional { condition, children } => {
                let c = match eval_bool(table, stack, condition) {
                    Ok(v) => v,
                    Err(e) => {
                        proof {
                            assert(full == Err::<Seq<ChildRef>, RuntimeViolation>(e));
                        }
                        return Err(e);
                    },
                };
                if c {
                    proof {
                        assert(node_children_wf(nodes@[id as int], nodes@.len()));
                    }
                    let mut sub = match flatten_adoptees(nodes, table, stack, children, fuel - 1) {
                        Ok(v) => v,
                        Err(e) => {
                            proof {
                                assert(full == Err::<Seq<ChildRef>, RuntimeViolation>(e));
                            }
                            return Err(e);
                        },
                    };
                    let ghost h = sub@;
                    let ghost prev = out@;
                    out.append(&mut sub);
                    proof {
                        match tail_spec {
                            Ok(t) => {
                                assert(prev + (h + t) =~= (prev + h) + t);
                            },
                            Err(_) => {},
                        }
                    }
                } else {
                    proof {
                        match tail_spec {
                            Ok(t) => {
                                assert(out@ + (Seq::<ChildRef>::empty() + t) =~= out@ + t);
                            },
                            Err(_) => {},
                        }
                    }
                }
            },
            NodeKind::Repeat { source_range, source_list, children: _ } => {
                let elems = match eval_repeat_source(table, stack, source_range, source_list) {
                    Ok(v) => v,
                    Err(e) => {
                        proof {
                            assert(full == Err::<Seq<ChildRef>, RuntimeViolation>(e));
                        }
                        return Err(e);
                    },
                };
                let ghost spec_elems = match spec_eval_repeat_elems(
                    table,
                    stack@,
                    *source_range,
                    *source_list,
                ) {
                    Ok(es) => es,
                    Err(_) => Seq::<PropertiesCoproduct>::empty(),
                };
                let mut virtuals = expand_repeat(nodes[id].instance_id, id, elems);
                let ghost h = spec_expand_repeat(nodes@[id as int].instance_id, id, spec_elems);
                proof {
                    assert(virtuals@ =~= h);
                }
                let ghost prev = out@;
                out.append(&mut virtuals);
                proof {
                    match tail_spec {
                        Ok(t) => {
                            assert(prev + (h + t) =~= (prev + h) + t);
                        },
                        Err(_) => {},
                    }
                }
            },
            _ => {
                let ghost prev = out@;
                out.push(ChildRef::Node(id));
                proof {
                    assert(out@ =~= prev + seq![ChildRef::Node(id)]);
                    match tail_spec {
                        Ok(t) => {
                            assert(prev + (seq![ChildRef::Node(id)] + t) =~= (prev + seq![
                                ChildRef::Node(id),
                            ]) + t);
                        },
                        Err(_) => {},
                    }
                }
            },
        }
        k += 1;
    }
    proof {
        assert(ids@.skip(n as int) =~= Seq::<usize>::empty());
        match full {
            Ok(t) => {
                assert(out@ + Seq::<ChildRef>::empty() =~= out@);
            },
            Err(_) => {},
        }
    }
    Ok(out)
}

/// One frame's traversal of the node at `node_id`: computes its properties
/// against the live scope stack, expands its control flow, draws it, diffs
/// its patches and recurses into its rendering children in declared order.
///
/// Whatever happens — success or a fatal structural violation — the scope
/// stack leaves this call exactly as it entered it: every frame pushed under
/// this node is popped again.
fn recurse_render_node<T: ExpressionTable>(
    nodes: &Vec<NodeInstance>,
    table: &T,
    runtime: &mut Runtime,
    cache: &mut PatchCache,
    draws: &mut Vec<DrawCommand>,
    patches: &mut Vec<NativeMessage>,
    visited: &mut Vec<Vec<u64>>,
    node_id: usize,
    chain: &Vec<u64>,
    transforms: &Vec<Transform2D>,
    bounds: (u64, u64),
    fuel: usize,
) -> (r: Result<(), RuntimeViolation>)
    requires
        arena_wf(nodes@),
        node_id < nodes@.len(),
        old(cache).wf(),
    ensures
        final(runtime).stack@ == old(runtime).stack@,
        final(runtime).native_message_queue == old(runtime).native_message_queue,
        final(cache).wf(),
        // output only grows, in place: earlier commands and patches are kept
        final(draws)@.len() >= old(draws)@.len(),
        final(draws)@.take(old(draws)@.len() as int) == old(draws)@,
        final(patches)@.len() >= old(patches)@.len(),
        final(patches)@.take(old(patches)@.len() as int) == old(patches)@,
        // rendering a leaf whose properties are all literal consults nothing
        // outside the engine, so it cannot fail
        fuel > 0 && literal_leaf(nodes@[node_id as int]) ==> r is Ok,
        // an exhausted depth budget is the cyclic-graph violation
        fuel == 0 ==> r == Err::<(), RuntimeViolation>(RuntimeViolation::TraversalDepthExceeded),
        // a conditional whose condition does not hold this frame renders
        // nothing: no draw and no patch survives from a stale child set
        (nodes@[node_id as int].kind matches NodeKind::Conditional { condition: cb, .. }
            ==> (spec_eval_bool(table, old(runtime).stack@, cb) == Ok::<
            bool,
            RuntimeViolation,
        >(false) ==> final(draws)@ == old(draws)@ && final(patches)@ == old(patches)@)),
        // a slot under an empty scope stack has no adoptees to project
        (nodes@[node_id as int].kind matches NodeKind::Slot { .. } && old(runtime).stack@.len()
            == 0 ==> final(draws)@ == old(draws)@ && final(patches)@ == old(patches)@),
        // a slot resolves its index against the frame on top of the stack as
        // it stands at render time; an index beyond that frame's adoptee
        // list renders nothing
        (r is Ok ==> (nodes@[node_id as int].kind matches NodeKind::Slot { index: ib } ==> (
        spec_eval_usize(table, old(runtime).stack@, ib) matches Ok(ix) && (old(
            runtime,
        ).stack@.len() > 0 && ix >= old(runtime).stack@.last().adoptees@.len() ==> final(draws)@
            == old(draws)@ && final(patches)@ == old(patches)@)))),
        // an image node draws itself within its computed bounds, addressed by
        // the id chain extended with its own id, and leaves the cache holding
        // the path it showed; the patch is emitted iff the path changed
        (r is Ok ==> (nodes@[node_id as int].kind matches NodeKind::Image { path: pb } ==> {
            let key = chain@.push(nodes@[node_id as int].instance_id);
            let stk = old(runtime).stack@;
            let common = nodes@[node_id as int].common;
            &&& final(draws)@.len() == old(draws)@.len() + 1
            &&& (final(draws)@.last() matches DrawCommand::DrawImage {
                id_chain,
                transforms: dt,
                width,
                height,
                path: dp,
            } && {
                &&& id_chain@ == key
                &&& (spec_eval_transform(table, stk, common.transform) matches Ok(t) && dt@
                    == transforms@.push(t))
                &&& (spec_eval_size(table, stk, common.width) matches Ok(w) && width
                    == size_within(w, bounds.0))
                &&& (spec_eval_size(table, stk, common.height) matches Ok(h) && height
                    == size_within(h, bounds.1))
                &&& (spec_eval_string(table, stk, pb) matches Ok(sv) && dp@ == sv@)
            })
            &&& (spec_eval_string(table, stk, pb) matches Ok(sv) && final(cache).cached_path(key)
                == Some(sv@) && (final(patches)@.len() == old(patches)@.len() + 1
                <==> crate::patches::image_patch_emitted(old(cache).cached_path(key), sv@)))
        })),
        // a path node draws a fill and then a stroke over the same geometry,
        // both addressed by the id chain extended with its own id
        (r is Ok ==> (nodes@[node_id as int].kind matches NodeKind::Path {
            fill: fb,
            stroke_color: scb,
            stroke_width: swb,
            segments: sgb,
        } ==> {
            let key = chain@.push(nodes@[node_id as int].instance_id);
            let stk = old(runtime).stack@;
            &&& final(draws)@.len() == old(draws)@.len() + 2
            &&& (final(draws)@[old(draws)@.len() as int] matches DrawCommand::FillPath {
                id_chain,
                segments: fsegs,
                color,
                ..
            } && {
                &&& id_chain@ == key
                &&& (spec_eval_color(table, stk, fb) matches Ok(c) && color == c)
                &&& (spec_eval_segments(table, stk, sgb) matches Ok(sv) && fsegs@ == sv)
            })
            &&& (final(draws)@.last() matches DrawCommand::StrokePath {
                id_chain,
                segments: ssegs,
                color,
                width,
                ..
            } && {
                &&& id_chain@ == key
                &&& (spec_eval_color(table, stk, scb) matches Ok(c) && color == c)
                &&& (spec_eval_u64(table, stk, swb) matches Ok(w) && width == w)
                &&& (spec_eval_segments(table, stk, sgb) matches Ok(sv) && ssegs@ == sv)
            })
        })),
    decreases fuel,
{
    if fuel == 0 {
        return Err(RuntimeViolation::TraversalDepthExceeded);
    }
    let node = &nodes[node_id];
    proof {
        assert(draws@.take(draws@.len() as int) =~= draws@);
        assert(patches@.take(patches@.len() as int) =~= patches@);
    }
    let t = match eval_transform(table, &runtime.stack, &node.common.transform) {
        Ok(v) => v,
        Err(e) => {
            return Err(e);
        },
    };
    let my_chain = extend_chain(chain, node.instance_id);
    visited.push(copy_chain(&my_chain));
    let my_transforms = extend_transforms(transforms, t);
    match &node.kind {
        NodeKind::Component { template, adoptees, properties, timeline } => {
            proof {
                assert(node_children_wf(nodes@[node_id as int], nodes@.len()));
            }
            let flattened = match flatten_adoptees(nodes, table, &runtime.stack, adoptees, fuel - 1) {
                Ok(v) => v,
                Err(e) => {
                    return Err(e);
                },
            };
            runtime.push_stack_frame(flattened, clone_properties(properties), *timeline);
            let ghost pushed = runtime.stack@;
            let m = template.len();
            let mut k: usize = 0;
            while k < m
                invariant
                    arena_wf(nodes@),
                    node_id < nodes@.len(),
                    nodes@[node_id as int].kind matches NodeKind::Component { template: t2, .. }
                        && t2@ == template@,
                    forall|j: int| 0 <= j < template@.len() ==> (#[trigger] template@[j])
                        < nodes@.len(),
                    m == template@.len(),
                    k <= m,
                    fuel >= 1,
                    runtime.stack@ == pushed,
                    pushed.len() > 0,
                    pushed.drop_last() == old(runtime).stack@,
                    runtime.native_message_queue == old(runtime).native_message_queue,
                    cache.wf(),
                    draws@.len() >= old(draws)@.len(),
                    draws@.take(old(draws)@.len() as int) == old(draws)@,
                    patches@.len() >= old(patches)@.len(),
                    patches@.take(old(patches)@.len() as int) == old(patches)@,
                decreases m - k,
            {
                let ghost pd = draws@;
                let ghost pp = patches@;
                let r = recurse_render_node(
                    nodes,
                    table,
                    runtime,
                    cache,
                    draws,
                    patches,
                    visited,
                    template[k],
                    &my_chain,
                    &my_transforms,
                    bounds,
                    fuel - 1,
                );
                proof {
                    lemma_prefix_chain(old(draws)@, pd, draws@);
                    lemma_prefix_chain(old(patches)@, pp, patches@);
                }
                match r {
                    Ok(()) => {},
                    Err(e) => {
                        runtime.pop_stack_frame();
                        return Err(e);
                    },
                }
                k += 1;
            }
            runtime.pop_stack_frame();
            Ok(())
        },
        NodeKind::Repeat { source_range, source_list, children: _ } => {
            let elems = match eval_repeat_source(table, &runtime.stack, source_range, source_list) {
                Ok(v) => v,
                Err(e) => {
                    return Err(e);
                },
            };
            let virtuals = expand_repeat(node.instance_id, node_id, elems);
            let m = virtuals.len();
            let mut k: usize = 0;
            while k < m
                invariant
                    arena_wf(nodes@),
                    node_id < nodes@.len(),
                    nodes@[node_id as int].kind matches NodeKind::Repeat { .. },
                    m == virtuals@.len(),
                    k <= m,
                    fuel >= 1,
                    runtime.stack@ == old(runtime).stack@,
                    runtime.native_message_queue == old(runtime).native_message_queue,
                    cache.wf(),
                    draws@.len() >= old(draws)@.len(),
                    draws@.take(old(draws)@.len() as int) == old(draws)@,
                    patches@.len() >= old(patches)@.len(),
                    patches@.take(old(patches)@.len() as int) == old(patches)@,
                decreases m - k,
            {
                let ghost pd = draws@;
                let ghost pp = patches@;
                let r = render_child_ref(
                    nodes,
                    table,
                    runtime,
                    cache,
                    draws,
                    patches,
                    visited,
                    &virtuals[k],
                    &my_chain,
                    &my_transforms,
                    bounds,
                    fuel - 1,
                );
                proof {
                    lemma_prefix_chain(old(draws)@, pd, draws@);
                    lemma_prefix_chain(old(patches)@, pp, patches@);
                }
                match r {
                    Ok(()) => {},
                    Err(e) => {
                        return Err(e);
                    },
                }
                k += 1;
            }
            Ok(())
        },
        NodeKind::Conditional { condition, children } => {
            let c = match eval_bool(table, &runtime.stack, condition) {
                Ok(v) => v,
                Err(e) => {
                    return Err(e);
                },
            };
            let kids = conditional_children(children, c);
            let m = kids.len();
            let mut k: usize = 0;
            while k < m
                invariant
                    arena_wf(nodes@),
                    node_id < nodes@.len(),
                    (nodes@[node_id as int].kind matches NodeKind::Conditional { condition: cb2, .. }
                        && spec_eval_bool(table, old(runtime).stack@, cb2) == Ok::<
                        bool,
                        RuntimeViolation,
                    >(c)),
                    !c ==> m == 0,
                    m == kids@.len(),
                    k <= m,
                    fuel >= 1,
                    runtime.stack@ == old(runtime).stack@,
                    runtime.native_message_queue == old(runtime).native_message_queue,
                    cache.wf(),
                    kids@.len() == 0 ==> draws@ == old(draws)@ && patches@ == old(patches)@,
                    draws@.len() >= old(draws)@.len(),
                    draws@.take(old(draws)@.len() as int) == old(draws)@,
                    patches@.len() >= old(patches)@.len(),
                    patches@.take(old(patches)@.len() as int) == old(patches)@,
                decreases m - k,
            {
                let ghost pd = draws@;
                let ghost pp = patches@;
                let r = render_child_ref(
                    nodes,
                    table,
                    runtime,
                    cache,
                    draws,
                    patches,
                    visited,
                    &kids[k],
                    &my_chain,
                    &my_transforms,
                    bounds,
                    fuel - 1,
                );
                proof {
                    lemma_prefix_chain(old(draws)@, pd, draws@);
                    lemma_prefix_chain(old(patches)@, pp, patches@);
                }
                match r {
                    Ok(()) => {},
                    Err(e) => {
                        return Err(e);
                    },
                }
                k += 1;
            }
            Ok(())
        },
        NodeKind::Slot { index } => {
            let idx = match eval_usize(table, &runtime.stack, index) {
                Ok(v) => v,
                Err(e) => {
                    return Err(e);
                },
            };
            let projected: Vec<ChildRef> = match runtime.peek_stack_frame() {
                Some(frame) => slot_children(&frame.adoptees, idx),
                None => Vec::new(),
            };
            let m = projected.len();
            let mut k: usize = 0;
            while k < m
                invariant
                    arena_wf(nodes@),
                    node_id < nodes@.len(),
                    (nodes@[node_id as int].kind matches NodeKind::Slot { index: ib2 }
                        && spec_eval_usize(table, old(runtime).stack@, ib2) == Ok::<
                        usize,
                        RuntimeViolation,
                    >(idx)),
                    old(runtime).stack@.len() == 0 ==> m == 0,
                    old(runtime).stack@.len() > 0 && idx >= old(
                        runtime,
                    ).stack@.last().adoptees@.len() ==> m == 0,
                    m == projected@.len(),
                    k <= m,
                    fuel >= 1,
                    runtime.stack@ == old(runtime).stack@,
                    runtime.native_message_queue == old(runtime).native_message_queue,
                    cache.wf(),
                    projected@.len() == 0 ==> draws@ == old(draws)@ && patches@ == old(patches)@,
                    draws@.len() >= old(draws)@.len(),
                    draws@.take(old(draws)@.len() as int) == old(draws)@,
                    patches@.len() >= old(patches)@.len(),
                    patches@.take(old(patches)@.len() as int) == old(patches)@,
                decreases m - k,
            {
                let ghost pd = draws@;
                let ghost pp = patches@;
                let r = render_child_ref(
                    nodes,
                    table,
                    runtime,
                    cache,
                    draws,
                    patches,
                    visited,
                    &projected[k],
                    &my_chain,
                    &my_transforms,
                    bounds,
                    fuel - 1,
                );
                proof {
                    lemma_prefix_chain(old(draws)@, pd, draws@);
                    lemma_prefix_chain(old(patches)@, pp, patches@);
                }
                match r {
                    Ok(()) => {},
                    Err(e) => {
                        return Err(e);
                    },
                }
                k += 1;
            }
            Ok(())
        },
        NodeKind::Path { fill, stroke_color, stroke_width, segments } => {
            let f = match eval_color(table, &runtime.stack, fill) {
                Ok(v) => v,
                Err(e) => {
                    return Err(e);
                },
            };
            let sc = match eval_color(table, &runtime.stack, stroke_color) {
                Ok(v) => v,
                Err(e) => {
                    return Err(e);
                },
            };
            let sw = match eval_u64(table, &runtime.stack, stroke_width) {
                Ok(v) => v,
                Err(e) => {
                    return Err(e);
                },
            };
            let segs = match eval_segments(table, &runtime.stack, segments) {
                Ok(v) => v,
                Err(e) => {
                    return Err(e);
                },
            };
            let w = match eval_size(table, &runtime.stack, &node.common.width) {
                Ok(v) => v,
                Err(e) => {
                    return Err(e);
                },
            };
            let h = match eval_size(table, &runtime.stack, &node.common.height) {
                Ok(v) => v,
                Err(e) => {
                    return Err(e);
                },
            };
            let sx = compute_size_within_bound(w, bounds.0);
            let sy = compute_size_within_bound(h, bounds.1);
            draws.push(
                DrawCommand::FillPath {
                    id_chain: copy_chain(&my_chain),
                    transforms: copy_transforms(&my_transforms),
                    segments: copy_segments(&segs),
                    color: f,
                },
            );
            draws.push(
                DrawCommand::StrokePath {
                    id_chain: copy_chain(&my_chain),
                    transforms: copy_transforms(&my_transforms),
                    segments: segs,
                    color: sc,
                    width: sw,
                },
            );
            proof {
                assert(draws@.take(old(draws)@.len() as int) =~= old(draws)@);
            }
            let ghost pp2 = patches@;
            match cache.compute_common_patch(&my_chain, sx, sy, t) {
                Some(p) => {
                    patches.push(NativeMessage::CommonUpdate(p));
                },
                None => {},
            }
            proof {
                assert(patches@.take(old(patches)@.len() as int) =~= old(patches)@);
            }
            Ok(())
        },
        NodeKind::Image { path } => {
            let p = match eval_string(table, &runtime.stack, path) {
                Ok(v) => v,
                Err(e) => {
                    return Err(e);
                },
            };
            let w = match eval_size(table, &runtime.stack, &node.common.width) {
                Ok(v) => v,
                Err(e) => {
                    return Err(e);
                },
            };
            let h = match eval_size(table, &runtime.stack, &node.common.height) {
                Ok(v) => v,
                Err(e) => {
                    return Err(e);
                },
            };
            let sx = compute_size_within_bound(w, bounds.0);
            let sy = compute_size_within_bound(h, bounds.1);
            draws.push(
                DrawCommand::DrawImage {
                    id_chain: copy_chain(&my_chain),
                    transforms: copy_transforms(&my_transforms),
                    width: sx,
                    height: sy,
                    path: p.clone(),
                },
            );
            proof {
                assert(draws@.take(old(draws)@.len() as int) =~= old(draws)@);
            }
            match cache.compute_image_patch(&my_chain, p.as_str()) {
                Some(ip) => {
                    patches.push(NativeMessage::ImageLoad(ip));
                },
                None => {},
            }
            proof {
                assert(patches@.take(old(patches)@.len() as int) =~= old(patches)@);
            }
            Ok(())
        },
    }
}

/// Renders one child reference: a concrete node recurses directly; a virtual
/// instance pushes its repeat-item scope frame (inheriting the adoptees of
/// the enclosing frame, so slots keep projecting through repeats), renders
/// the repeat node's declared children under an id chain extended by the
/// instance's position, and pops the frame again.
fn render_child_ref<T: ExpressionTable>(
    nodes: &Vec<NodeInstance>,
    table: &T,
    runtime: &mut Runtime,
    cache: &mut PatchCache,
    draws: &mut Vec<DrawCommand>,
    patches: &mut Vec<NativeMessage>,
    visited: &mut Vec<Vec<u64>>,
    child: &ChildRef,
    base_chain: &Vec<u64>,
    transforms: &Vec<Transform2D>,
    bounds: (u64, u64),
    fuel: usize,
) -> (r: Result<(), RuntimeViolation>)
    requires
        arena_wf(nodes@),
        old(cache).wf(),
    ensures
        final(runtime).stack@ == old(runtime).stack@,
        final(runtime).native_message_queue == old(runtime).native_message_queue,
        final(cache).wf(),
        final(draws)@.len() >= old(draws)@.len(),
        final(draws)@.take(old(draws)@.len() as int) == old(draws)@,
        final(patches)@.len() >= old(patches)@.len(),
        final(patches)@.take(old(patches)@.len() as int) == old(patches)@,
        // an exhausted depth budget is the cyclic-graph violation
        fuel == 0 ==> r == Err::<(), RuntimeViolation>(RuntimeViolation::TraversalDepthExceeded),
        // a child reference outside the arena, or a virtual instance whose
        // node is not a repeat, is a dangling reference
        (fuel > 0 ==> ((child matches ChildRef::Node(id) && id >= nodes@.len()) ==> r == Err::<
            (),
            RuntimeViolation,
        >(RuntimeViolation::DanglingNodeReference))),
        (fuel > 0 ==> ((child matches ChildRef::Virtual(v) && (v.repeat_node >= nodes@.len() || !(
        nodes@[v.repeat_node as int].kind is Repeat))) ==> r == Err::<(), RuntimeViolation>(
            RuntimeViolation::DanglingNodeReference,
        ))),
    decreases fuel,
{
    proof {
        assert(draws@.take(draws@.len() as int) =~= draws@);
        assert(patches@.take(patches@.len() as int) =~= patches@);
    }
    if fuel == 0 {
        return Err(RuntimeViolation::TraversalDepthExceeded);
    }
    match child {
        ChildRef::Node(id) => {
            if *id < nodes.len() {
                recurse_render_node(
                    nodes,
                    table,
                    runtime,
                    cache,
                    draws,
                    patches,
                    visited,
                    *id,
                    base_chain,
                    transforms,
                    bounds,
                    fuel - 1,
                )
            } else {
                Err(RuntimeViolation::DanglingNodeReference)
            }
        },
        ChildRef::Virtual(v) => {
            if v.repeat_node >= nodes.len() {
                return Err(RuntimeViolation::DanglingNodeReference);
            }
            let children = match &nodes[v.repeat_node].kind {
                NodeKind::Repeat { children, .. } => children,
                _ => {
                    return Err(RuntimeViolation::DanglingNodeReference);
                },
            };
            proof {
                assert(node_children_wf(nodes@[v.repeat_node as int], nodes@.len()));
            }
            let inherited: Vec<ChildRef> = match runtime.peek_stack_frame() {
                Some(f) => clone_child_refs(&f.adoptees),
                None => Vec::new(),
            };
            let vchain = extend_chain(base_chain, v.index as u64);
            runtime.push_stack_frame(
                inherited,
                PropertiesCoproduct::RepeatItem {
                    datum: Box::new(clone_properties(&v.datum)),
                    i: v.index,
                },
                None,
            );
            let ghost pushed = runtime.stack@;
            let m = children.len();
            let mut k: usize = 0;
            while k < m
                invariant
                    arena_wf(nodes@),
                    (*child matches ChildRef::Virtual(vv) && vv == *v),
                    v.repeat_node < nodes@.len(),
                    nodes@[v.repeat_node as int].kind matches NodeKind::Repeat { children: c2, .. }
                        && c2@ == children@,
                    forall|j: int| 0 <= j < children@.len() ==> (#[trigger] children@[j])
                        < nodes@.len(),
                    m == children@.len(),
                    k <= m,
                    fuel >= 1,
                    runtime.stack@ == pushed,
                    pushed.len() > 0,
                    pushed.drop_last() == old(runtime).stack@,
                    runtime.native_message_queue == old(runtime).native_message_queue,
                    cache.wf(),
                    draws@.len() >= old(draws)@.len(),
                    draws@.take(old(draws)@.len() as int) == old(draws)@,
                    patches@.len() >= old(patches)@.len(),
                    patches@.take(old(patches)@.len() as int) == old(patches)@,
                decreases m - k,
            {
                let ghost pd = draws@;
                let ghost pp = patches@;
                let r = recurse_render_node(
                    nodes,
                    table,
                    runtime,
                    cache,
                    draws,
                    patches,
                    visited,
                    children[k],
                    &vchain,
                    transforms,
                    bounds,
                    fuel - 1,
                );
                proof {
                    lemma_prefix_chain(old(draws)@, pd, draws@);
                    lemma_prefix_chain(old(patches)@, pp, patches@);
                }
                match r {
                    Ok(()) => {},
                    Err(e) => {
                        runtime.pop_stack_frame();
                        return Err(e);
                    },
                }
                k += 1;
            }
            runtime.pop_stack_frame();
            Ok(())
        },
    }
}

/// What one frame's tick hands to the host: the draw commands of the
/// traversal and the native patch messages drained from the queue.
pub struct FrameOutput {
    pub draws: Vec<DrawCommand>,
    pub patches: Vec<NativeMessage>,
}

/// The engine: the instance arena and every piece of per-frame state.
pub struct PaxEngine<T: ExpressionTable> {
    pub expression_table: T,
    pub nodes: Vec<NodeInstance>,
    pub instance_registry: InstanceRegistry,
    pub runtime: Runtime,
    pub patch_cache: PatchCache,
    pub frames_elapsed: usize,
    pub root: Option<usize>,
    pub viewport: (u64, u64),
}

impl<T: ExpressionTable> PaxEngine<T> {
    /// The engine's structural invariant.
    pub open spec fn wf(&self) -> bool {
        &&& arena_wf(self.nodes@)
        &&& self.patch_cache.wf()
        &&& self.instance_registry.ids_bounded()
        &&& (self.root matches Some(r) ==> r < self.nodes@.len())
    }

    /// A fresh engine around an expression table: empty arena, empty scope
    /// stack, nothing cached, no root.
    pub fn new(expression_table: T, viewport: (u64, u64)) -> (r: PaxEngine<T>)
        ensures
            r.wf(),
            r.nodes@.len() == 0,
            r.runtime.stack@.len() == 0,
            r.runtime.native_message_queue@.len() == 0,
            r.patch_cache.entries@.len() == 0,
            r.instance_registry.next_id == 0,
            r.instance_registry.entries@.len() == 0,
            r.frames_elapsed == 0,
            r.root is None,
            r.viewport == viewport,
    {
        PaxEngine {
            expression_table,
            nodes: Vec::new(),
            instance_registry: InstanceRegistry::new(),
            runtime: Runtime::new(),
            patch_cache: PatchCache::new(),
            frames_elapsed: 0,
            root: None,
            viewport,
        }
    }

    /// Instantiates one node: mints its stable id, registers it, and appends
    /// it to the arena. Every child index the kind declares must already be
    /// in the arena.
    pub fn instantiate_node(&mut self, common: CommonProperties, kind: NodeKind) -> (idx: usize)
        requires
            old(self).wf(),
            old(self).instance_registry.next_id < u64::MAX,
            kind_children_wf(kind, old(self).nodes@.len()),
        ensures
            final(self).wf(),
            idx == old(self).nodes@.len(),
            final(self).nodes@.len() == old(self).nodes@.len() + 1,
            final(self).nodes@[idx as int].kind == kind,
            final(self).nodes@[idx as int].common == common,
            final(self).nodes@[idx as int].handler_registry is None,
            final(self).nodes@[idx as int].instance_id == old(self).instance_registry.next_id,
            forall|j: int|
                0 <= j < old(self).nodes@.len() ==> final(self).nodes@[j] == old(self).nodes@[j],
            final(self).instance_registry.spec_lookup(old(self).instance_registry.next_id)
                == Some(idx),
            final(self).root == old(self).root,
            final(self).runtime.stack@ == old(self).runtime.stack@,
            final(self).frames_elapsed == old(self).frames_elapsed,
            final(self).patch_cache == old(self).patch_cache,
    {
        self.instantiate_node_with_handlers(common, kind, None)
    }

    /// Instantiates one node together with its handler registry.
    pub fn instantiate_node_with_handlers(
        &mut self,
        common: CommonProperties,
        kind: NodeKind,
        handler_registry: Option<HandlerRegistry>,
    ) -> (idx: usize)
        requires
            old(self).wf(),
            old(self).instance_registry.next_id < u64::MAX,
            kind_children_wf(kind, old(self).nodes@.len()),
        ensures
            final(self).wf(),
            idx == old(self).nodes@.len(),
            final(self).nodes@.len() == old(self).nodes@.len() + 1,
            final(self).nodes@[idx as int].kind == kind,
            final(self).nodes@[idx as int].common == common,
            final(self).nodes@[idx as int].handler_registry == handler_registry,
            final(self).nodes@[idx as int].instance_id == old(self).instance_registry.next_id,
            forall|j: int|
                0 <= j < old(self).nodes@.len() ==> final(self).nodes@[j] == old(self).nodes@[j],
            final(self).instance_registry.spec_lookup(old(self).instance_registry.next_id)
                == Some(idx),
            final(self).root == old(self).root,
            final(self).runtime.stack@ == old(self).runtime.stack@,
            final(self).frames_elapsed == old(self).frames_elapsed,
            final(self).patch_cache == old(self).patch_cache,
    {
        let idx = self.nodes.len();
        let instance_id = self.instance_registry.mint_and_register(idx);
        self.nodes.push(NodeInstance { instance_id, common, kind, handler_registry });
        proof {
            assert(self.nodes@.drop_last() =~= old(self).nodes@);
            assert forall|i: int| 0 <= i < self.nodes@.len() implies node_children_wf(
                #[trigger] self.nodes@[i],
                self.nodes@.len(),
            ) by {
                if i < self.nodes@.len() - 1 {
                    assert(self.nodes@[i] == old(self).nodes@[i]);
                    assert(node_children_wf(self.nodes@[i], old(self).nodes@.len()));
                    lemma_children_wf_grow(self.nodes@[i], old(self).nodes@.len(), self.nodes@.len());
                } else {
                    lemma_children_wf_grow(self.nodes@[i], old(self).nodes@.len(), self.nodes@.len());
                }
            }
        }
        idx
    }

    /// Declares which node the traversal starts from.
    pub fn set_root(&mut self, root: usize)
        requires
            old(self).wf(),
            root < old(self).nodes@.len(),
        ensures
            final(self).wf(),
            final(self).root == Some(root),
            final(self).nodes == old(self).nodes,
            final(self).runtime.stack@ == old(self).runtime.stack@,
    {
        self.root = Some(root);
    }

    /// Advances the frame counter and walks the tree once, depth first from
    /// the root: properties are recomputed against the live scope stack,
    /// control flow is expanded afresh, draw commands are collected, native
    /// patches are diffed against the cache, and the cache is pruned to the
    /// id chains this frame addressed.
    ///
    /// However the traversal ends, the scope stack returns to its pre-frame
    /// depth and content. A fatal structural violation aborts the frame: no
    /// partial output reaches the host, and the message queue is exactly as
    /// it was.
    pub fn tick_and_render(&mut self) -> (r: Result<FrameOutput, RuntimeViolation>)
        requires
            old(self).wf(),
            old(self).frames_elapsed < usize::MAX,
        ensures
            final(self).wf(),
            final(self).runtime.stack@ == old(self).runtime.stack@,
            final(self).frames_elapsed == old(self).frames_elapsed + 1,
            r is Err ==> final(self).runtime.native_message_queue
                == old(self).runtime.native_message_queue,
            r is Ok ==> final(self).runtime.native_message_queue@.len() == 0,
            old(self).root is None ==> (r matches Ok(out) && out.draws@.len() == 0 && out.patches@
                == old(self).runtime.native_message_queue@),
            (old(self).root matches Some(rt) && literal_leaf(old(self).nodes@[rt as int]) ==> (r
                matches Ok(out) && out.draws@.len() >= 1)),
    {
        self.frames_elapsed = self.frames_elapsed + 1;
        let root = match self.root {
            Some(root) => root,
            None => {
                let visited: Vec<Vec<u64>> = Vec::new();
                self.patch_cache.retain_chains(&visited);
                let drained = self.runtime.take_native_message_queue();
                return Ok(FrameOutput { draws: Vec::new(), patches: drained });
            },
        };
        let mut draws: Vec<DrawCommand> = Vec::new();
        let mut patches: Vec<NativeMessage> = Vec::new();
        let mut visited: Vec<Vec<u64>> = Vec::new();
        let chain: Vec<u64> = Vec::new();
        let transforms: Vec<Transform2D> = Vec::new();
        let len = self.nodes.len();
        let fuel = if len < usize::MAX / 2 - 1 {
            2 * len + 2
        } else {
            usize::MAX
        };
        let r = recurse_render_node(
            &self.nodes,
            &self.expression_table,
            &mut self.runtime,
            &mut self.patch_cache,
            &mut draws,
            &mut patches,
            &mut visited,
            root,
            &chain,
            &transforms,
            self.viewport,
            fuel,
        );
        match r {
            Ok(()) => {
                self.patch_cache.retain_chains(&visited);
                let m = patches.len();
                let mut k: usize = 0;
                while k < m
                    invariant
                        k <= m,
                        patches@.len() == m - k,
                        self.wf(),
                        self.runtime.stack@ == old(self).runtime.stack@,
                        self.frames_elapsed == old(self).frames_elapsed + 1,
                    decreases m - k,
                {
                    let msg = patches.remove(0);
                    self.runtime.enqueue_native_message(msg);
                    k += 1;
                }
                let drained = self.runtime.take_native_message_queue();
                Ok(FrameOutput { draws, patches: drained })
            },
            Err(e) => Err(e),
        }
    }
}

proof fn lemma_prefix_chain<A>(base: Seq<A>, mid: Seq<A>, fin: Seq<A>)
    requires
        mid.len() >= base.len(),
        mid.take(base.len() as int) == base,
        fin.len() >= mid.len(),
        fin.take(mid.len() as int) == mid,
    ensures
        fin.len() >= base.len(),
        fin.take(base.len() as int) == base,
{
    assert forall|i: int| 0 <= i < base.len() implies fin.take(base.len() as int)[i] == base[i] by {
        assert(fin[i] == fin.take(mid.len() as int)[i]);
        assert(mid[i] == mid.take(base.len() as int)[i]);
    }
    assert(fin.take(base.len() as int) =~= base);
}

proof fn lemma_children_wf_grow(n: NodeInstance, small: nat, big: nat)
    requires
        node_children_wf(n, small),
        small <= big,
    ensures
        node_children_wf(n, big),
{
}

} // verus!

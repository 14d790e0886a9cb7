//! Control-flow expansion: the pure logic by which `Repeat`, `Conditional`
//! and `Slot` turn their per-frame inputs into concrete rendering children.

use vstd::prelude::*;

use crate::coproduct::PropertiesCoproduct;
use crate::coproduct::clone_properties;

verus! {

/// One virtual child synthesized by a repeat node for one source element.
/// Its rendering children are the repeat node's declared children; `datum`
/// and `index` become the repeat-item bindings of its scope frame.
pub struct VirtualInstance {
    /// Instance id of the repeat node that synthesized this instance.
    pub repeat_instance_id: u64,
    /// Arena index of the repeat node whose declared children it renders.
    pub repeat_node: usize,
    /// Position of the source element this instance is bound to.
    pub index: usize,
    /// The source element itself.
    pub datum: PropertiesCoproduct,
}

/// A reference to a rendering child: either a concrete node of the instance
/// arena, or a virtual instance synthesized by a repeat node this frame.
pub enum ChildRef {
    Node(usize),
    Virtual(VirtualInstance),
}

/// A structural copy of a child reference.
pub fn clone_child_ref(c: &ChildRef) -> (r: ChildRef)
    ensures
        r == *c,
{
    match c {
        ChildRef::Node(i) => ChildRef::Node(*i),
        ChildRef::Virtual(v) => ChildRef::Virtual(
            VirtualInstance {
                repeat_instance_id: v.repeat_instance_id,
                repeat_node: v.repeat_node,
                index: v.index,
                datum: clone_properties(&v.datum),
            },
        ),
    }
}

/// An element-for-element copy of a child list.
pub fn clone_child_refs(v: &Vec<ChildRef>) -> (r: Vec<ChildRef>)
    ensures
        r@ == v@,
{
    let mut r: Vec<ChildRef> = Vec::new();
    let n = v.len();
    let mut i: usize = 0;
    while i < n
        invariant
            n == v@.len(),
            i <= n,
            r@.len() == i,
            forall|j: int| 0 <= j < i ==> r@[j] == v@[j],
        decreases n - i,
    {
        r.push(clone_child_ref(&v[i]));
        i += 1;
    }
    assert(r@ =~= v@);
    r
}

/// The elements of a numeric repeat source: one property bag per value of
/// the half-open range, in order.
pub fn range_elems(start: isize, end: isize) -> (r: Vec<PropertiesCoproduct>)
    ensures
        r@.len() == if start <= end {
            end - start
        } else {
            0
        },
        forall|k: int|
            0 <= k < r@.len() ==> r@[k] == PropertiesCoproduct::Isize((start + k) as isize),
{
    let mut r: Vec<PropertiesCoproduct> = Vec::new();
    let mut v: isize = start;
    while v < end
        invariant
            start <= v <= end || (end < start && v == start),
            r@.len() == v - start,
            forall|k: int|
                0 <= k < r@.len() ==> r@[k] == PropertiesCoproduct::Isize((start + k) as isize),
        decreases end - v,
    {
        r.push(PropertiesCoproduct::Isize(v));
        v += 1;
    }
    r
}

/// Expands a repeat source into its virtual instances: exactly one per
/// source element, bound to that element and its position, in order.
pub fn expand_repeat(
    repeat_instance_id: u64,
    repeat_node: usize,
    elems: Vec<PropertiesCoproduct>,
) -> (r: Vec<ChildRef>)
    ensures
        r@.len() == elems@.len(),
        forall|k: int|
            0 <= k < r@.len() ==> ((#[trigger] r@[k]) matches ChildRef::Virtual(v) && {
                &&& v.repeat_instance_id == repeat_instance_id
                &&& v.repeat_node == repeat_node
                &&& v.index == k
                &&& v.datum == elems@[k]
            }),
{
    let mut r: Vec<ChildRef> = Vec::new();
    let n = elems.len();
    let mut i: usize = 0;
    while i < n
        invariant
            n == elems@.len(),
            i <= n,
            r@.len() == i,
            forall|k: int|
                0 <= k < i ==> ((#[trigger] r@[k]) matches ChildRef::Virtual(v) && {
                    &&& v.repeat_instance_id == repeat_instance_id
                    &&& v.repeat_node == repeat_node
                    &&& v.index == k
                    &&& v.datum == elems@[k]
                }),
        decreases n - i,
    {
        r.push(
            ChildRef::Virtual(
                VirtualInstance {
                    repeat_instance_id,
                    repeat_node,
                    index: i,
                    datum: clone_properties(&elems[i]),
                },
            ),
        );
        i += 1;
    }
    r
}

/// Two virtual instances of one expansion are bound to distinct indices, so
/// no two of them are the same instance.
pub proof fn lemma_virtual_instances_distinct(r: Seq<ChildRef>, i: int, j: int)
    requires
        forall|k: int|
            0 <= k < r.len() ==> ((#[trigger] r[k]) matches ChildRef::Virtual(v) && v.index == k),
        0 <= i < r.len(),
        0 <= j < r.len(),
        i != j,
    ensures
        r[i] != r[j],
{
    assert(r[i] matches ChildRef::Virtual(v) && v.index == i);
    assert(r[j] matches ChildRef::Virtual(v) && v.index == j);
}

/// The rendering children a conditional node reports: exactly its declared
/// children while its condition holds, and none otherwise — a child set
/// computed afresh from the condition each frame, never retained.
pub fn conditional_children(children: &Vec<usize>, condition: bool) -> (r: Vec<ChildRef>)
    ensures
        condition ==> r@.len() == children@.len() && forall|k: int|
            0 <= k < r@.len() ==> (#[trigger] r@[k]) == ChildRef::Node(children@[k]),
        !condition ==> r@.len() == 0,
{
    let mut r: Vec<ChildRef> = Vec::new();
    if condition {
        let n = children.len();
        let mut i: usize = 0;
        while i < n
            invariant
                n == children@.len(),
                i <= n,
                r@.len() == i,
                forall|k: int| 0 <= k < i ==> (#[trigger] r@[k]) == ChildRef::Node(children@[k]),
            decreases n - i,
        {
            r.push(ChildRef::Node(children[i]));
            i += 1;
        }
    }
    r
}

/// The rendering children a slot node reports against an adoptee list: the
/// adoptee at the computed index if the index is in range, and nothing for
/// an out-of-range index or an empty list.
pub fn slot_children(adoptees: &Vec<ChildRef>, index: usize) -> (r: Vec<ChildRef>)
    ensures
        index < adoptees@.len() ==> r@.len() == 1 && r@[0] == adoptees@[index as int],
        index >= adoptees@.len() ==> r@.len() == 0,
{
    let mut r: Vec<ChildRef> = Vec::new();
    if index < adoptees.len() {
        r.push(clone_child_ref(&adoptees[index]));
    }
    r
}

} // verus!

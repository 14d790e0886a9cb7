//! The engine-owned scope stack: one frame per component boundary, carrying
//! the component's property bag, the nodes it was handed by its invoker
//! ("adoptees") and an optional timeline — plus the outbound queue of native
//! messages drained by the host once per frame.

use vstd::prelude::*;

use crate::controlflow::ChildRef;
use crate::coproduct::PropertiesCoproduct;
use crate::patches::NativeMessage;

verus! {

/// A runtime structural invariant violation: compiled artifacts and runtime
/// disagree about the shape of the tree or the types of values. Fatal for
/// the frame being rendered; absent-data conditions are not violations.
#[derive(Clone, Copy, PartialEq, Eq, Structural, Debug)]
pub enum RuntimeViolation {
    /// An expression returned a coproduct variant the call site cannot take.
    CoproductDowncastMismatch,
    /// An expression addressed a scope frame beyond the stack depth.
    StackOffsetOutOfBounds,
    /// The traversal descended deeper than the instance arena allows,
    /// indicating a cyclic node graph.
    TraversalDepthExceeded,
    /// A child reference addressed no node of the instance arena.
    DanglingNodeReference,
}

/// A snapshot of a timeline attached to a scope frame.
#[derive(Clone, Copy, PartialEq, Eq, Structural, Debug)]
pub struct TimelineSnapshot {
    pub playhead_position: usize,
    pub frame_count: usize,
}

/// One level of the scope stack.
pub struct StackFrame {
    /// The nodes handed to the component from its point of use.
    pub adoptees: Vec<ChildRef>,
    /// The component's property bag.
    pub properties: PropertiesCoproduct,
    /// An optional timeline governing the subtree.
    pub timeline: Option<TimelineSnapshot>,
}

impl StackFrame {
    /// The adoptee at position `n`, if the list is that long.
    pub fn nth_adoptee(&self, n: usize) -> (r: Option<&ChildRef>)
        ensures
            n < self.adoptees@.len() ==> (r matches Some(c) && *c == self.adoptees@[n as int]),
            n >= self.adoptees@.len() ==> r is None,
    {
        if n < self.adoptees.len() {
            Some(&self.adoptees[n])
        } else {
            None
        }
    }
}

/// The engine-owned runtime state threaded through a frame's traversal.
pub struct Runtime {
    /// The scope stack, bottom first.
    pub stack: Vec<StackFrame>,
    /// Outbound native messages, drained by the host each frame.
    pub native_message_queue: Vec<NativeMessage>,
}

impl Runtime {
    /// An empty runtime: no frames, no pending messages.
    pub fn new() -> (r: Runtime)
        ensures
            r.stack@.len() == 0,
            r.native_message_queue@.len() == 0,
    {
        Runtime { stack: Vec::new(), native_message_queue: Vec::new() }
    }

    /// Pushes a new top frame for a component boundary.
    pub fn push_stack_frame(
        &mut self,
        adoptees: Vec<ChildRef>,
        properties: PropertiesCoproduct,
        timeline: Option<TimelineSnapshot>,
    )
        ensures
            final(self).stack@ == old(self).stack@.push(
                StackFrame { adoptees, properties, timeline },
            ),
            final(self).native_message_queue == old(self).native_message_queue,
    {
        self.stack.push(StackFrame { adoptees, properties, timeline });
    }

    /// Pops the top frame; on an empty stack there is nothing to pop.
    pub fn pop_stack_frame(&mut self)
        ensures
            old(self).stack@.len() > 0 ==> final(self).stack@ == old(self).stack@.drop_last(),
            old(self).stack@.len() == 0 ==> final(self).stack@ == old(self).stack@,
            final(self).native_message_queue == old(self).native_message_queue,
    {
        let _popped = self.stack.pop();
        proof {
            if old(self).stack@.len() > 0 {
                assert(self.stack@ =~= old(self).stack@.drop_last());
            } else {
                assert(self.stack@ =~= old(self).stack@);
            }
        }
    }

    /// The top frame, if the stack is non-empty.
    pub fn peek_stack_frame(&self) -> (r: Option<&StackFrame>)
        ensures
            self.stack@.len() > 0 ==> (r matches Some(f) && *f == self.stack@.last()),
            self.stack@.len() == 0 ==> r is None,
    {
        let n = self.stack.len();
        if n > 0 {
            Some(&self.stack[n - 1])
        } else {
            None
        }
    }

    /// The frame `offset` levels below the top (0 is the top). An offset at
    /// or beyond the stack depth finds no frame: the compiled artifacts and
    /// the runtime disagree, which the caller must treat as fatal.
    pub fn resolve(&self, offset: usize) -> (r: Option<&StackFrame>)
        ensures
            offset < self.stack@.len() ==> (r matches Some(f) && *f == self.stack@[
                self.stack@.len() - 1 - offset
            ]),
            offset >= self.stack@.len() ==> r is None,
    {
        let n = self.stack.len();
        if offset < n {
            Some(&self.stack[n - 1 - offset])
        } else {
            None
        }
    }

    /// Appends a message to the outbound native queue.
    pub fn enqueue_native_message(&mut self, msg: NativeMessage)
        ensures
            final(self).native_message_queue@ == old(self).native_message_queue@.push(msg),
            final(self).stack == old(self).stack,
    {
        self.native_message_queue.push(msg);
    }

    /// Hands the queued messages to the host, leaving the queue empty.
    pub fn take_native_message_queue(&mut self) -> (r: Vec<NativeMessage>)
        ensures
            r@ == old(self).native_message_queue@,
            final(self).native_message_queue@.len() == 0,
            final(self).stack == old(self).stack,
    {
        let mut out: Vec<NativeMessage> = Vec::new();
        core::mem::swap(&mut out, &mut self.native_message_queue);
        out
    }
}

} // verus!

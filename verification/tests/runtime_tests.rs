use pax_core::controlflow::ChildRef;
use pax_core::coproduct::PropertiesCoproduct;
use pax_core::registry::InstanceRegistry;
use pax_core::runtime::Runtime;
use pax_core::runtime::StackFrame;

fn frame_with_adoptees(adoptees: Vec<ChildRef>) -> StackFrame {
    StackFrame { adoptees, properties: PropertiesCoproduct::Empty, timeline: None }
}

#[test]
fn stack_push_peek_pop_balance() {
    let mut rt = Runtime::new();
    assert!(rt.peek_stack_frame().is_none());
    rt.push_stack_frame(Vec::new(), PropertiesCoproduct::Usize(1), None);
    rt.push_stack_frame(Vec::new(), PropertiesCoproduct::Usize(2), None);
    assert_eq!(rt.stack.len(), 2);
    match rt.peek_stack_frame().unwrap().properties {
        PropertiesCoproduct::Usize(v) => assert_eq!(v, 2),
        _ => panic!("wrong top frame"),
    }
    rt.pop_stack_frame();
    rt.pop_stack_frame();
    assert_eq!(rt.stack.len(), 0);
    rt.pop_stack_frame();
    assert_eq!(rt.stack.len(), 0);
}

#[test]
fn resolve_walks_from_the_top() {
    let mut rt = Runtime::new();
    rt.push_stack_frame(Vec::new(), PropertiesCoproduct::Usize(10), None);
    rt.push_stack_frame(Vec::new(), PropertiesCoproduct::Usize(20), None);
    match rt.resolve(0).unwrap().properties {
        PropertiesCoproduct::Usize(v) => assert_eq!(v, 20),
        _ => panic!("wrong frame at offset 0"),
    }
    match rt.resolve(1).unwrap().properties {
        PropertiesCoproduct::Usize(v) => assert_eq!(v, 10),
        _ => panic!("wrong frame at offset 1"),
    }
    assert!(rt.resolve(2).is_none());
}

#[test]
fn nth_adoptee_by_index() {
    let frame = frame_with_adoptees(vec![ChildRef::Node(7), ChildRef::Node(9)]);
    match frame.nth_adoptee(0) {
        Some(ChildRef::Node(id)) => assert_eq!(*id, 7),
        _ => panic!("expected first adoptee"),
    }
    match frame.nth_adoptee(1) {
        Some(ChildRef::Node(id)) => assert_eq!(*id, 9),
        _ => panic!("expected second adoptee"),
    }
    assert!(frame.nth_adoptee(2).is_none());
    let empty = frame_with_adoptees(Vec::new());
    assert!(empty.nth_adoptee(0).is_none());
}

#[test]
fn registry_mints_monotonic_unique_ids() {
    let mut reg = InstanceRegistry::new();
    let a = reg.mint_and_register(0);
    let b = reg.mint_and_register(1);
    let c = reg.mint_and_register(2);
    assert_eq!(a, 0);
    assert_eq!(b, 1);
    assert_eq!(c, 2);
    assert_eq!(reg.lookup(a), Some(0));
    assert_eq!(reg.lookup(b), Some(1));
    assert_eq!(reg.lookup(c), Some(2));
    assert_eq!(reg.lookup(99), None);
}

#[test]
fn registry_register_and_lookup() {
    let mut reg = InstanceRegistry::new();
    let id = reg.mint_id();
    reg.register(id, 5);
    assert_eq!(reg.lookup(id), Some(5));
}

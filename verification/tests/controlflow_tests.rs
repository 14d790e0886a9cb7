use pax_core::controlflow::ChildRef;
use pax_core::controlflow::conditional_children;
use pax_core::controlflow::expand_repeat;
use pax_core::controlflow::range_elems;
use pax_core::controlflow::slot_children;
use pax_core::coproduct::PropertiesCoproduct;

#[test]
fn repeat_over_numeric_range_binds_each_index() {
    let elems = range_elems(0, 5);
    assert_eq!(elems.len(), 5);
    let virtuals = expand_repeat(42, 7, elems);
    assert_eq!(virtuals.len(), 5);
    for (k, v) in virtuals.iter().enumerate() {
        match v {
            ChildRef::Virtual(vi) => {
                assert_eq!(vi.repeat_instance_id, 42);
                assert_eq!(vi.repeat_node, 7);
                assert_eq!(vi.index, k);
                match vi.datum {
                    PropertiesCoproduct::Isize(x) => assert_eq!(x, k as isize),
                    _ => panic!("range element should be a numeric bag"),
                }
            },
            _ => panic!("repeat must synthesize virtual instances"),
        }
    }
}

#[test]
fn repeat_over_collection_binds_each_element_in_order() {
    let elems = vec![
        PropertiesCoproduct::Str("x".to_string()),
        PropertiesCoproduct::Str("y".to_string()),
        PropertiesCoproduct::Str("z".to_string()),
    ];
    let virtuals = expand_repeat(1, 0, elems);
    assert_eq!(virtuals.len(), 3);
    let expected = ["x", "y", "z"];
    for (k, v) in virtuals.iter().enumerate() {
        match v {
            ChildRef::Virtual(vi) => {
                assert_eq!(vi.index, k);
                match &vi.datum {
                    PropertiesCoproduct::Str(s) => assert_eq!(s, expected[k]),
                    _ => panic!("element bag lost"),
                }
            },
            _ => panic!("repeat must synthesize virtual instances"),
        }
    }
}

#[test]
fn empty_and_backward_ranges_produce_nothing() {
    assert_eq!(range_elems(3, 3).len(), 0);
    assert_eq!(range_elems(5, 0).len(), 0);
    assert_eq!(expand_repeat(0, 0, Vec::new()).len(), 0);
}

#[test]
fn negative_range_binds_source_values() {
    let elems = range_elems(-2, 1);
    assert_eq!(elems.len(), 3);
    match elems[0] {
        PropertiesCoproduct::Isize(v) => assert_eq!(v, -2),
        _ => panic!("wrong element"),
    }
}

#[test]
fn conditional_reports_children_iff_true() {
    let children = vec![4usize];
    let on = conditional_children(&children, true);
    assert_eq!(on.len(), 1);
    match on[0] {
        ChildRef::Node(id) => assert_eq!(id, 4),
        _ => panic!("conditional children are concrete nodes"),
    }
    let off = conditional_children(&children, false);
    assert_eq!(off.len(), 0);
    // toggling recomputes from the condition alone: nothing stale survives
    let on_again = conditional_children(&children, true);
    assert_eq!(on_again.len(), 1);
}

#[test]
fn slot_projects_the_indexed_adoptee_or_nothing() {
    let adoptees = vec![ChildRef::Node(10), ChildRef::Node(11), ChildRef::Node(12)];
    for i in 0..3usize {
        let r = slot_children(&adoptees, i);
        assert_eq!(r.len(), 1);
        match r[0] {
            ChildRef::Node(id) => assert_eq!(id, 10 + i),
            _ => panic!("slot forwards the adoptee"),
        }
    }
    assert_eq!(slot_children(&adoptees, 3).len(), 0);
    assert_eq!(slot_children(&Vec::new(), 0).len(), 0);
}

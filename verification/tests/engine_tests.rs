use pax_core::coproduct::PropertiesCoproduct;
use pax_core::coproduct::TypesCoproduct;
use pax_core::engine::CommonProperties;
use pax_core::engine::HandlerRegistry;
use pax_core::engine::NodeKind;
use pax_core::engine::PaxEngine;
use pax_core::expressions::PropertyBinding;
use pax_core::expressions::SimpleExpression;
use pax_core::expressions::SimpleExpressionTable;
use pax_core::patches::NativeMessage;
use pax_core::rendering::Color;
use pax_core::rendering::DrawCommand;
use pax_core::rendering::LineSegmentData;
use pax_core::rendering::PathSegment;
use pax_core::rendering::PointI;
use pax_core::runtime::RuntimeViolation;

fn empty_table() -> SimpleExpressionTable {
    SimpleExpressionTable { entries: Vec::new() }
}

fn table_with(entries: Vec<(usize, SimpleExpression)>) -> SimpleExpressionTable {
    SimpleExpressionTable { entries }
}

fn image_kind(path: &str) -> NodeKind {
    NodeKind::Image { path: PropertyBinding::literal(path.to_string()) }
}

fn path_kind() -> NodeKind {
    NodeKind::Path {
        fill: PropertyBinding::literal(Color { r: 255, g: 0, b: 0, a: 255 }),
        stroke_color: PropertyBinding::literal(Color { r: 0, g: 0, b: 0, a: 255 }),
        stroke_width: PropertyBinding::literal(2),
        segments: PropertyBinding::literal(vec![PathSegment::LineSegment(LineSegmentData {
            start: PointI { x: 0, y: 0 },
            end: PointI { x: 10, y: 10 },
        })]),
    }
}

fn component_kind(template: Vec<usize>, adoptees: Vec<usize>) -> NodeKind {
    NodeKind::Component {
        template,
        adoptees,
        properties: PropertiesCoproduct::Empty,
        timeline: None,
    }
}

fn range_repeat_kind(start: isize, end: isize, children: Vec<usize>) -> NodeKind {
    NodeKind::Repeat {
        source_range: Some(PropertyBinding::literal((start, end))),
        source_list: None,
        children,
    }
}

fn image_chains(draws: &[DrawCommand]) -> Vec<Vec<u64>> {
    draws
        .iter()
        .filter_map(|d| match d {
            DrawCommand::DrawImage { id_chain, .. } => Some(id_chain.clone()),
            _ => None,
        })
        .collect()
}

#[test]
fn stack_depth_returns_to_preframe_value() {
    let mut engine = PaxEngine::new(empty_table(), (800, 600));
    let leaf = engine.instantiate_node(CommonProperties::plain(), image_kind("leaf.png"));
    let inner = engine.instantiate_node(
        CommonProperties::plain(),
        range_repeat_kind(0, 3, vec![leaf]),
    );
    let root = engine.instantiate_node(CommonProperties::plain(), component_kind(vec![inner], vec![]));
    engine.set_root(root);
    assert_eq!(engine.runtime.stack.len(), 0);
    let out = engine.tick_and_render().expect("frame renders");
    assert_eq!(engine.runtime.stack.len(), 0);
    assert_eq!(out.draws.len(), 3);
}

#[test]
fn nested_repeats_yield_six_distinct_leaf_chains() {
    let mut engine = PaxEngine::new(empty_table(), (800, 600));
    let leaf = engine.instantiate_node(CommonProperties::plain(), image_kind("leaf.png"));
    let inner = engine.instantiate_node(
        CommonProperties::plain(),
        range_repeat_kind(0, 3, vec![leaf]),
    );
    let outer = engine.instantiate_node(
        CommonProperties::plain(),
        range_repeat_kind(0, 2, vec![inner]),
    );
    let root = engine.instantiate_node(CommonProperties::plain(), component_kind(vec![outer], vec![]));
    engine.set_root(root);
    let out = engine.tick_and_render().expect("frame renders");
    let chains = image_chains(&out.draws);
    assert_eq!(chains.len(), 6);
    for i in 0..chains.len() {
        for j in 0..chains.len() {
            if i != j {
                assert_ne!(chains[i], chains[j]);
            }
        }
    }
}

#[test]
fn conditional_toggling_updates_children_without_stale_output() {
    let mut engine = PaxEngine::new(
        table_with(vec![(1, SimpleExpression::Constant(TypesCoproduct::Bool(true)))]),
        (800, 600),
    );
    let leaf = engine.instantiate_node(CommonProperties::plain(), path_kind());
    let cond = engine.instantiate_node(
        CommonProperties::plain(),
        NodeKind::Conditional {
            condition: PropertyBinding::expression(1, false),
            children: vec![leaf],
        },
    );
    let root = engine.instantiate_node(CommonProperties::plain(), component_kind(vec![cond], vec![]));
    engine.set_root(root);

    let on = engine.tick_and_render().expect("frame renders");
    assert_eq!(on.draws.len(), 2); // the path's fill and stroke

    engine.expression_table =
        table_with(vec![(1, SimpleExpression::Constant(TypesCoproduct::Bool(false)))]);
    let off = engine.tick_and_render().expect("frame renders");
    assert_eq!(off.draws.len(), 0);

    engine.expression_table =
        table_with(vec![(1, SimpleExpression::Constant(TypesCoproduct::Bool(true)))]);
    let back_on = engine.tick_and_render().expect("frame renders");
    assert_eq!(back_on.draws.len(), 2);
}

#[test]
fn slot_projects_adoptee_into_template() {
    let mut engine = PaxEngine::new(empty_table(), (800, 600));
    let adoptee = engine.instantiate_node(CommonProperties::plain(), image_kind("adopted.png"));
    let slot = engine.instantiate_node(
        CommonProperties::plain(),
        NodeKind::Slot { index: PropertyBinding::literal(0) },
    );
    let root = engine.instantiate_node(
        CommonProperties::plain(),
        component_kind(vec![slot], vec![adoptee]),
    );
    engine.set_root(root);
    let out = engine.tick_and_render().expect("frame renders");
    match &out.draws[..] {
        [DrawCommand::DrawImage { path, .. }] => assert_eq!(path, "adopted.png"),
        _ => panic!("slot should render exactly the projected adoptee"),
    }
}

#[test]
fn slot_with_out_of_range_index_renders_nothing() {
    let mut engine = PaxEngine::new(empty_table(), (800, 600));
    let adoptee = engine.instantiate_node(CommonProperties::plain(), image_kind("adopted.png"));
    let slot = engine.instantiate_node(
        CommonProperties::plain(),
        NodeKind::Slot { index: PropertyBinding::literal(5) },
    );
    let root = engine.instantiate_node(
        CommonProperties::plain(),
        component_kind(vec![slot], vec![adoptee]),
    );
    engine.set_root(root);
    let out = engine.tick_and_render().expect("frame renders");
    assert_eq!(out.draws.len(), 0);
}

#[test]
fn repeat_index_drives_slot_projection_in_order() {
    // a slot whose index is the repeat iteration's own binding `i`
    let mut engine = PaxEngine::new(
        table_with(vec![(5, SimpleExpression::RepeatIndexAt { offset: 0 })]),
        (800, 600),
    );
    let img_a = engine.instantiate_node(CommonProperties::plain(), image_kind("a.png"));
    let img_b = engine.instantiate_node(CommonProperties::plain(), image_kind("b.png"));
    let slot = engine.instantiate_node(
        CommonProperties::plain(),
        NodeKind::Slot { index: PropertyBinding::expression(5, 0) },
    );
    let repeat = engine.instantiate_node(
        CommonProperties::plain(),
        range_repeat_kind(0, 2, vec![slot]),
    );
    let root = engine.instantiate_node(
        CommonProperties::plain(),
        component_kind(vec![repeat], vec![img_a, img_b]),
    );
    engine.set_root(root);
    let out = engine.tick_and_render().expect("frame renders");
    let paths: Vec<String> = out
        .draws
        .iter()
        .filter_map(|d| match d {
            DrawCommand::DrawImage { path, .. } => Some(path.clone()),
            _ => None,
        })
        .collect();
    assert_eq!(paths, vec!["a.png".to_string(), "b.png".to_string()]);
}

#[test]
fn unchanged_second_frame_emits_no_patches() {
    let mut engine = PaxEngine::new(empty_table(), (800, 600));
    let leaf = engine.instantiate_node(CommonProperties::plain(), image_kind("logo.png"));
    let root = engine.instantiate_node(CommonProperties::plain(), component_kind(vec![leaf], vec![]));
    engine.set_root(root);

    let first = engine.tick_and_render().expect("frame renders");
    assert_eq!(first.patches.len(), 1);
    match &first.patches[0] {
        NativeMessage::ImageLoad(p) => assert_eq!(p.path.as_deref(), Some("logo.png")),
        _ => panic!("image node emits an image patch"),
    }

    let second = engine.tick_and_render().expect("frame renders");
    assert_eq!(second.patches.len(), 0);
    assert_eq!(second.draws.len(), 1);
}

#[test]
fn downcast_mismatch_aborts_the_frame() {
    let mut engine = PaxEngine::new(
        table_with(vec![(9, SimpleExpression::Constant(TypesCoproduct::Str("red".to_string())))]),
        (800, 600),
    );
    let slot = engine.instantiate_node(
        CommonProperties::plain(),
        NodeKind::Slot { index: PropertyBinding::expression(9, 0) },
    );
    let root = engine.instantiate_node(CommonProperties::plain(), component_kind(vec![slot], vec![]));
    engine.set_root(root);
    let r = engine.tick_and_render();
    assert_eq!(r.err(), Some(RuntimeViolation::CoproductDowncastMismatch));
    // even an aborted frame leaves the stack balanced
    assert_eq!(engine.runtime.stack.len(), 0);
}

#[test]
fn engine_without_root_renders_nothing() {
    let mut engine = PaxEngine::new(empty_table(), (100, 100));
    let out = engine.tick_and_render().expect("empty frame");
    assert_eq!(out.draws.len(), 0);
    assert_eq!(out.patches.len(), 0);
    assert_eq!(engine.frames_elapsed, 1);
}

#[test]
fn handler_registry_travels_with_the_node() {
    let mut engine = PaxEngine::new(empty_table(), (100, 100));
    let with = engine.instantiate_node_with_handlers(
        CommonProperties::plain(),
        image_kind("x.png"),
        Some(HandlerRegistry {
            click_handlers: vec!["self.handle_click".to_string()],
            scroll_handlers: vec![],
        }),
    );
    let without = engine.instantiate_node(CommonProperties::plain(), image_kind("y.png"));
    let reg = engine.nodes[with].get_handler_registry().expect("registry kept");
    assert_eq!(reg.click_handlers, vec!["self.handle_click".to_string()]);
    assert!(engine.nodes[without].get_handler_registry().is_none());
}

#[test]
fn repeat_over_collection_binds_elements_through_expressions() {
    // each iteration's image path is the repeat element itself
    let mut engine = PaxEngine::new(
        table_with(vec![(6, SimpleExpression::RepeatElemAt { offset: 0 })]),
        (800, 600),
    );
    let img = engine.instantiate_node(
        CommonProperties::plain(),
        NodeKind::Image { path: PropertyBinding::expression(6, "?".to_string()) },
    );
    let repeat = engine.instantiate_node(
        CommonProperties::plain(),
        NodeKind::Repeat {
            source_range: None,
            source_list: Some(PropertyBinding::literal(vec![
                PropertiesCoproduct::Str("x.png".to_string()),
                PropertiesCoproduct::Str("y.png".to_string()),
                PropertiesCoproduct::Str("z.png".to_string()),
            ])),
            children: vec![img],
        },
    );
    let root = engine.instantiate_node(
        CommonProperties::plain(),
        component_kind(vec![repeat], vec![]),
    );
    engine.set_root(root);
    let out = engine.tick_and_render().expect("frame renders");
    let paths: Vec<String> = out
        .draws
        .iter()
        .filter_map(|d| match d {
            DrawCommand::DrawImage { path, .. } => Some(path.clone()),
            _ => None,
        })
        .collect();
    assert_eq!(
        paths,
        vec!["x.png".to_string(), "y.png".to_string(), "z.png".to_string()]
    );
}

#[test]
fn control_flow_adoptees_flatten_before_projection() {
    // a conditional and a repeat among the adoptees expand before slots
    // project them: the frame sees [conditional's child, repeat's 2 virtuals]
    let mut engine = PaxEngine::new(
        table_with(vec![(1, SimpleExpression::Constant(TypesCoproduct::Bool(true)))]),
        (800, 600),
    );
    let img_c = engine.instantiate_node(CommonProperties::plain(), image_kind("cond.png"));
    let cond = engine.instantiate_node(
        CommonProperties::plain(),
        NodeKind::Conditional {
            condition: PropertyBinding::expression(1, false),
            children: vec![img_c],
        },
    );
    let img_r = engine.instantiate_node(CommonProperties::plain(), image_kind("rep.png"));
    let repeat = engine.instantiate_node(
        CommonProperties::plain(),
        range_repeat_kind(0, 2, vec![img_r]),
    );
    let slot0 = engine.instantiate_node(
        CommonProperties::plain(),
        NodeKind::Slot { index: PropertyBinding::literal(0) },
    );
    let slot1 = engine.instantiate_node(
        CommonProperties::plain(),
        NodeKind::Slot { index: PropertyBinding::literal(1) },
    );
    let slot2 = engine.instantiate_node(
        CommonProperties::plain(),
        NodeKind::Slot { index: PropertyBinding::literal(2) },
    );
    let root = engine.instantiate_node(
        CommonProperties::plain(),
        component_kind(vec![slot0, slot1, slot2], vec![cond, repeat]),
    );
    engine.set_root(root);
    let out = engine.tick_and_render().expect("frame renders");
    let paths: Vec<String> = out
        .draws
        .iter()
        .filter_map(|d| match d {
            DrawCommand::DrawImage { path, .. } => Some(path.clone()),
            _ => None,
        })
        .collect();
    assert_eq!(
        paths,
        vec!["cond.png".to_string(), "rep.png".to_string(), "rep.png".to_string()]
    );

    // with the condition off, the flattened list shrinks to the two virtuals
    engine.expression_table =
        table_with(vec![(1, SimpleExpression::Constant(TypesCoproduct::Bool(false)))]);
    let out2 = engine.tick_and_render().expect("frame renders");
    let paths2: Vec<String> = out2
        .draws
        .iter()
        .filter_map(|d| match d {
            DrawCommand::DrawImage { path, .. } => Some(path.clone()),
            _ => None,
        })
        .collect();
    assert_eq!(paths2, vec!["rep.png".to_string(), "rep.png".to_string()]);
}

#[test]
fn literal_leaf_root_always_renders() {
    let mut engine = PaxEngine::new(empty_table(), (640, 480));
    let leaf = engine.instantiate_node(CommonProperties::plain(), image_kind("only.png"));
    engine.set_root(leaf);
    let out = engine.tick_and_render().expect("a literal leaf cannot fail");
    assert_eq!(out.draws.len(), 1);
    match &out.draws[0] {
        DrawCommand::DrawImage { id_chain, path, .. } => {
            assert_eq!(path, "only.png");
            assert_eq!(id_chain.len(), 1);
        },
        _ => panic!("an image leaf draws an image"),
    }
}

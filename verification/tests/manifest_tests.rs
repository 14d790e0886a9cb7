use pax_core::identifiers::escape_identifier;
use pax_core::identifiers::replace_all;
use pax_core::identifiers::snake_case_identifier;
use pax_core::manifest::ComponentDefinition;
use pax_core::manifest::EventDefinition;
use pax_core::manifest::ExpressionSpecInvocation;
use pax_core::manifest::HostCrateInfo;
use pax_core::manifest::PaxManifest;
use pax_core::manifest::PropertyDefinition;
use pax_core::manifest::RunTarget;
use pax_core::manifest::TypeDefinition;
use pax_core::manifest::TypeTable;
use pax_core::manifest::ValueDefinition;
use pax_core::manifest::generate_bound_events;
use pax_core::manifest::generate_events_map;
use pax_core::manifest::get_primitive_type_table;
use pax_core::manifest::update_property_prefixes_in_place;

fn component_named(type_id: &str) -> ComponentDefinition {
    ComponentDefinition {
        type_id: type_id.to_string(),
        type_id_escaped: escape_identifier(type_id),
        is_main_component: false,
        is_primitive: false,
        is_struct_only_component: false,
        pascal_identifier: "Example".to_string(),
        module_location: "crate".to_string(),
        primitive_instance_import_path: None,
        template: None,
        settings: None,
        events: None,
    }
}

#[test]
fn escape_identifier_encodes_punctuation() {
    assert_eq!(
        escape_identifier("std::vec::Vec<std::rc::Rc<PropertiesCoproduct>>"),
        "stdCOCOvecCOCOVecLABRstdCOCOrcCOCORcLABRPropertiesCoproductRABRRABR"
    );
    assert_eq!(escape_identifier("std::ops::Range<isize>"), "stdCOCOopsCOCORangeLABRisizeRABR");
    assert_eq!(escape_identifier("f64"), "f64");
    assert_eq!(escape_identifier("a.b-c#d"), "aPERIbHYPHcHASHd");
}

#[test]
fn snake_case_flattens_path_separators() {
    assert_eq!(snake_case_identifier("crate::grids::RectDef"), "crate_grids_RectDef");
    assert_eq!(snake_case_identifier("a/b\\c>d<e.f"), "a_b_c_d_e_f");
}

#[test]
fn get_snake_case_id_uses_type_id() {
    let cd = component_named("crate::hello::HelloWorld");
    assert_eq!(cd.get_snake_case_id(), "crate_hello_HelloWorld");
}

#[test]
fn replace_all_is_left_to_right() {
    assert_eq!(replace_all(":::", "::", "_"), "_:");
    assert_eq!(replace_all("{PREFIX}x{PREFIX}", "{PREFIX}", "p::"), "p::xp::");
    assert_eq!(replace_all("abc", "{PREFIX}", "p"), "abc");
}

#[test]
fn numeric_and_nonnumeric_primitives_are_disjoint() {
    assert!(ExpressionSpecInvocation::is_numeric("usize"));
    assert!(ExpressionSpecInvocation::is_numeric("f64"));
    assert!(!ExpressionSpecInvocation::is_numeric("String"));
    assert!(ExpressionSpecInvocation::is_primitive_nonnumeric("String"));
    assert!(ExpressionSpecInvocation::is_primitive_nonnumeric("bool"));
    assert!(!ExpressionSpecInvocation::is_primitive_nonnumeric("u8"));
    assert!(!ExpressionSpecInvocation::is_numeric("Color"));
}

#[test]
fn primitive_type_table_holds_every_primitive() {
    let tt = get_primitive_type_table();
    let u8_def = tt.get("u8").expect("u8 registered");
    assert_eq!(u8_def.type_id, "u8");
    assert_eq!(u8_def.type_id_escaped, "u8");
    assert_eq!(u8_def.import_path, "u8");
    assert!(u8_def.inner_iterable_type_id.is_none());
    assert!(u8_def.property_definitions.is_empty());
    assert!(tt.get("bool").is_some());
    assert!(tt.get("String").is_some());
    assert!(tt.get("isize").is_some());
    assert!(tt.get("Color").is_none());
}

#[test]
fn builtin_type_definitions() {
    let v = TypeDefinition::builtin_vec_rc_properties_coproduct("isize".to_string());
    assert_eq!(v.type_id, "std::vec::Vec<std::rc::Rc<PropertiesCoproduct>>");
    assert_eq!(v.import_path, "std::vec::Vec");
    assert_eq!(v.inner_iterable_type_id.as_deref(), Some("isize"));

    let r = TypeDefinition::builtin_range_isize();
    assert_eq!(r.type_id, "std::ops::Range<isize>");
    assert_eq!(r.type_id_escaped, "stdCOCOopsCOCORangeLABRisizeRABR");
    assert_eq!(r.inner_iterable_type_id.as_deref(), Some("isize"));

    let rc = TypeDefinition::builtin_rc_properties_coproduct();
    assert_eq!(rc.type_id, "std::rc::Rc<PropertiesCoproduct>");
    assert!(rc.inner_iterable_type_id.is_none());
}

#[test]
fn property_definition_lookups() {
    let mut tt = get_primitive_type_table();
    let mut color = TypeDefinition::primitive("crate::Color");
    color.property_definitions = vec![PropertyDefinition::primitive_with_name("u8", "r")];
    tt.insert("crate::Color".to_string(), color);
    let mut vec_color = TypeDefinition::primitive("Vec<crate::Color>");
    vec_color.inner_iterable_type_id = Some("crate::Color".to_string());
    tt.insert("Vec<crate::Color>".to_string(), vec_color);

    let pd = PropertyDefinition::primitive_with_name("crate::Color", "fill");
    assert_eq!(pd.name, "fill");
    assert_eq!(pd.type_id, "crate::Color");
    let td = pd.get_type_definition(&tt);
    assert_eq!(td.type_id, "crate::Color");
    assert!(pd.get_inner_iterable_type_definition(&tt).is_none());

    let vec_pd = PropertyDefinition::primitive_with_name("Vec<crate::Color>", "fills");
    let inner = vec_pd.get_inner_iterable_type_definition(&tt).expect("iterable inner type");
    assert_eq!(inner.type_id, "crate::Color");

    let cd = component_named("crate::Color");
    let pds = cd.get_property_definitions(&tt);
    assert_eq!(pds.len(), 1);
    assert_eq!(pds[0].name, "r");
}

#[test]
fn host_crate_info_from_package_name() {
    let hci = HostCrateInfo::from_package_name("pax-example");
    assert_eq!(hci.name, "pax-example");
    assert_eq!(hci.identifier, "pax_example");
    assert_eq!(hci.import_prefix, "pax_example::pax_reexports::");
}

#[test]
fn update_property_prefixes_rewrites_type_table() {
    let mut td = TypeDefinition::primitive("{PREFIX}Color");
    td.type_id_escaped = "{PREFIX}Color".to_string();
    td.property_definitions = vec![PropertyDefinition::primitive_with_name("{PREFIX}u8ish", "r")];
    let mut tt = TypeTable::new();
    tt.insert("{PREFIX}Color".to_string(), td);
    let mut manifest = PaxManifest {
        components: Vec::new(),
        main_component_type_id: "crate::Example".to_string(),
        expression_specs: None,
        type_table: tt,
        import_paths: Vec::new(),
    };
    let hci = HostCrateInfo::from_package_name("pax-example");
    update_property_prefixes_in_place(&mut manifest, &hci);
    let entry = &manifest.type_table.entries[0];
    assert_eq!(entry.0, "pax_example::pax_reexports::Color");
    assert_eq!(entry.1.type_id, "pax_example::pax_reexports::Color");
    assert_eq!(entry.1.type_id_escaped, "Color");
    assert_eq!(entry.1.property_definitions[0].type_id, "pax_example::pax_reexports::u8ish");
    assert_eq!(entry.1.property_definitions[0].name, "r");
}

#[test]
fn bound_events_filters_event_targets() {
    let settings = vec![
        ("width".to_string(), ValueDefinition::LiteralValue("100".to_string())),
        ("click".to_string(), ValueDefinition::EventBindingTarget("self.on_click".to_string())),
        ("height".to_string(), ValueDefinition::Expression("{}".to_string(), Some(3))),
        ("scroll".to_string(), ValueDefinition::EventBindingTarget("self.on_scroll".to_string())),
    ];
    let events = generate_bound_events(Some(settings));
    assert_eq!(events.len(), 2);
    assert_eq!(events[0], ("click".to_string(), "self.on_click".to_string()));
    assert_eq!(events[1], ("scroll".to_string(), "self.on_scroll".to_string()));
    assert!(generate_bound_events(None).is_empty());
}

#[test]
fn events_map_keeps_declared_order() {
    let events = vec![
        EventDefinition { key: "click".to_string(), value: vec!["self.a".to_string()] },
        EventDefinition {
            key: "scroll".to_string(),
            value: vec!["self.b".to_string(), "self.c".to_string()],
        },
    ];
    let map = generate_events_map(Some(events));
    assert_eq!(map.len(), 2);
    assert_eq!(map[0].0, "click");
    assert_eq!(map[0].1, vec!["self.a".to_string()]);
    assert_eq!(map[1].0, "scroll");
    assert_eq!(map[1].1.len(), 2);
    assert!(generate_events_map(None).is_empty());
}

#[test]
fn type_table_insert_shadows_older_entries() {
    let mut tt = TypeTable::new();
    tt.insert("k".to_string(), TypeDefinition::primitive("first"));
    tt.insert("k".to_string(), TypeDefinition::primitive("second"));
    assert_eq!(tt.get("k").unwrap().type_id, "second");
    assert!(tt.get("missing").is_none());
}

#[test]
fn run_target_parsing_ignores_ascii_case() {
    assert_eq!(RunTarget::parse("macos"), Some(RunTarget::MacOS));
    assert_eq!(RunTarget::parse("MacOS"), Some(RunTarget::MacOS));
    assert_eq!(RunTarget::parse("WEB"), Some(RunTarget::Web));
    assert_eq!(RunTarget::parse("Web"), Some(RunTarget::Web));
    assert_eq!(RunTarget::parse("ios"), None);
    assert_eq!(RunTarget::MacOS.as_str(), "MacOS");
    assert_eq!(RunTarget::Web.as_str(), "Web");
}

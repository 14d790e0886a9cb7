use pax_core::codegen::recurse_literal_block;
use pax_core::codegen::usize_to_decimal;
use pax_core::manifest::HostCrateInfo;
use pax_core::manifest::LiteralBlockDefinition;
use pax_core::manifest::PropertyDefinition;
use pax_core::manifest::TypeDefinition;
use pax_core::manifest::ValueDefinition;

fn cell_type() -> TypeDefinition {
    let mut td = TypeDefinition::primitive("crate::types::StackerCell");
    td.property_definitions = vec![
        PropertyDefinition::primitive_with_name("f64", "x_px"),
        PropertyDefinition::primitive_with_name("f64", "width_px"),
        PropertyDefinition::primitive_with_name("crate::types::Color", "fill"),
        PropertyDefinition::primitive_with_name("u8", "r"),
    ];
    td
}

#[test]
fn decimal_rendering() {
    assert_eq!(usize_to_decimal(0), "0");
    assert_eq!(usize_to_decimal(7), "7");
    assert_eq!(usize_to_decimal(907), "907");
    assert_eq!(usize_to_decimal(1000), "1000");
}

#[test]
fn literal_block_emits_struct_expression() {
    let block = LiteralBlockDefinition {
        explicit_type_pascal_identifier: None,
        settings_key_value_pairs: vec![
            ("x_px".to_string(), ValueDefinition::LiteralValue("10.0".to_string())),
            ("width_px".to_string(), ValueDefinition::Expression("{w}".to_string(), Some(7))),
        ],
    };
    let td = cell_type();
    let hci = HostCrateInfo::from_package_name("pax-example");
    let out = recurse_literal_block(&block, &td, &hci);
    let expected = "\n{ let mut ret = pax_example::pax_reexports::types::StackerCell::default();\
        \nret.x_px = Box::new(PropertyLiteral::new(Into::<pax_example::pax_reexports::f64>::into(10.0)));\
        \nret.width_px = Box::new(PropertyExpression::new(7));\
        \n ret }";
    assert_eq!(out, expected);
}

#[test]
fn nested_literal_blocks_are_inlined() {
    let inner = LiteralBlockDefinition {
        explicit_type_pascal_identifier: None,
        settings_key_value_pairs: vec![
            ("r".to_string(), ValueDefinition::LiteralValue("255".to_string())),
        ],
    };
    let block = LiteralBlockDefinition {
        explicit_type_pascal_identifier: None,
        settings_key_value_pairs: vec![
            ("fill".to_string(), ValueDefinition::Block(inner)),
        ],
    };
    let td = cell_type();
    let hci = HostCrateInfo::from_package_name("pax-example");
    let out = recurse_literal_block(&block, &td, &hci);
    let expected = "\n{ let mut ret = pax_example::pax_reexports::types::StackerCell::default();\
        \nret.fill = Box::new(PropertyLiteral::new(Into::<pax_example::pax_reexports::crate::types::Color>::into(\
        \n{ let mut ret = pax_example::pax_reexports::types::StackerCell::default();\
        \nret.r = Box::new(PropertyLiteral::new(Into::<pax_example::pax_reexports::u8>::into(255)));\
        \n ret })));\
        \n ret }";
    assert_eq!(out, expected);
}

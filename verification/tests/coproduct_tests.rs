use pax_core::coproduct::PropertiesCoproduct;
use pax_core::coproduct::RectDef;
use pax_core::coproduct::TypesCoproduct;
use pax_core::coproduct::clone_properties;

#[test]
fn test_unwrap_apple() {
    let fruit = TypesCoproduct::Str("green".to_string());
    let expected_color = "green".to_string();
    let unwrapped_color: String = fruit.unwrap_str().unwrap();
    assert_eq!(unwrapped_color, expected_color);
}

#[test]
fn downcasts_reject_other_variants() {
    assert!(TypesCoproduct::Str("red".to_string()).unwrap_usize().is_none());
    assert!(TypesCoproduct::Usize(4).unwrap_str().is_none());
    assert!(TypesCoproduct::Bool(true).unwrap_isize().is_none());
    assert_eq!(TypesCoproduct::Usize(4).unwrap_usize(), Some(4));
    assert_eq!(TypesCoproduct::Isize(-3).unwrap_isize(), Some(-3));
    assert_eq!(TypesCoproduct::Bool(true).unwrap_bool(), Some(true));
    assert_eq!(
        TypesCoproduct::RangeIsize { start: 0, end: 5 }.unwrap_range(),
        Some((0, 5))
    );
    assert_eq!(TypesCoproduct::U64(9).unwrap_u64(), Some(9));
}

#[test]
fn clone_properties_is_structural() {
    let p = PropertiesCoproduct::RepeatItem {
        datum: Box::new(PropertiesCoproduct::Str("elem".to_string())),
        i: 3,
    };
    match clone_properties(&p) {
        PropertiesCoproduct::RepeatItem { datum, i } => {
            assert_eq!(i, 3);
            match *datum {
                PropertiesCoproduct::Str(s) => assert_eq!(s, "elem"),
                _ => panic!("datum variant changed"),
            }
        },
        _ => panic!("variant changed"),
    }
}

#[test]
fn rect_def_default_is_zeroed() {
    let r = RectDef::default();
    assert_eq!(r.x, 0);
    assert_eq!(r.y, 0);
    assert_eq!(r.width, 0);
    assert_eq!(r.height, 0);
}

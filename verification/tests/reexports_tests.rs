use pax_core::reexports::NamespaceTrieNode;
use pax_core::reexports::bundle_reexports_into_namespace_string;

#[test]
fn test_serialize_to_reexports() {
    let input_vec = vec![
        "crate::Example",
        "crate::fireworks::Fireworks",
        "crate::grids::Grids",
        "crate::grids::RectDef",
        "crate::hello_rgb::HelloRGB",
        "f64",
        "pax_std::primitives::Ellipse",
        "pax_std::primitives::Group",
        "pax_std::primitives::Rectangle",
        "pax_std::types::Color",
        "pax_std::types::Stroke",
        "std::vec::Vec",
        "usize",
    ];

    let mut root_node = NamespaceTrieNode::new_root();

    for namespace_string in input_vec {
        root_node.insert(&namespace_string);
    }

    let output = root_node.serialize_to_reexports();

    let expected_output = r#"pub mod pax_reexports {
    pub use crate::Example;
    pub mod fireworks {
        pub use crate::fireworks::Fireworks;
    }
    pub mod grids {
        pub use crate::grids::Grids;
        pub use crate::grids::RectDef;
    }
    pub mod hello_rgb {
        pub use crate::hello_rgb::HelloRGB;
    }
    pub use f64;
    pub mod pax_std{
        pub mod primitives{
            pub use pax_std::primitives::Ellipse;
            pub use pax_std::primitives::Group;
            pub use pax_std::primitives::Rectangle;
        }
        pub mod types{
            pub use pax_std::types::Color;
            pub use pax_std::types::Stroke;
        }
    }
    pub mod std{
        pub mod vec{
            pub use std::vec::Vec;
        }
    }
    pub use usize;

}"#;

    assert_eq!(output, expected_output);
}

#[test]
fn bundle_matches_manual_trie() {
    let imports = vec![
        "crate::Example".to_string(),
        "pax_std::types::Color".to_string(),
        "usize".to_string(),
    ];
    let bundled = bundle_reexports_into_namespace_string(&imports);

    let mut root = NamespaceTrieNode::new_root();
    for s in &imports {
        root.insert(s);
    }
    assert_eq!(bundled, root.serialize_to_reexports());
    assert!(bundled.starts_with("pub mod pax_reexports {\n"));
    assert!(bundled.ends_with("\n}"));
    assert!(bundled.contains("pub use crate::Example;"));
    assert!(bundled.contains("pub use pax_std::types::Color;"));
    assert!(bundled.contains("pub use usize;"));
}

#[test]
fn get_or_create_child_is_idempotent() {
    let mut root = NamespaceTrieNode::new_root();
    let a = root.get_or_create_child("alpha");
    let b = root.get_or_create_child("beta");
    let a2 = root.get_or_create_child("alpha");
    assert_eq!(a, a2);
    assert_ne!(a, b);
    assert_eq!(root.children.len(), 2);
    assert_eq!(root.children[a].node_string.as_deref(), Some("alpha"));
    assert_eq!(root.children[b].node_string.as_deref(), Some("beta"));
}

#[test]
fn insert_keeps_children_sorted() {
    let mut root = NamespaceTrieNode::new_root();
    root.insert("zeta::one");
    root.insert("alpha::two");
    root.insert("mid");
    assert_eq!(root.children.len(), 3);
    assert_eq!(root.children[0].segment, "alpha");
    assert_eq!(root.children[1].segment, "mid");
    assert_eq!(root.children[2].segment, "zeta");
    assert_eq!(
        root.children[0].children[0].node_string.as_deref(),
        Some("alpha::two")
    );
}

#[test]
fn bundle_ignores_input_order_and_duplicates() {
    let sorted = vec![
        "crate::Example".to_string(),
        "pax_std::types::Color".to_string(),
        "usize".to_string(),
    ];
    let shuffled_with_duplicates = vec![
        "usize".to_string(),
        "pax_std::types::Color".to_string(),
        "crate::Example".to_string(),
        "usize".to_string(),
        "crate::Example".to_string(),
    ];
    assert_eq!(
        bundle_reexports_into_namespace_string(&sorted),
        bundle_reexports_into_namespace_string(&shuffled_with_duplicates),
    );
}

#[test]
fn reinserting_a_present_path_changes_nothing() {
    let mut once = NamespaceTrieNode::new_root();
    once.insert("pax_std::types::Color");
    once.insert("crate::Example");
    let before = once.serialize_to_reexports();
    once.insert("pax_std::types::Color");
    once.insert("crate::Example");
    assert_eq!(once.serialize_to_reexports(), before);
}

use pax_core::patches::NativeMessage;
use pax_core::patches::PatchCache;
use pax_core::rendering::Transform2D;

fn t(dx: i64) -> Transform2D {
    Transform2D { xx: 1, xy: 0, yx: 0, yy: 1, dx, dy: 0 }
}

#[test]
fn image_patch_emitted_once_per_change() {
    let mut cache = PatchCache::new();
    let chain = vec![1u64, 2u64];
    let first = cache.compute_image_patch(&chain, "assets/logo.png").expect("first frame emits");
    assert_eq!(first.id_chain, chain);
    assert_eq!(first.path.as_deref(), Some("assets/logo.png"));

    // second frame, unchanged value: nothing is emitted
    assert!(cache.compute_image_patch(&chain, "assets/logo.png").is_none());

    // a change emits again, once
    let third = cache.compute_image_patch(&chain, "assets/other.png").expect("change emits");
    assert_eq!(third.path.as_deref(), Some("assets/other.png"));
    assert!(cache.compute_image_patch(&chain, "assets/other.png").is_none());
}

#[test]
fn common_patch_carries_only_changed_fields() {
    let mut cache = PatchCache::new();
    let chain = vec![3u64];
    let first = cache.compute_common_patch(&chain, 100, 50, t(0)).expect("first frame emits all");
    assert_eq!(first.size_x, Some(100));
    assert_eq!(first.size_y, Some(50));
    assert_eq!(first.transform, Some(t(0)));

    // unchanged: no patch at all
    assert!(cache.compute_common_patch(&chain, 100, 50, t(0)).is_none());

    // one field changes: the patch holds exactly that field
    let third = cache.compute_common_patch(&chain, 120, 50, t(0)).expect("width change emits");
    assert_eq!(third.size_x, Some(120));
    assert_eq!(third.size_y, None);
    assert_eq!(third.transform, None);

    let fourth = cache.compute_common_patch(&chain, 120, 50, t(9)).expect("transform change emits");
    assert_eq!(fourth.size_x, None);
    assert_eq!(fourth.size_y, None);
    assert_eq!(fourth.transform, Some(t(9)));
}

#[test]
fn caches_are_keyed_by_id_chain() {
    let mut cache = PatchCache::new();
    let a = vec![1u64];
    let b = vec![1u64, 0u64];
    assert!(cache.compute_image_patch(&a, "p.png").is_some());
    // a different chain is a different instance: it emits its own patch
    assert!(cache.compute_image_patch(&b, "p.png").is_some());
    assert!(cache.compute_image_patch(&a, "p.png").is_none());
    assert!(cache.compute_image_patch(&b, "p.png").is_none());
}

#[test]
fn pruning_forgets_unvisited_chains() {
    let mut cache = PatchCache::new();
    let kept = vec![1u64];
    let gone = vec![2u64];
    assert!(cache.compute_image_patch(&kept, "a.png").is_some());
    assert!(cache.compute_image_patch(&gone, "b.png").is_some());

    cache.retain_chains(&vec![kept.clone()]);

    // the kept chain still diffs against its cache; the pruned one re-emits
    assert!(cache.compute_image_patch(&kept, "a.png").is_none());
    assert!(cache.compute_image_patch(&gone, "b.png").is_some());
}

#[test]
fn native_message_wraps_patches() {
    let mut cache = PatchCache::new();
    let chain = vec![7u64];
    let p = cache.compute_image_patch(&chain, "x.png").unwrap();
    let msg = NativeMessage::ImageLoad(p);
    match msg {
        NativeMessage::ImageLoad(ip) => assert_eq!(ip.id_chain, chain),
        _ => panic!("wrong message variant"),
    }
}

//! What the application does when something happens around it.

use std::cell::RefCell;
use std::collections::BTreeMap;
use std::rc::Rc;

use openlogi::catalog::model_key;
use openlogi::config::AssetSourcePreference;
use openlogi::device::DeviceKey;
use openlogi::runtime::{
    asset_watches, camera_targets, default_options, settled_outcome, watch_key, AssetWatch,
    Camera, CameraWatch,
};
use openlogi::subscriptions::Subscriptions;

/// Stands in for a live subscription. Dropping a real one unsubscribes, so the
/// tests below assert on drops rather than on any handle contents.
struct DropSpy {
    key: String,
    dropped: Rc<RefCell<Vec<String>>>,
}

impl Drop for DropSpy {
    fn drop(&mut self) {
        self.dropped.borrow_mut().push(self.key.clone());
    }
}

/// Reconcile `keys`, recording every key a subscription was opened for.
fn reconcile(
    subs: &mut Subscriptions<DropSpy>,
    keys: &[&str],
    opened: &Rc<RefCell<Vec<String>>>,
    dropped: &Rc<RefCell<Vec<String>>>,
) {
    let wanted = keys.iter().map(|k| ((*k).to_string(), (*k).to_string())).collect();
    subs.reconcile(wanted, (), |(), key: String| {
        opened.borrow_mut().push(key.clone());
        ((), DropSpy { key, dropped: Rc::clone(dropped) })
    });
}

#[test]
fn a_repeated_target_keeps_its_one_subscription() {
    let (opened, dropped) = (Rc::default(), Rc::default());
    let mut subs = Subscriptions::new();

    reconcile(&mut subs, &["a", "b"], &opened, &dropped);
    reconcile(&mut subs, &["a", "b"], &opened, &dropped);

    assert_eq!(opened.borrow().len(), 2, "each model subscribes once");
    assert!(dropped.borrow().is_empty(), "nothing was given up");
}

#[test]
fn a_target_that_disappears_drops_its_subscription() {
    let (opened, dropped) = (Rc::default(), Rc::default());
    let mut subs = Subscriptions::new();

    reconcile(&mut subs, &["a", "b"], &opened, &dropped);
    reconcile(&mut subs, &["b"], &opened, &dropped);

    assert_eq!(*dropped.borrow(), ["a"]);
    assert_eq!(opened.borrow().len(), 2, "`b` was not reopened");
}

#[test]
fn a_returning_target_subscribes_again() {
    let (opened, dropped) = (Rc::default(), Rc::default());
    let mut subs = Subscriptions::new();

    reconcile(&mut subs, &["a"], &opened, &dropped);
    reconcile(&mut subs, &[], &opened, &dropped);
    reconcile(&mut subs, &["a"], &opened, &dropped);

    assert_eq!(*opened.borrow(), ["a", "a"]);
    assert_eq!(*dropped.borrow(), ["a"]);
}

#[test]
fn the_first_item_of_each_missing_key_is_opened_in_order() {
    let mut subs = Subscriptions::new();
    let wanted = |keys: &[(&str, u8)]| -> Vec<(String, u8)> {
        keys.iter().map(|(key, item)| ((*key).to_string(), *item)).collect()
    };
    let note = |mut opened: Vec<u8>, item: u8| {
        opened.push(item);
        (opened, item)
    };
    assert_eq!(subs.reconcile(wanted(&[("b", 1)]), vec![], note), [1]);
    let list = wanted(&[("c", 2), ("b", 3), ("a", 4), ("c", 5)]);
    assert_eq!(subs.unopened(list.clone()), wanted(&[("c", 2), ("a", 4)]));
    assert_eq!(subs.reconcile(list.clone(), vec![], note), [2, 4]);
    assert_eq!(subs.reconcile(list.clone(), vec![9], note), [9], "nothing is opened again");
    assert!(subs.unopened(list).is_empty());
    assert_eq!(subs.reconcile(wanted(&[("a", 6)]), vec![], note), [0u8; 0]);
    assert!(!subs.is_live(&"b".to_string()));
    assert_eq!(subs.unopened(wanted(&[("b", 7), ("a", 8)])), wanted(&[("b", 7)]));
}

fn camera(product_id: u16, unique_id: &str) -> Camera {
    Camera {
        name: "MX Brio".into(),
        unique_id: unique_id.into(),
        serial_number: None,
        vendor_id: 0x046d,
        product_id,
        max_width: None,
        max_height: None,
        max_fps: None,
    }
}

#[test]
fn a_source_change_rekeys_every_subscription() {
    let target = camera_targets(&vec![camera(0x0944, "0x2031")]).remove(0);
    let watches = [AssetWatch::Index, AssetWatch::Model(target)];

    for watch in &watches {
        assert_ne!(
            watch_key(AssetSourcePreference::OpenLogi, watch),
            watch_key(AssetSourcePreference::Cloudflare, watch),
        );
    }
}

#[test]
fn a_camera_keeps_one_subscription_across_snapshots() {
    let moved_ports = vec![camera(0x0944, "0x2031"), camera(0x0944, "0x2042")];
    let keys: Vec<_> = camera_targets(&moved_ports).iter().map(model_key).collect();

    assert_eq!(keys[0], keys[1]);
}

#[test]
fn the_registry_and_every_model_are_watched() {
    let targets = camera_targets(&vec![camera(0x0944, "0x2031"), camera(0x0945, "0x2032")]);
    let watches = asset_watches(AssetSourcePreference::Automatic, targets);
    assert_eq!(watches.len(), 3);
    assert!(matches!(watches[0].1, AssetWatch::Index));
    assert!(matches!(watches[2].1, AssetWatch::Model(_)));
    for (key, watch) in &watches {
        assert_eq!(*key, watch_key(AssetSourcePreference::Automatic, watch));
    }
}

#[test]
fn cameras_stay_through_two_empty_scans() {
    let mut watch = CameraWatch { cams: vec![camera(1, "a")], misses: 0 };
    assert!(!watch.rescan_cameras(vec![]));
    assert!(!watch.rescan_cameras(vec![]));
    assert_eq!(watch.cams.len(), 1);
    assert!(watch.rescan_cameras(vec![]));
    assert!(watch.cams.is_empty());
    assert!(!watch.rescan_cameras(vec![]), "nothing changed");
    assert!(watch.rescan_cameras(vec![camera(1, "a")]));
}

#[test]
fn only_settled_fetches_are_reported() {
    assert_eq!(settled_outcome(true, false), None);
    assert_eq!(settled_outcome(false, true), Some(false));
    assert_eq!(settled_outcome(false, false), Some(true));
    let policy = default_options();
    assert_eq!((policy.stale_secs, policy.keep_secs, policy.refresh_secs), (1800, 3600, None));
}

#[test]
fn borrowed_str_lookup_finds_an_owned_key() {
    let mut map = BTreeMap::new();
    map.insert(DeviceKey::from("2b034"), 7);
    assert_eq!(map.get("2b034"), Some(&7));
    assert_eq!(map.get("missing"), None);
}

#[test]
fn equality_and_ordering_are_value_based() {
    assert_eq!(DeviceKey::from("a"), DeviceKey::from("a".to_string()));
    assert_ne!(DeviceKey::from("a"), DeviceKey::from("b"));
    assert!(DeviceKey::from("a") < DeviceKey::from("b"));
}

use gatt_descriptors::AttributePermissions;
use gatt_descriptors::BleUuid;
use gatt_descriptors::Descriptor;
use gatt_descriptors::MemStorage;
use gatt_descriptors::PeerAddress;
use gatt_descriptors::ValuePolicy;
use gatt_descriptors::descriptor::cccd_read_result;
use gatt_descriptors::peer::storage_key;

fn addr(octets: [u8; 6]) -> PeerAddress {
    PeerAddress::new(octets)
}

#[test]
fn user_description_battery_level() {
    let d = Descriptor::user_description("Battery Level");
    assert_eq!(d.uuid, BleUuid::Uuid16(0x2901));
    assert_eq!(d.permissions, AttributePermissions::read());
    assert!(d.permissions.readable);
    assert!(!d.permissions.writable);
    match &d.policy {
        ValuePolicy::StaticValue(v) => assert_eq!(v, "Battery Level".as_bytes()),
        ValuePolicy::PersistedByPeer => panic!("user description must be static"),
    }
    assert_eq!(d.name, "User Description");
}

#[test]
fn user_description_read_ignores_storage() {
    let mut store = MemStorage::new();
    let d = Descriptor::user_description("Battery Level");
    let peer = addr([0xAA, 0xBB, 0xCC, 0xDD, 0xEE, 0xFF]);
    // Even a record under this peer's key does not leak into a static read.
    Descriptor::cccd().write_value(&mut store, &peer, &vec![0x01, 0x00]);
    let read = d.read_value(&store, &peer);
    assert_eq!(read, "Battery Level".as_bytes().to_vec());
}

#[test]
fn cccd_factory_fields() {
    let d = Descriptor::cccd();
    assert_eq!(d.uuid, BleUuid::Uuid16(0x2902));
    assert_eq!(d.permissions, AttributePermissions::read_write());
    assert!(matches!(d.policy, ValuePolicy::PersistedByPeer));
    assert_eq!(d.name, "Client Characteristic Configuration");
}

#[test]
fn read_before_any_write_is_default() {
    let store = MemStorage::new();
    let d = Descriptor::cccd();
    let peers = [
        addr([0x00, 0x00, 0x00, 0x00, 0x00, 0x00]),
        addr([0xAA, 0xBB, 0xCC, 0xDD, 0xEE, 0xFF]),
        addr([0x01, 0x02, 0x03, 0x04, 0x05, 0x06]),
    ];
    for peer in peers {
        assert_eq!(d.read_value(&store, &peer), vec![0x00, 0x00]);
    }
}

#[test]
fn write_then_read_round_trips() {
    let mut store = MemStorage::new();
    let d = Descriptor::cccd();
    let peer = addr([0x10, 0x20, 0x30, 0x40, 0x50, 0x60]);
    d.write_value(&mut store, &peer, &vec![0x02, 0x00]);
    assert_eq!(d.read_value(&store, &peer), vec![0x02, 0x00]);
}

#[test]
fn overwrite_keeps_last_value() {
    let mut store = MemStorage::new();
    let d = Descriptor::cccd();
    let peer = addr([0x10, 0x20, 0x30, 0x40, 0x50, 0x60]);
    d.write_value(&mut store, &peer, &vec![0x01, 0x00]);
    d.write_value(&mut store, &peer, &vec![0x00, 0x00]);
    d.write_value(&mut store, &peer, &vec![0x02, 0x00]);
    assert_eq!(d.read_value(&store, &peer), vec![0x02, 0x00]);
}

#[test]
fn writes_are_isolated_between_peers() {
    let mut store = MemStorage::new();
    let d = Descriptor::cccd();
    let a = addr([0x01, 0x02, 0x03, 0x04, 0x05, 0x06]);
    let b = addr([0x01, 0x02, 0x03, 0x04, 0x05, 0x07]);
    d.write_value(&mut store, &b, &vec![0x02, 0x00]);
    d.write_value(&mut store, &a, &vec![0x01, 0x00]);
    // The write for `a` left `b`'s record alone, and vice versa.
    assert_eq!(d.read_value(&store, &a), vec![0x01, 0x00]);
    assert_eq!(d.read_value(&store, &b), vec![0x02, 0x00]);
}

#[test]
fn storage_key_format() {
    let key = storage_key(&addr([0xAA, 0xBB, 0xCC, 0xDD, 0xEE, 0xFF]));
    assert_eq!(key, "AA:BB:CC:DD:EE:FF");
    assert_eq!(key.len(), 17);
    let key = storage_key(&addr([0xDE, 0xAD, 0xBE, 0xEF, 0x00, 0x01]));
    assert_eq!(key, "DE:AD:BE:EF:00:01");
}

#[test]
fn storage_key_deterministic_and_injective() {
    let a = addr([0x0A, 0x1B, 0x2C, 0x3D, 0x4E, 0x5F]);
    assert_eq!(storage_key(&a), storage_key(&a));
    let peers = [
        addr([0x00, 0x00, 0x00, 0x00, 0x00, 0x00]),
        addr([0x00, 0x00, 0x00, 0x00, 0x00, 0x01]),
        addr([0x01, 0x00, 0x00, 0x00, 0x00, 0x00]),
        addr([0x0A, 0x1B, 0x2C, 0x3D, 0x4E, 0x5F]),
        addr([0xA0, 0xB1, 0xC2, 0xD3, 0xE4, 0xF5]),
        addr([0xFF, 0xFF, 0xFF, 0xFF, 0xFF, 0xFF]),
    ];
    for i in 0..peers.len() {
        for j in 0..peers.len() {
            if i != j {
                assert_ne!(storage_key(&peers[i]), storage_key(&peers[j]));
            }
        }
    }
}

#[test]
fn interleaved_peers_do_not_disturb_each_other() {
    let mut store = MemStorage::new();
    let d = Descriptor::cccd();
    let a = addr([0x01, 0x01, 0x01, 0x01, 0x01, 0x01]);
    let b = addr([0x02, 0x02, 0x02, 0x02, 0x02, 0x02]);
    let c = addr([0x03, 0x03, 0x03, 0x03, 0x03, 0x03]);
    // Operations from three peers, interleaved as serialized access to the
    // shared store would deliver them: each step sees complete values only.
    d.write_value(&mut store, &a, &vec![0x01, 0x00]);
    assert_eq!(d.read_value(&store, &b), vec![0x00, 0x00]);
    d.write_value(&mut store, &b, &vec![0x02, 0x00]);
    assert_eq!(d.read_value(&store, &a), vec![0x01, 0x00]);
    d.write_value(&mut store, &c, &vec![0x03, 0x00]);
    d.write_value(&mut store, &a, &vec![0x00, 0x00]);
    assert_eq!(d.read_value(&store, &b), vec![0x02, 0x00]);
    assert_eq!(d.read_value(&store, &c), vec![0x03, 0x00]);
    assert_eq!(d.read_value(&store, &a), vec![0x00, 0x00]);
}

#[test]
fn subscription_scenario() {
    let mut store = MemStorage::new();
    let d = Descriptor::cccd();
    let subscriber = addr([0xDE, 0xAD, 0xBE, 0xEF, 0x00, 0x01]);
    let stranger = addr([0x11, 0x22, 0x33, 0x44, 0x55, 0x66]);
    // Notifications on.
    d.write_value(&mut store, &subscriber, &vec![0x01, 0x00]);
    assert_eq!(d.read_value(&store, &subscriber), vec![0x01, 0x00]);
    // A never-seen peer still reads the default.
    assert_eq!(d.read_value(&store, &stranger), vec![0x00, 0x00]);
}

#[test]
fn write_payload_is_stored_verbatim() {
    // The policy does not validate the payload length: whatever arrives is
    // persisted and read back as it was.
    let mut store = MemStorage::new();
    let d = Descriptor::cccd();
    let peer = addr([0x09, 0x08, 0x07, 0x06, 0x05, 0x04]);
    d.write_value(&mut store, &peer, &vec![0x01]);
    assert_eq!(d.read_value(&store, &peer), vec![0x01]);
    d.write_value(&mut store, &peer, &vec![0x01, 0x02, 0x03]);
    assert_eq!(d.read_value(&store, &peer), vec![0x01, 0x02, 0x03]);
    d.write_value(&mut store, &peer, &vec![]);
    assert_eq!(d.read_value(&store, &peer), Vec::<u8>::new());
}

#[test]
fn static_descriptor_write_leaves_store_unchanged() {
    let mut store = MemStorage::new();
    let cccd = Descriptor::cccd();
    let stat = Descriptor::user_description("Battery Level");
    let peer = addr([0xAB, 0xCD, 0xEF, 0x01, 0x23, 0x45]);
    cccd.write_value(&mut store, &peer, &vec![0x01, 0x00]);
    // A static descriptor has no write callback: nothing changes.
    stat.write_value(&mut store, &peer, &vec![0xFF, 0xFF]);
    assert_eq!(cccd.read_value(&store, &peer), vec![0x01, 0x00]);
}

#[test]
fn read_result_defaults_when_absent() {
    assert_eq!(cccd_read_result(None), vec![0x00, 0x00]);
    assert_eq!(cccd_read_result(Some(vec![0x02, 0x00])), vec![0x02, 0x00]);
}

#[test]
fn store_get_and_put() {
    let mut store = MemStorage::new();
    assert_eq!(store.get(&String::from("AA:BB:CC:DD:EE:FF")), None);
    store.put(String::from("AA:BB:CC:DD:EE:FF"), vec![0x01, 0x00]);
    store.put(String::from("11:22:33:44:55:66"), vec![0x02, 0x00]);
    assert_eq!(
        store.get(&String::from("AA:BB:CC:DD:EE:FF")),
        Some(vec![0x01, 0x00])
    );
    assert_eq!(
        store.get(&String::from("11:22:33:44:55:66")),
        Some(vec![0x02, 0x00])
    );
    store.put(String::from("AA:BB:CC:DD:EE:FF"), vec![0x03, 0x00]);
    assert_eq!(
        store.get(&String::from("AA:BB:CC:DD:EE:FF")),
        Some(vec![0x03, 0x00])
    );
}

use sauna_monitor::onewire::OneWire;

fn entries(names: &[&[u8]]) -> Vec<Vec<u8>> {
    names.iter().map(|n| n.to_vec()).collect()
}

#[test]
fn new_keeps_last_matching_entry() {
    let names = entries(&[b"28-000001", b"41-000002", b"28-000009"]);
    let w = OneWire::new(28, &names);
    assert_eq!(w.address, 28);
    assert_eq!(w.target_dir, Some(b"28-000009".to_vec()));
}

#[test]
fn new_without_match_keeps_none() {
    let names = entries(&[b"41-000002", b"no separator"]);
    let w = OneWire::new(28, &names);
    assert_eq!(w.address, 28);
    assert_eq!(w.target_dir, None);
}

#[test]
fn search_reports_first_scannable_prefix() {
    let names = entries(&[b"w1_bus_master1", b"41-000002", b"28-000001"]);
    assert_eq!(OneWire::search(Some(&names)), Some(41));
}

#[test]
fn search_unreadable_directory_reports_nothing() {
    assert_eq!(OneWire::search(None), None);
}

#[test]
fn search_without_scannable_entry_falls_back() {
    let names = entries(&[b"w1_bus_master1", b"no separator"]);
    assert_eq!(OneWire::search(Some(&names)), Some(0x1234));
    assert_eq!(OneWire::search(Some(&Vec::new())), Some(0x1234));
}

#[test]
fn stub_transfers() {
    let w = OneWire::new(28, &entries(&[b"28-000001"]));
    assert!(w.is_crc_valid());
    OneWire::write();
    let mut buffer = [1u8, 2, 3, 4, 5, 6, 7, 8];
    w.read(&mut buffer);
    assert_eq!(buffer, [1, 2, 3, 4, 5, 6, 7, 8]);
}

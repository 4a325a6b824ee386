use sauna_monitor::measurement::Measurement;
use sauna_monitor::sht30::{decode_humidity, decode_temperature, SensorError, SHT30};

fn as_f64(m: Measurement) -> f64 {
    m.num as f64 / m.den as f64
}

#[test]
fn temperature_endpoints() {
    let low = decode_temperature(0);
    assert_eq!(low.num, -2949075);
    assert_eq!(low.den, 65535);
    assert_eq!(as_f64(low), -45.0);

    let high = decode_temperature(65535);
    assert_eq!(high.num, 175 * 65535 - 2949075);
    assert_eq!(as_f64(high), 130.0);
}

#[test]
fn temperature_formula() {
    for raw in [0u16, 1, 1000, 16384, 24926, 65534, 65535] {
        let m = decode_temperature(raw);
        let reference = -45.0 + 175.0 * (raw as f64) / 65535.0;
        assert!((as_f64(m) - reference).abs() < 1e-9);
    }
}

#[test]
fn temperature_monotonic_samples() {
    let mut previous = as_f64(decode_temperature(0));
    for raw in [1u16, 2, 500, 501, 30000, 30001, 65535] {
        let next = as_f64(decode_temperature(raw));
        assert!(previous < next);
        previous = next;
    }
}

#[test]
fn humidity_endpoints() {
    let dry = decode_humidity(0);
    assert_eq!(dry.num, 0);
    assert_eq!(dry.den, 65535);
    assert_eq!(as_f64(dry), 0.0);

    let saturated = decode_humidity(65535);
    assert_eq!(saturated.num, 100 * 65535);
    assert_eq!(as_f64(saturated), 100.0);
}

#[test]
fn humidity_formula() {
    for raw in [0u16, 1, 23856, 40000, 65535] {
        let m = decode_humidity(raw);
        let reference = 100.0 * (raw as f64) / 65535.0;
        assert!((as_f64(m) - reference).abs() < 1e-9);
    }
}

#[test]
fn simulated_reads_are_fixed_constants() {
    let driver = SHT30::init(false);
    let block = [0x61u8, 0x5E, 0x00, 0x5D, 0x30, 0x00];

    // Whatever block is handed in and in whatever order the calls come,
    // off target the same two constants come back every time.
    let t1 = driver.read_temperture(None).unwrap();
    let h1 = driver.read_humidity(Some(&block)).unwrap();
    let t2 = driver.read_temperture(Some(&block)).unwrap();
    let h2 = driver.read_humidity(None).unwrap();

    assert_eq!(t1, Measurement { num: 123, den: 10 });
    assert_eq!(t1, t2);
    assert_eq!(as_f64(t1), 12.3);
    assert_eq!(h1, Measurement { num: 456, den: 10 });
    assert_eq!(h1, h2);
    assert_eq!(as_f64(h1), 45.6);
}

#[test]
fn target_read_decodes_register_block() {
    let driver = SHT30::init(true);
    let block = [0x61u8, 0x5E, 0xAA, 0x5D, 0x30, 0xBB];

    let t = driver.read_temperture(Some(&block)).unwrap();
    assert_eq!(t.num, 175 * 0x615E - 2949075);
    assert_eq!(t.den, 65535);

    let h = driver.read_humidity(Some(&block)).unwrap();
    assert_eq!(h.num, 100 * 0x5D30);
    assert_eq!(h.den, 65535);
}

#[test]
fn target_read_without_block_is_bus_fault() {
    let driver = SHT30::init(true);
    assert_eq!(driver.read_temperture(None), Err(SensorError::Bus));
    assert_eq!(driver.read_humidity(None), Err(SensorError::Bus));
}

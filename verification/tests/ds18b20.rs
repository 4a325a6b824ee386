use sauna_monitor::ds18b20::{find_dir_with_prefix, scan_root, status_file_name, SensorError,
    DS18B20};
use sauna_monitor::measurement::Measurement;

fn entries(names: &[&[u8]]) -> Vec<Vec<u8>> {
    names.iter().map(|n| n.to_vec()).collect()
}

#[test]
fn discovery_selects_family_entry() {
    let names = entries(&[b"28-000001", b"41-000002", b"3-abc"]);
    assert_eq!(find_dir_with_prefix(&names, 28), Some(0));

    let driver = DS18B20::init(&names).unwrap();
    assert_eq!(driver.sensor_path, b"28-000001".to_vec());
}

#[test]
fn discovery_first_match_wins() {
    let names = entries(&[b"41-000002", b"28-000001", b"28-000009"]);
    assert_eq!(find_dir_with_prefix(&names, 28), Some(1));

    let driver = DS18B20::init(&names).unwrap();
    assert_eq!(driver.sensor_path, b"28-000001".to_vec());
}

#[test]
fn discovery_skips_unparsable_prefixes() {
    let names = entries(&[b"no separator", b"-28", b"x28-1", b"28x-1", b"28-000001"]);
    assert_eq!(find_dir_with_prefix(&names, 28), Some(4));
}

#[test]
fn discovery_without_match_fails_construction() {
    let names = entries(&[b"41-000002", b"3-abc", b"w1_bus_master1"]);
    assert_eq!(DS18B20::init(&names), Err(SensorError::NotFound));
    assert_eq!(DS18B20::init(&Vec::new()), Err(SensorError::NotFound));
}

fn fixture_driver() -> DS18B20 {
    DS18B20::init(&entries(&[b"28-000001"])).unwrap()
}

#[test]
fn read_parses_fixture_file() {
    let driver = fixture_driver();
    let content = b"aa bb cc dd ee ff gg hh ii t=23456\n00 00 00 00 00 00 00 00 t=23456".to_vec();
    let m = driver.read_temperture(Some(&content)).unwrap();
    assert_eq!(m, Measurement { num: 23456, den: 1000 });
    assert_eq!(m.num as f64 / m.den as f64, 23.456);
}

#[test]
fn read_failure_then_corrected_read() {
    let driver = fixture_driver();

    let malformed = b"aa bb cc dd : crc=da YES\n00 00 00 00 no token here".to_vec();
    assert_eq!(driver.read_temperture(Some(&malformed)), Err(SensorError::ReadFailed));

    // The driver stays usable: the next read with well-formed content works.
    let corrected = b"aa bb cc dd : crc=da YES\n00 00 00 00 t=21500".to_vec();
    let m = driver.read_temperture(Some(&corrected)).unwrap();
    assert_eq!(m, Measurement { num: 21500, den: 1000 });
}

#[test]
fn read_negative_millidegrees() {
    let driver = fixture_driver();
    let content = b"line one\nxx t=-1250".to_vec();
    let m = driver.read_temperture(Some(&content)).unwrap();
    assert_eq!(m, Measurement { num: -1250, den: 1000 });
    assert_eq!(m.num as f64 / m.den as f64, -1.25);
}

#[test]
fn read_uses_second_line_token_only() {
    // Tokens on the first and third lines do not count; everything after
    // the second line's token up to its line break must be the number.
    let driver = fixture_driver();
    let content = b"header t=99\nxx yy t=1000\nthird line t=3000".to_vec();
    let m = driver.read_temperture(Some(&content)).unwrap();
    assert_eq!(m, Measurement { num: 1000, den: 1000 });

    // After the first token of the second line, trailing text makes the
    // value malformed, even with a well-formed token later on the line.
    let content = b"header\nxx t=1000 yy t=2000".to_vec();
    assert_eq!(driver.read_temperture(Some(&content)), Err(SensorError::ReadFailed));
}

#[test]
fn read_strips_carriage_return_before_line_break() {
    let driver = fixture_driver();
    let content = b"header\r\nxx t=500\r\ntrailing".to_vec();
    let m = driver.read_temperture(Some(&content)).unwrap();
    assert_eq!(m, Measurement { num: 500, den: 1000 });
}

#[test]
fn read_rejects_missing_file_and_short_files() {
    let driver = fixture_driver();
    assert_eq!(driver.read_temperture(None), Err(SensorError::ReadFailed));
    assert_eq!(driver.read_temperture(Some(&b"".to_vec())), Err(SensorError::ReadFailed));
    assert_eq!(
        driver.read_temperture(Some(&b"only one line t=123".to_vec())),
        Err(SensorError::ReadFailed)
    );
    assert_eq!(
        driver.read_temperture(Some(&b"first line ends the file\n".to_vec())),
        Err(SensorError::ReadFailed)
    );
}

#[test]
fn read_rejects_malformed_numbers() {
    let driver = fixture_driver();
    for second_line in [
        &b"t="[..],
        b"t=abc",
        b"t= 123",
        b"t=12x",
        b"t=--5",
        b"t=99999999999999999999",
        b"t=2147483648",
        b"t=-2147483649",
    ] {
        let mut content = b"first\n".to_vec();
        content.extend_from_slice(second_line);
        assert_eq!(driver.read_temperture(Some(&content)), Err(SensorError::ReadFailed));
    }
}

#[test]
fn read_accepts_extreme_32_bit_values() {
    let driver = fixture_driver();

    let content = b"first\nt=2147483647".to_vec();
    let m = driver.read_temperture(Some(&content)).unwrap();
    assert_eq!(m, Measurement { num: 2147483647, den: 1000 });

    let content = b"first\nt=-2147483648".to_vec();
    let m = driver.read_temperture(Some(&content)).unwrap();
    assert_eq!(m, Measurement { num: -2147483648, den: 1000 });

    let content = b"first\nt=+700".to_vec();
    let m = driver.read_temperture(Some(&content)).unwrap();
    assert_eq!(m, Measurement { num: 700, den: 1000 });
}

#[test]
fn scan_locations() {
    assert_eq!(scan_root(true), "/sys/bus/w1/devices/");
    assert_eq!(scan_root(false), "./test/debug_path/");
    assert_eq!(status_file_name(), "w1_slave");
}

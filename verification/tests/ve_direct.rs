use bt_core::bounded::FrameMap;
use bt_core::sensor::ve_direct::{
    Averaging, Checksum, FrameEvent, FrameHandler, Reading, Runner,
};
use bt_core::text::{parse_i32, parse_u32};

const FRAME: [u8; 112] = [
    0x0d, 0x0a, 0x50, 0x49, 0x44, 0x09, 0x30, 0x78, 0x32, 0x30, 0x33, 0x0d, 0x0a, 0x56, 0x09, 0x32,
    0x36, 0x32, 0x30, 0x31, 0x0d, 0x0a, 0x49, 0x09, 0x30, 0x0d, 0x0a, 0x50, 0x09, 0x30, 0x0d, 0x0a,
    0x43, 0x45, 0x09, 0x30, 0x0d, 0x0a, 0x53, 0x4f, 0x43, 0x09, 0x31, 0x30, 0x30, 0x30, 0x0d, 0x0a,
    0x54, 0x54, 0x47, 0x09, 0x2d, 0x31, 0x0d, 0x0a, 0x41, 0x6c, 0x61, 0x72, 0x6d, 0x09, 0x4f, 0x46,
    0x46, 0x0d, 0x0a, 0x52, 0x65, 0x6c, 0x61, 0x79, 0x09, 0x4f, 0x46, 0x46, 0x0d, 0x0a, 0x41, 0x52,
    0x09, 0x30, 0x0d, 0x0a, 0x42, 0x4d, 0x56, 0x09, 0x37, 0x30, 0x30, 0x0d, 0x0a, 0x46, 0x57, 0x09,
    0x30, 0x33, 0x30, 0x37, 0x0d, 0x0a, 0x43, 0x68, 0x65, 0x63, 0x6b, 0x73, 0x75, 0x6d, 0x09, 0xd8,
];

fn run_once(handler: &mut FrameHandler, stream: &mut std::slice::Iter<u8>) -> Option<Result<FrameMap, ()>> {
    for byte in stream {
        match handler.push_byte(*byte) {
            FrameEvent::More => {}
            FrameEvent::Frame { fields } => return Some(Ok(fields)),
            FrameEvent::Invalid => return Some(Err(())),
        }
    }
    None
}

fn with_checksum(body: &[u8]) -> Vec<u8> {
    let mut frame = body.to_vec();
    frame.extend_from_slice(b"\r\nChecksum\t");
    let sum = frame.iter().fold(0u8, |acc, b| acc.wrapping_add(*b));
    frame.push(0u8.wrapping_sub(sum));
    frame
}

fn value<'a>(fields: &'a FrameMap, label: &[u8]) -> &'a [u8] {
    fields.get(label).unwrap()
}

#[test]
fn ve_direct_check_read_once() {
    let mut stream = FRAME.iter();
    let mut frame_handler = FrameHandler::new();
    let values = run_once(&mut frame_handler, &mut stream).unwrap().unwrap();
    assert_eq!(value(&values, b"PID"), b"0x203");
    assert_eq!(value(&values, b"V"), b"26201");
    assert_eq!(value(&values, b"P"), b"0");
}

#[test]
fn ve_direct_check_read_twice() {
    let mut raw_data = FRAME.to_vec();
    raw_data.extend_from_slice(&FRAME);
    let mut stream = raw_data.iter();
    let mut frame_handler = FrameHandler::new();
    let values_1 = run_once(&mut frame_handler, &mut stream).unwrap().unwrap();
    let values_2 = run_once(&mut frame_handler, &mut stream).unwrap().unwrap();
    assert_eq!(value(&values_1, b"PID"), b"0x203");
    assert_eq!(value(&values_1, b"V"), b"26201");
    assert_eq!(value(&values_1, b"P"), b"0");
    assert_eq!(value(&values_2, b"PID"), b"0x203");
    assert_eq!(value(&values_2, b"V"), b"26201");
    assert_eq!(value(&values_2, b"P"), b"0");
    assert!(run_once(&mut frame_handler, &mut stream).is_none());
}

#[test]
fn the_frame_holds_all_its_fields() {
    let mut stream = FRAME.iter();
    let mut frame_handler = FrameHandler::new();
    let values = run_once(&mut frame_handler, &mut stream).unwrap().unwrap();
    assert_eq!(value(&values, b"I"), b"0");
    assert_eq!(value(&values, b"CE"), b"0");
    assert_eq!(value(&values, b"SOC"), b"1000");
    assert_eq!(value(&values, b"TTG"), b"-1");
    assert_eq!(value(&values, b"Alarm"), b"OFF");
    assert_eq!(value(&values, b"Relay"), b"OFF");
    assert_eq!(value(&values, b"AR"), b"0");
    assert_eq!(value(&values, b"BMV"), b"700");
    assert_eq!(value(&values, b"FW"), b"0307");
    assert!(values.get(b"Checksum").is_none());
    assert!(values.get(b"VPV").is_none());
}

#[test]
fn the_reading_of_a_frame() {
    let mut frame_handler = FrameHandler::new();
    let mut readings = Vec::new();
    for byte in FRAME.iter() {
        if let Some(reading) = frame_handler.read_next(*byte) {
            readings.push(reading);
        }
    }
    assert_eq!(
        readings,
        vec![Reading {
            battery_voltage: 26201,
            battery_current: 0,
            panel_voltage: 0,
            panel_power: 0,
            load_current: 0
        }]
    );
}

#[test]
fn a_short_frame_with_the_same_checksum_byte_does_not_add_up() {
    let bytes: [u8; 42] = [
        0x0D, 0x0A, 0x50, 0x49, 0x44, 0x09, 0x30, 0x78, 0x32, 0x30, 0x33, 0x0D, 0x0A, 0x56, 0x09,
        0x32, 0x36, 0x32, 0x30, 0x31, 0x0D, 0x0A, 0x49, 0x09, 0x30, 0x0D, 0x0A, 0x50, 0x09, 0x30,
        0x0D, 0x0A, 0x43, 0x68, 0x65, 0x63, 0x6B, 0x73, 0x75, 0x6D, 0x09, 0xD8,
    ];
    assert_eq!(bytes.iter().fold(0u8, |acc, b| acc.wrapping_add(*b)), 15);
    let mut stream = bytes.iter();
    let mut frame_handler = FrameHandler::new();
    assert!(matches!(run_once(&mut frame_handler, &mut stream), Some(Err(()))));
    assert!(run_once(&mut frame_handler, &mut stream).is_none());
}

#[test]
fn parser_single_frame() {
    let mut bytes: Vec<u8> = vec![
        0x0D, 0x0A, 0x50, 0x49, 0x44, 0x09, 0x30, 0x78, 0x32, 0x30, 0x33, 0x0D, 0x0A, 0x56, 0x09,
        0x32, 0x36, 0x32, 0x30, 0x31, 0x0D, 0x0A, 0x49, 0x09, 0x30, 0x0D, 0x0A, 0x50, 0x09, 0x30,
        0x0D, 0x0A, 0x43, 0x68, 0x65, 0x63, 0x6B, 0x73, 0x75, 0x6D, 0x09,
    ];
    bytes.push(0xC9);
    let mut stream = bytes.iter();
    let mut frame_handler = FrameHandler::new();
    let values = run_once(&mut frame_handler, &mut stream).unwrap().unwrap();
    assert_eq!(value(&values, b"V"), b"26201");
    assert_eq!(value(&values, b"I"), b"0");
    assert_eq!(value(&values, b"P"), b"0");
    let reading = Reading::from_frame(&values);
    assert_eq!(reading.battery_voltage, 26201);
    assert_eq!(reading.battery_current, 0);
}

#[test]
fn all_five_measurements_are_read() {
    let frame = with_checksum(b"\r\nV\t12850\r\nI\t-1500\r\nVPV\t35210\r\nPPV\t120\r\nIL\t+800\r\nH19\t456");
    let mut frame_handler = FrameHandler::new();
    let mut readings = Vec::new();
    for byte in frame.iter() {
        if let Some(reading) = frame_handler.read_next(*byte) {
            readings.push(reading);
        }
    }
    assert_eq!(
        readings,
        vec![Reading {
            battery_voltage: 12850,
            battery_current: -1500,
            panel_voltage: 35210,
            panel_power: 120,
            load_current: 800
        }]
    );
}

#[test]
fn values_that_are_no_numbers_count_as_zero() {
    let frame = with_checksum(b"\r\nV\t12.8\r\nI\t--5\r\nVPV\t\r\nPPV\t-3\r\nIL\t7A");
    let mut stream = frame.iter();
    let mut frame_handler = FrameHandler::new();
    let values = run_once(&mut frame_handler, &mut stream).unwrap().unwrap();
    assert_eq!(Reading::from_frame(&values), Reading::zero());
}

#[test]
fn an_unsigned_value_beyond_32_signed_bits_is_clamped() {
    let frame = with_checksum(b"\r\nV\t4000000000\r\nVPV\t4294967296\r\nPPV\t2147483647");
    let mut stream = frame.iter();
    let mut frame_handler = FrameHandler::new();
    let values = run_once(&mut frame_handler, &mut stream).unwrap().unwrap();
    let reading = Reading::from_frame(&values);
    assert_eq!(reading.battery_voltage, 2147483647);
    assert_eq!(reading.panel_voltage, 0);
    assert_eq!(reading.panel_power, 2147483647);
}

#[test]
fn bytes_before_the_first_carriage_return_are_skipped() {
    let mut bytes = b"garbage\nmore\tgarbage".to_vec();
    bytes.extend_from_slice(&FRAME);
    let mut stream = bytes.iter();
    let mut frame_handler = FrameHandler::new();
    let values = run_once(&mut frame_handler, &mut stream).unwrap().unwrap();
    assert_eq!(value(&values, b"V"), b"26201");
}

#[test]
fn a_frame_that_does_not_add_up_is_dropped_and_the_next_is_read() {
    let mut broken = FRAME.to_vec();
    broken[16] = b'7';
    let mut bytes = broken;
    bytes.extend_from_slice(&FRAME);
    let mut stream = bytes.iter();
    let mut frame_handler = FrameHandler::new();
    assert!(matches!(run_once(&mut frame_handler, &mut stream), Some(Err(()))));
    let values = run_once(&mut frame_handler, &mut stream).unwrap().unwrap();
    assert_eq!(value(&values, b"V"), b"26201");
}

#[test]
fn a_label_keeps_9_bytes_and_a_value_32() {
    let long = [b'L'; 12];
    let mut body = b"\r\n".to_vec();
    body.extend_from_slice(&long);
    body.extend_from_slice(b"\t");
    body.extend_from_slice(&[b'v'; 35]);
    body.extend_from_slice(b"\r\nLabelOf9B\t");
    body.extend_from_slice(&[b'w'; 32]);
    let frame = with_checksum(&body);
    let mut stream = frame.iter();
    let mut frame_handler = FrameHandler::new();
    let values = run_once(&mut frame_handler, &mut stream).unwrap().unwrap();
    assert_eq!(value(&values, &[b'L'; 9]), &[b'v'; 32][..]);
    assert!(values.get(&long).is_none());
    assert!(values.get(&[b'L'; 10]).is_none());
    assert_eq!(value(&values, b"LabelOf9B"), &[b'w'; 32][..]);
}

#[test]
fn a_frame_holds_at_most_twenty_fields() {
    let mut body = Vec::new();
    for i in 0..22 {
        body.extend_from_slice(format!("\r\nF{}\t{}", i, i).as_bytes());
    }
    body.extend_from_slice(b"\r\nF3\tagain");
    let frame = with_checksum(&body);
    let mut stream = frame.iter();
    let mut frame_handler = FrameHandler::new();
    let values = run_once(&mut frame_handler, &mut stream).unwrap().unwrap();
    assert_eq!(value(&values, b"F0"), b"0");
    assert_eq!(value(&values, b"F19"), b"19");
    assert!(values.get(b"F20").is_none());
    assert!(values.get(b"F21").is_none());
    assert_eq!(value(&values, b"F3"), b"again");
}

#[test]
fn a_repeated_label_keeps_its_last_value() {
    let frame = with_checksum(b"\r\nV\t1\r\nV\t2");
    let mut stream = frame.iter();
    let mut frame_handler = FrameHandler::new();
    let values = run_once(&mut frame_handler, &mut stream).unwrap().unwrap();
    assert_eq!(value(&values, b"V"), b"2");
}

#[test]
fn a_label_that_is_not_utf8_becomes_the_empty_label() {
    let frame = with_checksum(b"\r\n\xff\xfe\t5\r\nV\t\xff");
    let mut stream = frame.iter();
    let mut frame_handler = FrameHandler::new();
    let values = run_once(&mut frame_handler, &mut stream).unwrap().unwrap();
    assert_eq!(value(&values, b""), b"5");
    assert_eq!(value(&values, b"V"), b"");
}

#[test]
fn checksum_adds_modulo_256() {
    let mut checksum = Checksum::new();
    assert!(checksum.is_valid());
    checksum.add(200);
    assert!(!checksum.is_valid());
    checksum.add(56);
    assert!(checksum.is_valid());
    checksum.add(1);
    checksum.clear();
    assert!(checksum.is_valid());
    for byte in FRAME.iter() {
        checksum.add(*byte);
    }
    assert!(checksum.is_valid());
}

#[test]
fn whole_numbers_are_parsed() {
    assert_eq!(parse_u32(b"26201"), Some(26201));
    assert_eq!(parse_u32(b"+5"), Some(5));
    assert_eq!(parse_u32(b"-5"), None);
    assert_eq!(parse_u32(b""), None);
    assert_eq!(parse_u32(b"+"), None);
    assert_eq!(parse_u32(b"12a"), None);
    assert_eq!(parse_u32(b"4294967295"), Some(4294967295));
    assert_eq!(parse_u32(b"4294967296"), None);
    assert_eq!(parse_i32(b"-1"), Some(-1));
    assert_eq!(parse_i32(b"+1"), Some(1));
    assert_eq!(parse_i32(b"1 "), None);
    assert_eq!(parse_i32(b"-"), None);
    assert_eq!(parse_i32(b"-2147483648"), Some(-2147483648));
    assert_eq!(parse_i32(b"2147483648"), None);
}

#[test]
fn averaging() {
    let mut storage = Averaging::new();
    assert!(storage.average().is_none());

    storage.add_reading(&Reading {
        battery_voltage: 12000,
        battery_current: 1000,
        panel_voltage: 22000,
        panel_power: 50,
        load_current: 800,
    });
    storage.add_reading(&Reading {
        battery_voltage: 12000,
        battery_current: 1000,
        panel_voltage: 18000,
        panel_power: 52,
        load_current: 200,
    });

    let average = storage.average().unwrap();
    assert_eq!(average.1, 2);
    assert_eq!(average.0.battery_voltage, 12000);
    assert_eq!(average.0.battery_current, 1000);
    assert_eq!(average.0.panel_voltage, 20000);
    assert_eq!(average.0.panel_power, 51);
    assert_eq!(average.0.load_current, 500);

    assert!(storage.average().is_none());

    for i in 0..10 {
        storage.add_reading(&Reading {
            battery_voltage: 12000 + 1000 * i,
            battery_current: 1000 + 1000 * i,
            panel_voltage: 18000 + 1000 * i,
            panel_power: 52 + i,
            load_current: 200 + 1000 * i,
        });
    }
    let average = storage.average().unwrap();
    assert_eq!(average.1, 10);
    assert_eq!(average.0.battery_voltage, 16500);
    assert_eq!(average.0.battery_current, 5500);
    assert_eq!(average.0.panel_voltage, 22500);
    assert_eq!(average.0.panel_power, 56);
    assert_eq!(average.0.load_current, 4700);

    assert!(storage.average().is_none());
}

#[test]
fn averaging_two_readings() {
    let mut storage = Averaging::new();
    assert!(storage.add_reading(&Reading {
        battery_voltage: 12000,
        battery_current: 1000,
        panel_voltage: 22000,
        panel_power: 50,
        load_current: 800,
    }));
    assert!(storage.add_reading(&Reading {
        battery_voltage: 12000,
        battery_current: 1000,
        panel_voltage: 18000,
        panel_power: 52,
        load_current: 200,
    }));
    assert_eq!(storage.count(), 2);
    assert_eq!(
        storage.average(),
        Some((
            Reading {
                battery_voltage: 12000,
                battery_current: 1000,
                panel_voltage: 20000,
                panel_power: 51,
                load_current: 500
            },
            2
        ))
    );
    assert_eq!(storage.count(), 0);
}

#[test]
fn the_mean_rounds_towards_zero() {
    let mut storage = Averaging::new();
    for v in [1, 2] {
        storage.add_reading(&Reading {
            battery_voltage: v,
            battery_current: -v,
            panel_voltage: i32::MAX,
            panel_power: i32::MIN,
            load_current: 0,
        });
    }
    let (mean, count) = storage.average().unwrap();
    assert_eq!(count, 2);
    assert_eq!(mean.battery_voltage, 1);
    assert_eq!(mean.battery_current, -1);
    assert_eq!(mean.panel_voltage, i32::MAX);
    assert_eq!(mean.panel_power, i32::MIN);
    assert_eq!(mean.load_current, 0);
}

#[test]
fn the_runner_hands_out_one_mean_per_interval() {
    let low = with_checksum(b"\r\nV\t12000\r\nI\t1000");
    let high = with_checksum(b"\r\nV\t13000\r\nI\t3000");
    let mut runner = Runner::new(1000, 5000);
    let mut out = Vec::new();
    for (frame, now_ms) in [(&low, 5100u64), (&high, 5900), (&low, 6000), (&high, 6500), (&high, 7000)] {
        for byte in frame.iter() {
            if let Some(average) = runner.averaging_once(*byte, now_ms) {
                out.push((now_ms, average));
            }
        }
    }
    let reading = |v, i| Reading {
        battery_voltage: v,
        battery_current: i,
        panel_voltage: 0,
        panel_power: 0,
        load_current: 0,
    };
    assert_eq!(
        out,
        vec![(6000, (reading(12333, 1666), 3)), (7000, (reading(13000, 3000), 2))]
    );
}

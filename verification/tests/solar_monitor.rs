use bt_core::bounded::{Entries, UploadVec, MAX_ENTRIES, UPLOAD_MAX_MESSAGE_SIZE};
use bt_core::proto::{
    bounded, push_message_field, push_number_field, push_varint, read_message_field,
    read_number_field, read_varint, Event, SystemEvent, Upload, UploadEntry,
    EVENT_MAX_MESSAGE_SIZE,
};
use bt_core::sensor::ve_direct::Reading;
use bt_core::solar_monitor::{offset_seconds, Runner};
use bt_core::time::{DateTime, UtcTime};

fn batch(entries: &[UploadEntry]) -> Entries {
    Entries::from_slice(entries).unwrap()
}

fn reading_number(i: i32) -> Reading {
    Reading {
        battery_voltage: 10000 + 100 * i,
        battery_current: 2000 + 100 * i,
        panel_voltage: 18000 + 100 * i,
        panel_power: 5 + i / 10,
        load_current: 1000 + 100 * i,
    }
}

fn create_uploads(runner: &mut Runner, startup: i64) -> Vec<UploadVec> {
    let mut uploads = Vec::new();
    let mut clock = UtcTime::new();
    for i in 0..24 {
        clock.time_sync(startup + 5 * 60 * i, 0);
        if let Some(upload) = runner.handle_reading(reading_number(i as i32), clock.now(0)) {
            uploads.push(upload);
        }
    }
    uploads
}

#[test]
fn check_handle_reading() {
    let startup = DateTime::new(2025, 11, 30, 12, 30, 0).unwrap().timestamp();
    let mut runner = Runner::new();
    let uploads = create_uploads(&mut runner, startup);
    assert_eq!(uploads.len(), 2);

    let first = Upload::decode(uploads[0].as_slice()).unwrap();
    assert_eq!(first.start_timestamp, startup);
    assert_eq!(first.entries.len(), 12);
    assert_eq!(first.entries.as_slice()[0].offset_in_seconds, 0);
    assert_eq!(first.entries.as_slice()[1].offset_in_seconds, 60 * 5);
    assert_eq!(first.entries.as_slice()[11].offset_in_seconds, (60 * 5) * 11);

    let second = Upload::decode(uploads[1].as_slice()).unwrap();
    assert_eq!(second.start_timestamp, startup + 5 * 60 * 12);
    assert_eq!(second.entries.len(), 12);
    assert_eq!(first.entries.as_slice()[0].offset_in_seconds, 0);
    assert_eq!(first.entries.as_slice()[1].offset_in_seconds, 60 * 5);
    assert_eq!(first.entries.as_slice()[11].offset_in_seconds, (60 * 5) * 11);
}

#[test]
fn upload_batch_boundary() {
    let t0 = 1764505800;
    let mut runner = Runner::new();
    let uploads = create_uploads(&mut runner, t0);
    assert_eq!(uploads.len(), 2);
    assert_eq!(runner.pending(), 0);
    for (k, bytes) in uploads.iter().enumerate() {
        let upload = Upload::decode(bytes.as_slice()).unwrap();
        assert_eq!(upload.start_timestamp, t0 + 60 * 60 * k as i64);
        assert_eq!(upload.entries.len(), 12);
        for (i, entry) in upload.entries.as_slice().iter().enumerate() {
            assert_eq!(entry.offset_in_seconds, 300 * i as i32);
            assert_eq!(entry.reading, reading_number((12 * k + i) as i32));
        }
    }
}

#[test]
fn the_thirteenth_reading_opens_a_new_batch() {
    let mut runner = Runner::new();
    let mut handed = 0;
    for i in 0..12 {
        assert_eq!(runner.pending(), i);
        if runner.handle_reading(reading_number(i as i32), Some(1000 + 7 * i as i64)).is_some() {
            handed += 1;
            assert_eq!(i, 11);
        }
    }
    assert_eq!(handed, 1);
    assert_eq!(runner.pending(), 0);
    assert!(runner.handle_reading(reading_number(12), Some(5000)).is_none());
    assert_eq!(runner.pending(), 1);
    let mut last = None;
    for i in 13..24 {
        last = runner.handle_reading(reading_number(i), Some(5000 + i as i64));
    }
    let second = Upload::decode(last.unwrap().as_slice()).unwrap();
    assert_eq!(second.start_timestamp, 5000);
    assert_eq!(second.entries.as_slice()[0].offset_in_seconds, 0);
    assert_eq!(second.entries.as_slice()[0].reading, reading_number(12));
    assert_eq!(second.entries.as_slice()[1].offset_in_seconds, 13);
}

#[test]
fn readings_before_the_clock_is_set_are_dropped() {
    let mut runner = Runner::new();
    for i in 0..30 {
        assert!(runner.handle_reading(reading_number(i), None).is_none());
    }
    assert_eq!(runner.pending(), 0);
    assert!(runner.handle_reading(reading_number(0), Some(10)).is_none());
    assert!(runner.handle_reading(reading_number(1), None).is_none());
    assert_eq!(runner.pending(), 1);
}

#[test]
fn offsets_wrap_at_32_bits() {
    assert_eq!(offset_seconds(300, 0), 300);
    assert_eq!(offset_seconds(0, 300), -300);
    assert_eq!(offset_seconds(2147483647, 0), 2147483647);
    assert_eq!(offset_seconds(2147483648, 0), -2147483648);
    assert_eq!(offset_seconds(4294967296, 0), 0);
    assert_eq!(offset_seconds(i64::MAX, i64::MIN), -1);
    assert_eq!(offset_seconds(i64::MIN, i64::MAX), 1);
}

#[test]
fn varints() {
    let mut out = Vec::new();
    push_varint(&mut out, 0);
    push_varint(&mut out, 127);
    push_varint(&mut out, 128);
    push_varint(&mut out, 300);
    push_varint(&mut out, u64::MAX);
    assert_eq!(
        out,
        vec![
            0x00, 0x7f, 0x80, 0x01, 0xac, 0x02, 0xff, 0xff, 0xff, 0xff, 0xff, 0xff, 0xff, 0xff,
            0xff, 0x01
        ]
    );
    assert_eq!(read_varint(&out, 0, 10), Some((0, 1)));
    assert_eq!(read_varint(&out, 1, 10), Some((127, 2)));
    assert_eq!(read_varint(&out, 2, 10), Some((128, 4)));
    assert_eq!(read_varint(&out, 4, 10), Some((300, 6)));
    assert_eq!(read_varint(&out, 6, 10), Some((u64::MAX, 16)));
    assert_eq!(read_varint(&out, 6, 9), None);
    assert_eq!(read_varint(&out, 16, 10), None);
    assert_eq!(read_varint(&[0x80], 0, 10), None);
    assert_eq!(
        read_varint(&[0xff, 0xff, 0xff, 0xff, 0xff, 0xff, 0xff, 0xff, 0xff, 0x02], 0, 10),
        None
    );
}

#[test]
fn number_and_message_fields() {
    let mut out = Vec::new();
    push_number_field(&mut out, 1, -1);
    push_number_field(&mut out, 2, 0);
    push_number_field(&mut out, 3, 300);
    push_message_field(&mut out, 4, &vec![9, 9, 9]);
    push_message_field(&mut out, 5, &vec![]);
    let expected = vec![
        0x08, 0xff, 0xff, 0xff, 0xff, 0xff, 0xff, 0xff, 0xff, 0xff, 0x01, 0x18, 0xac, 0x02, 0x22,
        0x03, 9, 9, 9, 0x2a, 0x00,
    ];
    assert_eq!(out, expected);
    assert_eq!(read_number_field(&out, 0, 1), Some((-1, 11)));
    assert_eq!(read_number_field(&out, 11, 2), Some((0, 11)));
    assert_eq!(read_number_field(&out, 11, 3), Some((300, 14)));
    assert_eq!(read_message_field(&out, 14, 4), Some((16, 19)));
    assert_eq!(read_message_field(&out, 19, 5), Some((21, 21)));
    assert_eq!(read_message_field(&out, 14, 5), None);
    assert_eq!(read_number_field(&[0x08, 0x00], 0, 1), None);
    assert_eq!(read_message_field(&[0x12, 0x05, 1, 2], 0, 2), None);
}

#[test]
fn the_wire_form_of_a_reading() {
    let reading = Reading {
        battery_voltage: 12000,
        battery_current: -1500,
        panel_voltage: 22000,
        panel_power: 50,
        load_current: 800,
    };
    let expected = vec![
        0x08, 0xe0, 0x5d, 0x10, 0xa4, 0xf4, 0xff, 0xff, 0xff, 0xff, 0xff, 0xff, 0xff, 0x01, 0x18,
        0xf0, 0xab, 0x01, 0x20, 0x32, 0x28, 0xa0, 0x06,
    ];
    assert_eq!(reading.encode(), expected);
    assert_eq!(Reading::decode(&expected), Some(reading));
    assert_eq!(Reading::zero().encode(), vec![]);
    assert_eq!(Reading::decode(&[]), Some(Reading::zero()));
}

#[test]
fn the_wire_form_of_an_upload() {
    let reading = Reading {
        battery_voltage: 12000,
        battery_current: -1500,
        panel_voltage: 22000,
        panel_power: 50,
        load_current: 800,
    };
    let upload = Upload {
        start_timestamp: 1764505800,
        entries: batch(&[
            UploadEntry { offset_in_seconds: 0, reading },
            UploadEntry { offset_in_seconds: 300, reading: Reading::zero() },
        ]),
    };
    let expected = vec![
        0x08, 0xc8, 0xf1, 0xb0, 0xc9, 0x06, 0x12, 0x19, 0x12, 0x17, 0x08, 0xe0, 0x5d, 0x10, 0xa4,
        0xf4, 0xff, 0xff, 0xff, 0xff, 0xff, 0xff, 0xff, 0x01, 0x18, 0xf0, 0xab, 0x01, 0x20, 0x32,
        0x28, 0xa0, 0x06, 0x12, 0x05, 0x08, 0xac, 0x02, 0x12, 0x00,
    ];
    assert_eq!(upload.encode(), expected);
    assert_eq!(Upload::decode(&expected), Some(upload));
    assert_eq!(upload_entry_bytes(300, reading), expected_entry());
}

fn upload_entry_bytes(offset: i32, reading: Reading) -> Vec<u8> {
    UploadEntry { offset_in_seconds: offset, reading }.encode()
}

fn expected_entry() -> Vec<u8> {
    vec![
        0x08, 0xac, 0x02, 0x12, 0x17, 0x08, 0xe0, 0x5d, 0x10, 0xa4, 0xf4, 0xff, 0xff, 0xff, 0xff,
        0xff, 0xff, 0xff, 0x01, 0x18, 0xf0, 0xab, 0x01, 0x20, 0x32, 0x28, 0xa0, 0x06,
    ]
}

#[test]
fn uploads_round_trip() {
    let extreme = Reading {
        battery_voltage: i32::MIN,
        battery_current: i32::MAX,
        panel_voltage: -1,
        panel_power: 0,
        load_current: 1,
    };
    for n in 0..=MAX_ENTRIES {
        for start in [0i64, 1, -1, 1764505800, i64::MIN, i64::MAX] {
            let mut entries = Vec::new();
            for i in 0..n {
                let reading = if i % 3 == 0 { extreme } else { reading_number(i as i32) };
                let offset = if i % 2 == 0 { 300 * i as i32 } else { -(i as i32) };
                entries.push(UploadEntry { offset_in_seconds: offset, reading });
            }
            let upload = Upload { start_timestamp: start, entries: batch(&entries) };
            let bytes = upload.encode();
            assert!(bytes.len() <= UPLOAD_MAX_MESSAGE_SIZE);
            assert_eq!(Upload::decode(&bytes), Some(upload));
        }
    }
}

#[test]
fn the_largest_upload_takes_851_bytes() {
    let all_bits = Reading {
        battery_voltage: -1,
        battery_current: -1,
        panel_voltage: -1,
        panel_power: -1,
        load_current: -1,
    };
    let entries = batch(&[UploadEntry { offset_in_seconds: -1, reading: all_bits }; 12]);
    let upload = Upload { start_timestamp: -1, entries };
    assert_eq!(upload.encode().len(), UPLOAD_MAX_MESSAGE_SIZE);
    assert_eq!(bounded(upload.encode(), UPLOAD_MAX_MESSAGE_SIZE), Some(upload.encode()));
    assert_eq!(bounded(upload.encode(), UPLOAD_MAX_MESSAGE_SIZE - 1), None);
}

#[test]
fn wire_forms_that_are_not_uploads_are_refused() {
    assert_eq!(Upload::decode(&[0x08]), None);
    assert_eq!(Upload::decode(&[0x08, 0x00]), None);
    assert_eq!(Upload::decode(&[0x10, 0x01]), None);
    assert_eq!(Upload::decode(&[0x12, 0x01]), None);
    assert_eq!(Upload::decode(&[0x12, 0x00]), None);
    assert_eq!(Upload::decode(&[0x12, 0x02, 0x12, 0x00, 0xff]), None);
    assert_eq!(
        Upload::decode(&[0x12, 0x02, 0x12, 0x00]),
        Some(Upload {
            start_timestamp: 0,
            entries: batch(&[UploadEntry { offset_in_seconds: 0, reading: Reading::zero() }])
        })
    );
    let empty_entry = UploadEntry { offset_in_seconds: 0, reading: Reading::zero() };
    let twelve = Upload { start_timestamp: 0, entries: batch(&[empty_entry; 12]) };
    let mut bytes = twelve.encode();
    assert_eq!(Upload::decode(&bytes), Some(twelve));
    push_message_field(&mut bytes, 2, &empty_entry.encode());
    assert_eq!(Upload::decode(&bytes), None);
    assert_eq!(UploadEntry::decode(&[0x08, 0x80, 0x80, 0x80, 0x80, 0x08, 0x12, 0x00]), None);
    assert_eq!(Reading::decode(&[0x10, 0x01, 0x08, 0x01]), None);
}

#[test]
fn the_wire_form_of_events() {
    let startup = SystemEvent {
        timestamp: 1764505800,
        event: Some(Event::StartupEvent { uptime_seconds: 123 }),
    };
    assert_eq!(startup.encode(), vec![0x08, 0xc8, 0xf1, 0xb0, 0xc9, 0x06, 0x12, 0x02, 0x08, 0x7b]);
    let offline = SystemEvent {
        timestamp: 1764505800,
        event: Some(Event::OfflineEvent { uptime_seconds: 0 }),
    };
    assert_eq!(offline.encode(), vec![0x08, 0xc8, 0xf1, 0xb0, 0xc9, 0x06, 0x1a, 0x00]);
    let online = SystemEvent {
        timestamp: 5,
        event: Some(Event::OnlineEvent { uptime_seconds: u32::MAX }),
    };
    assert_eq!(online.encode(), vec![0x08, 0x05, 0x22, 0x06, 0x08, 0xff, 0xff, 0xff, 0xff, 0x0f]);
    let bare = SystemEvent { timestamp: 0, event: None };
    assert_eq!(bare.encode(), vec![]);
    let largest = SystemEvent {
        timestamp: -1,
        event: Some(Event::StartupEvent { uptime_seconds: u32::MAX }),
    };
    assert_eq!(largest.encode().len(), EVENT_MAX_MESSAGE_SIZE);
}

#[test]
fn entries_hold_up_to_twelve() {
    let entry = UploadEntry { offset_in_seconds: 7, reading: reading_number(3) };
    let mut entries = Entries::new();
    assert_eq!(entries.len(), 0);
    assert!(!entries.is_full());
    for i in 0..12 {
        assert!(entries.push(UploadEntry { offset_in_seconds: i, reading: reading_number(i) }));
    }
    assert!(entries.is_full());
    assert!(!entries.push(entry));
    assert_eq!(entries.len(), 12);
    assert_eq!(entries.as_slice()[0].offset_in_seconds, 0);
    assert_eq!(entries.as_slice()[11].reading, reading_number(11));
    assert!(Entries::from_slice(&[entry; 13]).is_none());
    assert_eq!(Entries::from_slice(&[entry; 2]).unwrap().as_slice(), &[entry; 2][..]);
}

#[test]
fn an_upload_vector_holds_up_to_851_bytes() {
    let bytes = vec![7u8; 851];
    let upload = UploadVec::from_slice(&bytes).unwrap();
    assert_eq!(upload.len(), 851);
    assert_eq!(upload.as_slice(), &bytes[..]);
    assert!(UploadVec::from_slice(&vec![7u8; 852]).is_none());
    assert_eq!(UploadVec::from_slice(&[1, 2, 3]).unwrap().as_slice(), &[1, 2, 3]);
}

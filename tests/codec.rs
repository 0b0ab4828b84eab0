use streamkit::codec::{encode, FromBytes, Parsed, ReadFault, ReadStep, ToBytes, ValueReader};

/// Feeds `bytes` to a fresh reader one at a time, as a stream would deliver
/// them, and ends the stream if they run out before a decision.
fn read_one(bytes: &[u8]) -> (ReadStep<u32>, usize) {
    let mut reader = ValueReader::new();
    let mut taken = 0;
    loop {
        match reader.step::<u32>() {
            ReadStep::NeedMore => {
                if taken < bytes.len() {
                    reader.push(bytes[taken]);
                    taken += 1;
                } else {
                    reader.end();
                }
            }
            done => return (done, taken),
        }
    }
}

#[test]
fn encode_gives_network_byte_order() {
    assert_eq!(encode(0x0102_0304u32), vec![1, 2, 3, 4]);
    assert_eq!(encode(0u32), vec![0, 0, 0, 0]);
    assert_eq!(encode(u32::MAX), vec![255, 255, 255, 255]);
}

#[test]
fn to_bytes_holds_the_image() {
    let b = 0xDEAD_BEEFu32.to_bytes();
    assert_eq!(&b[..], &[0xDE, 0xAD, 0xBE, 0xEF]);
}

#[test]
fn from_bytes_outcomes() {
    assert!(matches!(u32::from_bytes(&[]), Parsed::Incomplete));
    assert!(matches!(u32::from_bytes(&[0, 0, 1]), Parsed::Incomplete));
    assert!(matches!(u32::from_bytes(&[0, 0, 1, 0]), Parsed::Complete(256)));
    assert!(matches!(u32::from_bytes(&[0, 0, 1, 0, 9]), Parsed::Malformed));
}

#[test]
fn round_trip_gives_back_the_value() {
    for m in [0u32, 1, 255, 256, 65_535, 0x8000_0000, 0x1234_5678, u32::MAX] {
        let image = encode(m);
        let (step, taken) = read_one(&image);
        assert!(matches!(step, ReadStep::Value(v) if v == m));
        assert_eq!(taken, image.len());
    }
}

#[test]
fn reader_takes_no_byte_past_the_value() {
    let mut image = encode(42u32);
    image.extend_from_slice(&[7, 7, 7, 7]);
    let (step, taken) = read_one(&image);
    assert!(matches!(step, ReadStep::Value(42)));
    assert_eq!(taken, 4);
}

#[test]
fn reader_value_survives_end_right_after_it() {
    let mut reader = ValueReader::new();
    for b in encode(9u32) {
        reader.push(b);
    }
    reader.end();
    assert!(matches!(reader.step::<u32>(), ReadStep::Value(9)));
}

#[test]
fn reader_fails_when_the_stream_ends_early() {
    let (step, taken) = read_one(&[1, 2]);
    assert!(matches!(step, ReadStep::Fault(ReadFault::Closed)));
    assert_eq!(taken, 2);
}

#[test]
fn reader_fails_on_an_empty_stream() {
    let (step, taken) = read_one(&[]);
    assert!(matches!(step, ReadStep::Fault(ReadFault::Closed)));
    assert_eq!(taken, 0);
}

#[test]
fn reader_fails_on_malformed_bytes() {
    let mut reader = ValueReader::new();
    for b in [1u8, 2, 3, 4, 5] {
        reader.push(b);
    }
    assert!(matches!(reader.step::<u32>(), ReadStep::Fault(ReadFault::Malformed)));
}

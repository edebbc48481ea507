//! Tests of the capturing reader's byte-for-byte fidelity, and of the
//! configuration types.

use gitpack::config::{Color, DecodeError, Entry, File, Span};
use gitpack::source::{ByteSource, PassThrough};

#[test]
fn capture_mirrors_exactly_the_consumed_bytes() {
    let data: Vec<u8> = (0u8..64).collect();
    let mut pt = PassThrough::new(ByteSource::new(data.clone()));

    // peeking mirrors nothing
    assert_eq!(pt.fill_buf().len(), 64);
    assert_eq!(pt.take_capture(), Vec::<u8>::new());

    // interleave fills and consumes of varying sizes
    let mut consumed = 0usize;
    for step in [1usize, 0, 5, 2, 0, 9, 17] {
        let buf = pt.fill_buf();
        assert_eq!(buf, &data[consumed..]);
        pt.consume(step);
        consumed += step;
        let buf = pt.fill_buf();
        assert_eq!(buf, &data[consumed..]);
    }
    let capture = pt.take_capture();
    assert_eq!(capture, data[..consumed].to_vec());

    // capture starts afresh after being taken
    pt.consume(3);
    assert_eq!(pt.take_capture(), data[consumed..consumed + 3].to_vec());
}

#[test]
fn read_bytes_takes_a_prefix_or_nothing() {
    let mut src = ByteSource::new(vec![1, 2, 3, 4, 5]);
    assert_eq!(src.read_bytes(2), Some(vec![1, 2]));
    assert_eq!(src.read_bytes(4), None);
    assert_eq!(src.read_bytes(3), Some(vec![3, 4, 5]));
    assert_eq!(src.read_bytes(1), None);
    assert_eq!(src.read_bytes(0), Some(vec![]));
}

#[test]
fn span_to_range_is_half_open() {
    let span = Span { start: 3, end_inclusive: 7 };
    assert_eq!(span.to_range(), (3, 8));
    let unit = Span { start: 0, end_inclusive: 0 };
    assert_eq!(unit.to_range(), (0, 1));
}

#[test]
fn file_hands_out_the_spanned_bytes() {
    let file = File::from_bytes(b"key = value".to_vec());
    let span = Span { start: 6, end_inclusive: 10 };
    assert_eq!(file.bytes_at(span), b"value");
}

#[test]
fn config_value_decoding_reports_unsupported() {
    let name = Span { start: 0, end_inclusive: 2 };
    let entry = Entry::new(name, Some(Span { start: 6, end_inclusive: 10 }));
    assert_eq!(entry.as_int(), Err(DecodeError::Unsupported));
    assert_eq!(entry.as_bool(), Err(DecodeError::Unsupported));
    assert_eq!(entry.as_path(), Err(DecodeError::Unsupported));
    assert_eq!(entry.as_color(), Err(DecodeError::Unsupported));
    let no_value = Entry::new(name, None);
    assert_eq!(no_value.as_int(), Err(DecodeError::Unsupported));
    assert!(!matches!(no_value.as_color(), Ok(Color::Red)));
    assert_eq!(no_value.as_string(), Err(DecodeError::NoValue));
    assert_eq!(entry.as_string(), Err(DecodeError::Unsupported));
}

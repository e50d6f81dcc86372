use prism_sink::csv::{CsvFormat, QuoteStyle, Terminator};
use prism_sink::encoder::{CsvEncoder, CsvEncoderBuilder, Encoder};
use prism_sink::error::CodecEncodeError;

fn fields(values: &[&str]) -> Vec<Vec<u8>> {
    values.iter().map(|v| v.as_bytes().to_vec()).collect()
}

fn encode_one(encoder: &mut CsvEncoder, values: &[&str]) -> Vec<u8> {
    let mut out = Vec::new();
    encoder.encode_record(&fields(values), &mut out).unwrap();
    out
}

#[test]
fn serialize_fields() {
    let event = vec![
        "bar".to_string(),
        123.to_string(),
        "abc,bcd".to_string(),
        3.1415925.to_string(),
        "sp ace".to_string(),
        "2023-02-27T15:04:49.363+08:00".to_string(),
        "the \"quote\" should be escaped".to_string(),
        true.to_string(),
        "data".to_string(),
    ];
    let refs: Vec<&str> = event.iter().map(|s| s.as_str()).collect();
    let mut encoder = CsvEncoderBuilder::default().build().unwrap();
    let bytes = encode_one(&mut encoder, &refs);
    assert_eq!(
        bytes,
        b"bar,123,\"abc,bcd\",3.1415925,sp ace,2023-02-27T15:04:49.363+08:00,\"the \"\"quote\"\" should be escaped\",true,data\n".to_vec()
    );
}

#[test]
fn correct_quoting() {
    let event = ["hello world", "1", "foo\"bar", "baz,bas"];
    let default_bytes = encode_one(&mut CsvEncoderBuilder::default().build().unwrap(), &event);
    let never_bytes = encode_one(
        &mut CsvEncoderBuilder::new().quote_style(QuoteStyle::Never).build().unwrap(),
        &event,
    );
    let always_bytes = encode_one(
        &mut CsvEncoderBuilder::new().quote_style(QuoteStyle::Always).build().unwrap(),
        &event,
    );
    let non_numeric_bytes = encode_one(
        &mut CsvEncoderBuilder::new().quote_style(QuoteStyle::NonNumeric).build().unwrap(),
        &event,
    );
    assert_eq!(default_bytes, b"hello world,1,\"foo\"\"bar\",\"baz,bas\"\n".to_vec());
    assert_eq!(never_bytes, b"hello world,1,foo\"bar,baz,bas\n".to_vec());
    assert_eq!(always_bytes, b"\"hello world\",\"1\",\"foo\"\"bar\",\"baz,bas\"\n".to_vec());
    assert_eq!(non_numeric_bytes, b"\"hello world\",1,\"foo\"\"bar\",\"baz,bas\"\n".to_vec());
}

#[test]
fn custom_delimiter() {
    let mut encoder = CsvEncoderBuilder::new().delimiter(b'\t').build().unwrap();
    assert_eq!(encode_one(&mut encoder, &["value1", "value2"]), b"value1\tvalue2\n".to_vec());
}

#[test]
fn custom_escape_char() {
    let mut encoder = CsvEncoderBuilder::default().escape(b'\\').double_quote(false).build().unwrap();
    assert_eq!(encode_one(&mut encoder, &["foo\"bar"]), b"\"foo\\\"bar\"\n".to_vec());
}

#[test]
fn custom_quote_char() {
    let mut encoder = CsvEncoderBuilder::default().quote(b'$').build().unwrap();
    assert_eq!(encode_one(&mut encoder, &["foo \" $ bar"]), b"$foo \" $$ bar$\n".to_vec());
}

#[test]
fn more_input_then_capacity() {
    let mut encoder = CsvEncoderBuilder::new().buffer_capacity(3).build().unwrap();
    assert_eq!(encode_one(&mut encoder, &["foo bar"]), b"foo bar\n".to_vec());
}

#[test]
fn never_style_leaves_delimiters_bare() {
    let mut encoder = CsvEncoderBuilder::new().build().unwrap();
    assert_eq!(encode_one(&mut encoder, &["bar", "123", "abc,bcd"]), b"bar,123,abc,bcd\n".to_vec());
}

#[test]
fn always_style_quotes_and_doubles() {
    let mut encoder = CsvEncoderBuilder::new().quote_style(QuoteStyle::Always).build().unwrap();
    assert_eq!(
        encode_one(&mut encoder, &["hello world", "1", "foo\"bar", "baz,bas"]),
        b"\"hello world\",\"1\",\"foo\"\"bar\",\"baz,bas\"\n".to_vec()
    );
}

#[test]
fn quoted_content_larger_than_scratch() {
    let mut encoder = CsvEncoderBuilder::new()
        .quote_style(QuoteStyle::Always)
        .buffer_capacity(1)
        .build()
        .unwrap();
    assert_eq!(encode_one(&mut encoder, &["\"\"ab\""]), b"\"\"\"\"\"ab\"\"\"\n".to_vec());
}

#[test]
fn sole_empty_field_is_quoted() {
    let mut necessary = CsvEncoderBuilder::default().build().unwrap();
    assert_eq!(encode_one(&mut necessary, &[""]), b"\"\"\n".to_vec());
    let mut never = CsvEncoderBuilder::new().build().unwrap();
    assert_eq!(encode_one(&mut never, &[""]), b"\n".to_vec());
    let mut two = CsvEncoderBuilder::default().build().unwrap();
    assert_eq!(encode_one(&mut two, &["", ""]), b",\n".to_vec());
}

#[test]
fn crlf_and_comment_force_quotes() {
    let mut encoder = CsvEncoderBuilder::default()
        .terminator(Terminator::CRLF)
        .comment(Some(b'#'))
        .build()
        .unwrap();
    assert_eq!(
        encode_one(&mut encoder, &["a\rb", "#x", "plain"]),
        b"\"a\rb\",\"#x\",plain\r\n".to_vec()
    );
}

#[test]
fn only_delimiter_quote_terminator_and_comment_force_quotes() {
    let mut escaping = CsvEncoderBuilder::default().double_quote(false).build().unwrap();
    assert_eq!(encode_one(&mut escaping, &["a\\b"]), b"a\\b\n".to_vec());
    let mut lf = CsvEncoderBuilder::default().build().unwrap();
    assert_eq!(encode_one(&mut lf, &["\r"]), b"\r\n".to_vec());
    assert_eq!(encode_one(&mut lf, &["a\nb"]), b"\"a\nb\"\n".to_vec());
}

#[test]
fn encoder_trait_encodes_batches() {
    let mut encoder = CsvEncoderBuilder::new().build().unwrap();
    let mut out = Vec::new();
    Encoder::encode(&mut encoder, vec![b"a".to_vec(), b"b".to_vec()], &mut out).unwrap();
    assert_eq!(out, b"a\nb\n".to_vec());
}

#[test]
fn width_mismatch_is_refused() {
    let mut encoder = CsvEncoderBuilder::new().build().unwrap();
    encode_one(&mut encoder, &["a", "b"]);
    let mut out = Vec::new();
    match encoder.encode_record(&fields(&["c"]), &mut out) {
        Err(CodecEncodeError::UnequalLengths { expected, got }) => {
            assert_eq!(expected, 2);
            assert_eq!(got, 1);
        },
        other => panic!("unexpected {:?}", other),
    }
    assert!(out.is_empty());
    let mut flexible = CsvEncoderBuilder::new().flexible(true).build().unwrap();
    encode_one(&mut flexible, &["a", "b"]);
    assert_eq!(encode_one(&mut flexible, &["c"]), b"c\n".to_vec());
}

#[test]
fn conflicting_format_is_refused() {
    assert!(matches!(
        CsvEncoderBuilder::new().quote(b',').build(),
        Err(CodecEncodeError::InvalidFormat)
    ));
    assert!(matches!(
        CsvEncoderBuilder::new().terminator(Terminator::Any(b',')).build(),
        Err(CodecEncodeError::InvalidFormat)
    ));
    assert!(matches!(
        CsvEncoderBuilder::new().comment(Some(b'"')).build(),
        Err(CodecEncodeError::InvalidFormat)
    ));
    assert!(CsvEncoderBuilder::new().delimiter(b';').build().is_ok());
}

#[test]
fn builder_defaults() {
    let b = CsvEncoderBuilder::default();
    assert_eq!(
        b.format,
        CsvFormat {
            delimiter: b',',
            terminator: Terminator::Any(b'\n'),
            style: QuoteStyle::Necessary,
            quote: b'"',
            escape: b'\\',
            double_quote: true,
            comment: None,
        }
    );
    assert_eq!(b.capacity, 8192);
    assert!(!b.flexible);
    assert!(b.has_headers);
    assert_eq!(CsvEncoderBuilder::new().format.style, QuoteStyle::Never);
    assert!(!CsvEncoderBuilder::new().has_headers(false).has_headers);
}

#[test]
fn batch_lines_keep_record_order() {
    let mut encoder = CsvEncoderBuilder::default().build().unwrap();
    let batch = vec![b"first".to_vec(), b"a,b".to_vec(), b"third".to_vec()];
    let mut out = Vec::new();
    encoder.encode(&batch, &mut out).unwrap();
    assert_eq!(out, b"first\n\"a,b\"\nthird\n".to_vec());
}

#[test]
fn batch_after_wide_record_is_refused() {
    let mut encoder = CsvEncoderBuilder::new().build().unwrap();
    encode_one(&mut encoder, &["a", "b"]);
    let mut out = Vec::new();
    let result = encoder.encode(&vec![b"x".to_vec()], &mut out);
    assert!(matches!(result, Err(CodecEncodeError::UnequalLengths { expected: 2, got: 1 })));
}

#[test]
fn non_numeric_leaves_numbers_bare() {
    let mut encoder = CsvEncoderBuilder::new().quote_style(QuoteStyle::NonNumeric).build().unwrap();
    assert_eq!(
        encode_one(&mut encoder, &["-12", "3.5e2", "x1", ""]),
        b"-12,3.5e2,\"x1\",\"\"\n".to_vec()
    );
}

fn read_back(text: &[u8], quote: u8) -> Vec<u8> {
    assert!(text.len() >= 2 && text[0] == quote && text[text.len() - 1] == quote);
    let inner = &text[1..text.len() - 1];
    let mut out = Vec::new();
    let mut i = 0;
    while i < inner.len() {
        if inner[i] == quote && i + 1 < inner.len() && inner[i + 1] == quote {
            out.push(quote);
            i += 2;
        } else {
            out.push(inner[i]);
            i += 1;
        }
    }
    out
}

#[test]
fn quoted_fields_read_back() {
    let field = b"a,\"b\nc".to_vec();
    for style in [QuoteStyle::Always, QuoteStyle::Necessary, QuoteStyle::NonNumeric] {
        let mut encoder = CsvEncoderBuilder::new().quote_style(style).build().unwrap();
        let mut out = Vec::new();
        encoder.encode_record(&vec![field.clone()], &mut out).unwrap();
        assert_eq!(out.pop(), Some(b'\n'));
        assert_eq!(out, b"\"a,\"\"b\nc\"".to_vec());
        assert_eq!(read_back(&out, b'"'), field);
    }
}

#[test]
fn field_writer_follows_given_decision() {
    let format = CsvEncoderBuilder::default().format;
    let mut quoted = Vec::new();
    format.write_field_as(b"x\"y", true, &mut quoted, 2);
    assert_eq!(quoted, b"\"x\"\"y\"".to_vec());
    let mut bare = Vec::new();
    format.write_field_as(b"x\"y", false, &mut bare, 2);
    assert_eq!(bare, b"x\"y".to_vec());
    assert!(format.should_quote(b"x,y"));
    assert!(!format.should_quote(b"xy"));
    assert!(!format.is_special_byte(b'\r'));
    assert!(format.is_special_byte(b'\n'));
}

use pulser::{
    array, delim, dynamic_array, dynamic_object, number_of_digits, object, seq2, sequence3,
    sequence4, string, wrap, ArrayFramer, ByteIterator, Colon, Comma, CurlyBraces, Digits,
    F64Iterator, FloatClass, IntoByteIterator, ItemSource, IteratorIterator, List, Quotes, ReadAdapter,
    ReadStep, SquareBrackets, StrBytes, StringIterator, VecItems,
};

fn collect<I: IntoByteIterator>(x: I) -> Vec<u8> {
    let mut it = x.into_iter();
    let mut out = Vec::new();
    while let Some(b) = it.next() {
        out.push(b);
    }
    out
}

fn text<I: IntoByteIterator>(x: I) -> String {
    String::from_utf8(collect(x)).unwrap()
}

#[test]
fn wrap_puts_bytes_between_quotes() {
    assert_eq!(text(wrap(Quotes, StrBytes::new("ab"))), "\"ab\"");
    assert_eq!(text(wrap(CurlyBraces, StrBytes::new(""))), "{}");
    assert_eq!(text(wrap(SquareBrackets, 7u8.digits())), "[7]");
}

#[test]
fn wrapped_iterator_stays_exhausted() {
    let mut it = wrap(Quotes, StrBytes::new("x"));
    assert_eq!(it.next(), Some(b'"'));
    assert_eq!(it.next(), Some(b'x'));
    assert_eq!(it.next(), Some(b'"'));
    assert_eq!(it.next(), None);
    assert_eq!(it.next(), None);
}

#[test]
fn delim_puts_separator_between_streams() {
    assert_eq!(text(delim(StrBytes::new("a"), Comma, StrBytes::new("b"))), "a,b");
    assert_eq!(text(delim(StrBytes::new(""), Colon, StrBytes::new(""))), ":");
    let mut it = delim(StrBytes::new(""), Comma, StrBytes::new(""));
    assert_eq!(it.next(), Some(b','));
    assert_eq!(it.next(), None);
    assert_eq!(it.next(), None);
}

#[test]
fn sequences_concatenate() {
    assert_eq!(text(seq2(StrBytes::new("ab"), StrBytes::new("cd"))), "abcd");
    assert_eq!(text(seq2(StrBytes::new(""), StrBytes::new("cd"))), "cd");
    assert_eq!(
        text(sequence3(StrBytes::new("a"), StrBytes::new(""), StrBytes::new("c"))),
        "ac"
    );
    assert_eq!(
        text(sequence4(
            StrBytes::new("1"),
            StrBytes::new("2"),
            StrBytes::new("3"),
            StrBytes::new("4")
        )),
        "1234"
    );
}

#[test]
fn array_items_come_last_pushed_first() {
    let a = array().item(string("a".to_string())).item(1u8.digits());
    assert_eq!(text(a), "[1,\"a\"]");
    let single = array().item(5u16.digits());
    assert_eq!(text(single), "[5]");
    let three = array()
        .item(1u8.digits())
        .item(2u8.digits())
        .item(3u8.digits());
    assert_eq!(text(three), "[3,2,1]");
}

#[test]
fn object_properties_come_last_pushed_first() {
    let row = object()
        .prop("age", 70u8.digits())
        .prop("name", string("Jozo".to_string()))
        .prop("id", 1isize.digits());
    assert_eq!(text(row), "{\"id\":1,\"name\":\"Jozo\",\"age\":70}");
    assert_eq!(text(object().prop("k", StrBytes::new("v"))), "{\"k\":v}");
}

#[test]
fn nested_builders() {
    let inner = array().item(1u8.digits()).item(2u8.digits());
    let outer = object().prop("xs", inner).prop("n", (-3i32).digits());
    assert_eq!(text(outer), "{\"n\":-3,\"xs\":[2,1]}");
}

#[test]
fn dynamic_array_joins_items_with_commas() {
    let items = VecItems::new(vec![1u32.digits(), 22u32.digits(), 333u32.digits()]);
    assert_eq!(text(dynamic_array(items)), "[1,22,333]");
    let none: VecItems<pulser::DigitIterator> = VecItems::new(vec![]);
    assert_eq!(text(dynamic_array(none)), "[]");
    let one = VecItems::new(vec![string("x".to_string())]);
    assert_eq!(text(dynamic_array(one)), "[\"x\"]");
}

#[test]
fn dynamic_array_of_rows() {
    let rows = vec![
        object()
            .prop("age", 52u8.digits())
            .prop("name", string("Milan".to_string()))
            .prop("id", 2isize.digits()),
        object()
            .prop("age", 92u8.digits())
            .prop("name", string("Cecilka".to_string()))
            .prop("id", 3isize.digits()),
    ];
    assert_eq!(
        text(dynamic_array(VecItems::new(rows))),
        "[{\"id\":2,\"name\":\"Milan\",\"age\":52},{\"id\":3,\"name\":\"Cecilka\",\"age\":92}]"
    );
}

#[test]
fn dynamic_object_writes_members() {
    let props = VecItems::new(vec![(StrBytes::new("a"), 1u8.digits())]);
    assert_eq!(text(dynamic_object(props)), "{\"a\":1}");
    let two = VecItems::new(vec![
        (StrBytes::new("a"), 1u8.digits()),
        (StrBytes::new("b"), 20u8.digits()),
    ]);
    assert_eq!(text(dynamic_object(two)), "{\"a\":1,\"b\":20}");
    let none: VecItems<(StrBytes<'static>, pulser::DigitIterator)> = VecItems::new(vec![]);
    assert_eq!(text(dynamic_object(none)), "{}");
}

#[test]
fn iterator_iterator_keeps_separators_around_empty_items() {
    let items = VecItems::new(vec![StrBytes::new("a"), StrBytes::new(""), StrBytes::new("c")]);
    assert_eq!(text(IteratorIterator::new(Comma, items)), "a,,c");
    let empties = VecItems::new(vec![StrBytes::new(""), StrBytes::new("")]);
    assert_eq!(text(IteratorIterator::new(Colon, empties)), ":");
}

#[test]
fn list_concatenates_iterators() {
    let items = VecItems::new(vec![StrBytes::new("ab"), StrBytes::new(""), StrBytes::new("c")]);
    assert_eq!(text(List::new(items)), "abc");
    let none: VecItems<StrBytes<'static>> = VecItems::new(vec![]);
    assert_eq!(text(List::new(none)), "");
}

#[test]
fn vec_items_hand_out_in_order() {
    let mut items = VecItems::new(vec![1, 2, 3]);
    assert_eq!(items.next_item(), Some(1));
    assert_eq!(items.next_item(), Some(2));
    assert_eq!(items.next_item(), Some(3));
    assert_eq!(items.next_item(), None);
    assert_eq!(items.next_item(), None);
}

#[test]
fn unsigned_digits() {
    assert_eq!(text(0u8.digits()), "0");
    assert_eq!(text(9u8.digits()), "9");
    assert_eq!(text(10u8.digits()), "10");
    assert_eq!(text(255u8.digits()), "255");
    assert_eq!(text(65535u16.digits()), "65535");
    assert_eq!(text(4294967295u32.digits()), "4294967295");
    assert_eq!(text(u64::MAX.digits()), "18446744073709551615");
    assert_eq!(text(10_000_000_000_000_000u64.digits()), "10000000000000000");
    assert_eq!(
        text(u128::MAX.digits()),
        "340282366920938463463374607431768211455"
    );
    assert_eq!(text(1234usize.digits()), "1234");
}

#[test]
fn signed_digits() {
    assert_eq!(text((-14987isize).digits()), "-14987");
    assert_eq!(text(0i32.digits()), "0");
    assert_eq!(text(i8::MIN.digits()), "-128");
    assert_eq!(text(i8::MAX.digits()), "127");
    assert_eq!(text(i16::MIN.digits()), "-32768");
    assert_eq!(text((-1i64).digits()), "-1");
    assert_eq!(text(i64::MIN.digits()), "-9223372036854775808");
    assert_eq!(
        text(i128::MIN.digits()),
        "-170141183460469231731687303715884105728"
    );
}

#[test]
fn digit_counts() {
    assert_eq!(number_of_digits(0), 1);
    assert_eq!(number_of_digits(9), 1);
    assert_eq!(number_of_digits(10), 2);
    assert_eq!(number_of_digits(99), 2);
    assert_eq!(number_of_digits(100), 3);
    assert_eq!(number_of_digits(u128::MAX), 39);
}

#[test]
fn strings_are_utf8_and_unescaped() {
    assert_eq!(collect(string("é".to_string())), vec![b'"', 0xc3, 0xa9, b'"']);
    assert_eq!(text(string("a\"b".to_string())), "\"a\"b\"");
    assert_eq!(text(string(String::new())), "\"\"");
    assert_eq!(text(StringIterator::new("xyz".to_string())), "xyz");
    assert_eq!(collect(StrBytes::new("ß")), vec![0xc3, 0x9f]);
}

#[test]
fn float_text_for_special_values() {
    assert_eq!(text(F64Iterator::from_class(FloatClass::Nan, false, &[])), "NaN");
    assert_eq!(text(F64Iterator::from_class(FloatClass::Nan, true, &[])), "-NaN");
    assert_eq!(
        text(F64Iterator::from_class(FloatClass::Infinite, false, &[])),
        "Infinity"
    );
    assert_eq!(
        text(F64Iterator::from_class(FloatClass::Infinite, true, &[])),
        "-Infinity"
    );
}

#[test]
fn float_text_for_finite_values_drops_first_byte_and_ends_with_zero() {
    assert_eq!(
        collect(F64Iterator::from_class(FloatClass::Finite, false, b"1.5")),
        vec![b'.', b'5', 0]
    );
    assert_eq!(
        collect(F64Iterator::from_class(FloatClass::Finite, true, b"-0.25")),
        vec![b'0', b'.', b'2', b'5', 0]
    );
    assert_eq!(collect(F64Iterator::from_class(FloatClass::Finite, false, b"")), Vec::<u8>::new());
}

#[test]
fn read_adapter_fills_buffers_in_order() {
    let mut r = ReadAdapter::new(dynamic_array(VecItems::new(vec![
        1u8.digits(),
        2u8.digits(),
    ])));
    let mut buf = [b'#'; 3];
    assert_eq!(r.read(&mut buf), 3);
    assert_eq!(&buf, b"[1,");
    assert_eq!(r.read(&mut buf), 2);
    assert_eq!(&buf, b"2],");
    assert_eq!(r.read(&mut buf), 0);
    assert_eq!(&buf, b"2],");
}

#[test]
fn read_adapter_with_empty_buffer_reads_nothing() {
    let mut r = ReadAdapter::new(StrBytes::new("abc"));
    let mut empty: [u8; 0] = [];
    assert_eq!(r.read(&mut empty), 0);
    let mut buf = [0u8; 8];
    assert_eq!(r.read(&mut buf), 3);
    assert_eq!(&buf[..3], b"abc");
}

fn frame_all(items: Vec<Vec<u8>>, chunk: usize) -> Vec<u8> {
    let mut framer = ArrayFramer::new();
    let mut items = items.into_iter();
    let mut out = Vec::new();
    loop {
        let mut buf = vec![0u8; chunk];
        let mut bytes = 0;
        let n = loop {
            match framer.read(&mut buf, bytes) {
                ReadStep::Ready(n) => break n,
                ReadStep::NeedItem(n) => {
                    bytes = n;
                    framer.supply(items.next());
                }
            }
        };
        if n == 0 {
            return out;
        }
        out.extend_from_slice(&buf[..n]);
    }
}

#[test]
fn framer_writes_one_item_per_line() {
    let items = vec![b"1".to_vec(), b"\"a\"".to_vec()];
    assert_eq!(frame_all(items.clone(), 64), b"[\n1,\n\"a\"\n]".to_vec());
    assert_eq!(frame_all(items.clone(), 1), b"[\n1,\n\"a\"\n]".to_vec());
    assert_eq!(frame_all(items, 2), b"[\n1,\n\"a\"\n]".to_vec());
}

#[test]
fn framer_without_items() {
    assert_eq!(frame_all(vec![], 64), b"[\n\n]".to_vec());
    assert_eq!(frame_all(vec![], 1), b"[\n\n]".to_vec());
}

#[test]
fn framer_with_serde_json_items() {
    let values = vec![vec![1u32, 2], vec![], vec![3]];
    let items = values.iter().map(|v| serde_json::to_vec(v).unwrap()).collect();
    assert_eq!(frame_all(items, 5), b"[\n[1,2],\n[],\n[3]\n]".to_vec());
}

#[test]
fn framer_reports_a_full_buffer_before_asking() {
    let mut framer = ArrayFramer::new();
    let mut buf = [0u8; 2];
    match framer.read(&mut buf, 0) {
        ReadStep::Ready(n) => assert_eq!(n, 2),
        ReadStep::NeedItem(_) => panic!("the opening fills the buffer"),
    }
    assert_eq!(&buf, b"[\n");
    match framer.read(&mut buf, 0) {
        ReadStep::NeedItem(n) => assert_eq!(n, 0),
        ReadStep::Ready(_) => panic!("the first item is wanted"),
    }
    framer.supply(None);
    match framer.read(&mut buf, 0) {
        ReadStep::Ready(n) => assert_eq!(n, 2),
        ReadStep::NeedItem(_) => panic!("no more items are wanted"),
    }
    assert_eq!(&buf, b"\n]");
    match framer.read(&mut buf, 0) {
        ReadStep::Ready(n) => assert_eq!(n, 0),
        ReadStep::NeedItem(_) => panic!("the array is complete"),
    }
}

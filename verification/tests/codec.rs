use grammers::codec::decode::deserialize;
use grammers::codec::decode::deserialize_response;
use grammers::codec::decode::read_value;
use grammers::codec::encode::check;
use grammers::codec::encode::serialize;
use grammers::codec::encode::serialize_call;
use grammers::codec::schema::classify;
use grammers::codec::schema::Shape;
use grammers::codec::value::Value;
use grammers::codec::wire::read_bytes;
use grammers::codec::wire::read_i32;
use grammers::codec::wire::read_i64;
use grammers::codec::wire::read_u32;
use grammers::codec::wire::read_u64;
use grammers::codec::wire::write_bytes;
use grammers::codec::wire::write_i32;
use grammers::codec::wire::write_i64;
use grammers::codec::wire::write_u32;
use grammers::codec::wire::write_u64;
use grammers::codec::wire::DecodeError;
use grammers::tl::Definition;
use grammers::tl::Type;

fn schema() -> Vec<Definition> {
    [
        "inputPeerEmpty#7f3b18ea = InputPeer",
        "inputPeerUser#7b8e7de6 user_id:int access_hash:long = InputPeer",
        "codeSettings#debebe83 flags:# allow_flashcall:flags.0?true current_number:flags.1?true allow_app_hash:flags.4?true = CodeSettings",
        "msg#1 flags:# reply_to:flags.0?int text:string to:InputPeer ids:flags.3?Vector<int> raw:flags.3?vector<long> = Msg",
        "pair#2 key:int128 value:int256 ok:Bool score:double = Pair",
        "auth.sentCode#3 hash:bytes = auth.SentCode",
        "holder#4 at:inputPeerUser code:auth.sentCode = Holder",
        "tree#5 children:Vector<Tree> = Tree",
    ]
    .iter()
    .map(|line| Definition::from_str(line).unwrap())
    .collect()
}

fn ty(text: &str) -> Type {
    Type::from_str(text).unwrap()
}

fn round_trip(text: &str, value: Value) -> Vec<u8> {
    let defs = schema();
    let bytes = serialize(&defs, &ty(text), &value).expect("the value conforms");
    assert_eq!(
        deserialize(&defs, &ty(text), &bytes, 16),
        Ok((value, bytes.len()))
    );
    bytes
}

#[test]
fn numbers_are_little_endian() {
    let mut buf = vec![0xaa];
    write_u32(&mut buf, 0x1234_5678);
    write_i32(&mut buf, -2);
    write_u64(&mut buf, 0x0102_0304_0506_0708);
    write_i64(&mut buf, -1);
    assert_eq!(
        buf,
        vec![
            0xaa, 0x78, 0x56, 0x34, 0x12, 0xfe, 0xff, 0xff, 0xff, 8, 7, 6, 5, 4, 3, 2, 1, 0xff,
            0xff, 0xff, 0xff, 0xff, 0xff, 0xff, 0xff
        ]
    );
    assert_eq!(read_u32(&buf, 1), Some(0x1234_5678));
    assert_eq!(read_i32(&buf, 5), Some(-2));
    assert_eq!(read_u64(&buf, 9), Some(0x0102_0304_0506_0708));
    assert_eq!(read_i64(&buf, 17), Some(-1));
    assert_eq!(read_u32(&buf, 22), None);
    assert_eq!(read_u64(&buf, 18), None);
    assert_eq!(read_u32(&buf, usize::MAX), None);
    assert_eq!(read_u32(&[], 0), None);
}

#[test]
fn byte_strings_are_padded_to_four_bytes() {
    for len in [0usize, 1, 2, 3, 4, 5, 253, 254, 255, 256, 257, 1000] {
        let data: Vec<u8> = (0..len).map(|i| (i % 251) as u8 + 1).collect();
        let mut buf = Vec::new();
        assert!(write_bytes(&mut buf, &data));
        assert_eq!(buf.len() % 4, 0, "length {}", len);
        let header = if len < 254 { 1 } else { 4 };
        assert!(buf.len() >= header + len && buf.len() < header + len + 4);
        assert!(buf[header + len..].iter().all(|b| *b == 0));
        assert_eq!(read_bytes(&buf, 0), Some((data, buf.len())));
    }
}

#[test]
fn byte_string_headers() {
    let mut buf = Vec::new();
    assert!(write_bytes(&mut buf, b"hi"));
    assert_eq!(buf, vec![2, b'h', b'i', 0]);
    let mut buf = Vec::new();
    assert!(write_bytes(&mut buf, &[7u8; 300]));
    assert_eq!(&buf[..4], &[254, 44, 1, 0]);
    assert_eq!(buf.len(), 304);
}

#[test]
fn too_long_a_byte_string_is_not_written() {
    let data = vec![0u8; 0x100_0000];
    let mut buf = vec![1, 2, 3];
    assert!(!write_bytes(&mut buf, &data));
    assert_eq!(buf, vec![1, 2, 3]);
    let mut buf = Vec::new();
    assert!(write_bytes(&mut buf, &data[..0xff_ffff]));
    assert_eq!(&buf[..4], &[254, 0xff, 0xff, 0xff]);
    assert_eq!(buf.len(), 0x100_0000 + 4);
}

#[test]
fn truncated_byte_strings_are_refused() {
    assert_eq!(read_bytes(&[], 0), None);
    assert_eq!(read_bytes(&[2, b'h', b'i'], 0), None);
    assert_eq!(read_bytes(&[2, b'h'], 0), None);
    assert_eq!(read_bytes(&[254, 1, 0], 0), None);
    assert_eq!(read_bytes(&[254, 1, 0, 0, 9, 0, 0], 0), None);
    assert_eq!(read_bytes(&[254, 1, 0, 0, 9, 0, 0, 0], 0), Some((vec![9], 8)));
    assert_eq!(read_bytes(&[0, 0, 0, 0], 0), Some((vec![], 4)));
    assert_eq!(read_bytes(&[9, 3, 1, 2, 3], 1), Some((vec![1, 2, 3], 5)));
}

#[test]
fn shapes_of_types() {
    assert_eq!(classify(&ty("int")), Shape::Int);
    assert_eq!(classify(&ty("long")), Shape::Long);
    assert_eq!(classify(&ty("double")), Shape::Double);
    assert_eq!(classify(&ty("int128")), Shape::Int128);
    assert_eq!(classify(&ty("int256")), Shape::Int256);
    assert_eq!(classify(&ty("bytes")), Shape::Bytes);
    assert_eq!(classify(&ty("string")), Shape::Bytes);
    assert_eq!(classify(&ty("Bool")), Shape::Bool);
    assert_eq!(classify(&ty("true")), Shape::True);
    assert_eq!(classify(&ty("Vector<int>")), Shape::BoxedVector);
    assert_eq!(classify(&ty("vector<a.B>")), Shape::BareVector);
    assert_eq!(classify(&ty("InputPeer")), Shape::Boxed);
    assert_eq!(classify(&ty("auth.SentCode")), Shape::Boxed);
    assert_eq!(classify(&ty("inputPeerUser")), Shape::Bare);
    assert_eq!(classify(&ty("ns.int")), Shape::Bare);
    assert_eq!(classify(&ty("!X")), Shape::Unknown);
    assert_eq!(classify(&ty("Vector")), Shape::Boxed);
    assert_eq!(classify(&ty("Vector<>")), Shape::Unknown);
    assert_eq!(classify(&ty("Other<int>")), Shape::Unknown);
}

#[test]
fn a_boxed_value_starts_with_its_identifier() {
    let bytes = round_trip(
        "InputPeer",
        Value::Object {
            id: 0x7b8e7de6,
            fields: vec![Some(Value::Int(5)), Some(Value::Long(-3))],
        },
    );
    assert_eq!(
        bytes,
        vec![0xe6, 0x7d, 0x8e, 0x7b, 5, 0, 0, 0, 0xfd, 0xff, 0xff, 0xff, 0xff, 0xff, 0xff, 0xff]
    );
    let bytes = round_trip(
        "InputPeer",
        Value::Object {
            id: 0x7f3b18ea,
            fields: vec![],
        },
    );
    assert_eq!(bytes, vec![0xea, 0x18, 0x3b, 0x7f]);
}

#[test]
fn a_bare_value_has_no_identifier() {
    let bytes = round_trip(
        "holder",
        Value::Object {
            id: 4,
            fields: vec![
                Some(Value::Object {
                    id: 0x7b8e7de6,
                    fields: vec![Some(Value::Int(1)), Some(Value::Long(2))],
                }),
                Some(Value::Object {
                    id: 3,
                    fields: vec![Some(Value::Bytes(vec![9]))],
                }),
            ],
        },
    );
    assert_eq!(bytes, vec![1, 0, 0, 0, 2, 0, 0, 0, 0, 0, 0, 0, 1, 9, 0, 0]);
}

#[test]
fn the_flags_say_which_fields_are_there() {
    let bytes = round_trip(
        "CodeSettings",
        Value::Object {
            id: 0xdebebe83,
            fields: vec![None, None, Some(Value::True), Some(Value::True)],
        },
    );
    assert_eq!(bytes, vec![0x83, 0xbe, 0xbe, 0xde, 0x12, 0, 0, 0]);

    let bytes = round_trip(
        "Msg",
        Value::Object {
            id: 1,
            fields: vec![
                None,
                Some(Value::Int(5)),
                Some(Value::Bytes(b"hi".to_vec())),
                Some(Value::Object {
                    id: 0x7f3b18ea,
                    fields: vec![],
                }),
                Some(Value::Vector(vec![Value::Int(1), Value::Int(2)])),
                Some(Value::Vector(vec![Value::Long(7)])),
            ],
        },
    );
    assert_eq!(
        bytes,
        vec![
            1, 0, 0, 0, 9, 0, 0, 0, 5, 0, 0, 0, 2, b'h', b'i', 0, 0xea, 0x18, 0x3b, 0x7f, 0x15,
            0xc4, 0xb5, 0x1c, 2, 0, 0, 0, 1, 0, 0, 0, 2, 0, 0, 0, 1, 0, 0, 0, 7, 0, 0, 0, 0, 0, 0,
            0
        ]
    );

    let bytes = round_trip(
        "Msg",
        Value::Object {
            id: 1,
            fields: vec![
                None,
                None,
                Some(Value::Bytes(vec![])),
                Some(Value::Object {
                    id: 0x7f3b18ea,
                    fields: vec![],
                }),
                None,
                None,
            ],
        },
    );
    assert_eq!(bytes, vec![1, 0, 0, 0, 0, 0, 0, 0, 0, 0, 0, 0, 0xea, 0x18, 0x3b, 0x7f]);
}

#[test]
fn a_missing_conditional_field_reads_as_absent() {
    let defs = schema();
    let bytes = vec![1, 0, 0, 0, 0xf6, 0xff, 0, 0, 0, 0, 0, 0, 0xea, 0x18, 0x3b, 0x7f];
    assert_eq!(
        deserialize(&defs, &ty("Msg"), &bytes, 4),
        Ok((
            Value::Object {
                id: 1,
                fields: vec![
                    None,
                    None,
                    Some(Value::Bytes(vec![])),
                    Some(Value::Object {
                        id: 0x7f3b18ea,
                        fields: vec![],
                    }),
                    None,
                    None,
                ],
            },
            16
        ))
    );
}

#[test]
fn fields_of_one_bit_go_together() {
    let defs = schema();
    let value = Value::Object {
        id: 1,
        fields: vec![
            None,
            None,
            Some(Value::Bytes(vec![])),
            Some(Value::Object {
                id: 0x7f3b18ea,
                fields: vec![],
            }),
            Some(Value::Vector(vec![])),
            None,
        ],
    };
    assert!(!check(&defs, &ty("Msg"), &value));
    assert_eq!(serialize(&defs, &ty("Msg"), &value), None);
}

#[test]
fn raw_numbers_booleans_and_doubles() {
    let key: Vec<u8> = (1..=16).collect();
    let value: Vec<u8> = (101..=132).collect();
    let bytes = round_trip(
        "Pair",
        Value::Object {
            id: 2,
            fields: vec![
                Some(Value::Raw(key.clone())),
                Some(Value::Raw(value.clone())),
                Some(Value::Bool(true)),
                Some(Value::Double(1.5f64.to_bits())),
            ],
        },
    );
    let mut expected = vec![2, 0, 0, 0];
    expected.extend(&key);
    expected.extend(&value);
    expected.extend([0xb5, 0x75, 0x72, 0x99]);
    expected.extend(1.5f64.to_le_bytes());
    assert_eq!(bytes, expected);
    assert_eq!(
        round_trip("Bool", Value::Bool(false)),
        vec![0x37, 0x97, 0x79, 0xbc]
    );
}

#[test]
fn vectors_have_their_identifier_and_their_length() {
    assert_eq!(
        round_trip(
            "Vector<int>",
            Value::Vector(vec![Value::Int(3), Value::Int(4), Value::Int(5)])
        ),
        vec![0x15, 0xc4, 0xb5, 0x1c, 3, 0, 0, 0, 3, 0, 0, 0, 4, 0, 0, 0, 5, 0, 0, 0]
    );
    assert_eq!(
        round_trip("vector<string>", Value::Vector(vec![Value::Bytes(vec![b'a'])])),
        vec![1, 0, 0, 0, 1, b'a', 0, 0]
    );
    assert_eq!(
        round_trip("Vector<Vector<true>>", Value::Vector(vec![Value::Vector(vec![Value::True])])),
        vec![0x15, 0xc4, 0xb5, 0x1c, 1, 0, 0, 0, 0x15, 0xc4, 0xb5, 0x1c, 1, 0, 0, 0]
    );
}

#[test]
fn nested_values_round_trip() {
    let leaf = || Value::Object {
        id: 5,
        fields: vec![Some(Value::Vector(vec![]))],
    };
    round_trip(
        "Tree",
        Value::Object {
            id: 5,
            fields: vec![Some(Value::Vector(vec![
                leaf(),
                Value::Object {
                    id: 5,
                    fields: vec![Some(Value::Vector(vec![leaf(), leaf()]))],
                },
            ]))],
        },
    );
}

#[test]
fn the_reader_goes_no_deeper_than_allowed() {
    let defs = schema();
    let value = Value::Object {
        id: 5,
        fields: vec![Some(Value::Vector(vec![Value::Object {
            id: 5,
            fields: vec![Some(Value::Vector(vec![]))],
        }]))],
    };
    let bytes = serialize(&defs, &ty("Tree"), &value).unwrap();
    assert_eq!(
        deserialize(&defs, &ty("Tree"), &bytes, 3),
        Err(DecodeError::TooDeep)
    );
    assert_eq!(
        deserialize(&defs, &ty("Tree"), &bytes, 4),
        Ok((value, bytes.len()))
    );
    assert_eq!(
        deserialize(&defs, &ty("int"), &[1, 0, 0, 0], 0),
        Ok((Value::Int(1), 4))
    );
}

#[test]
fn an_unknown_constructor_is_refused() {
    let defs = schema();
    assert_eq!(
        deserialize(&defs, &ty("InputPeer"), &[1, 2, 3, 4, 0, 0, 0, 0], 4),
        Err(DecodeError::UnexpectedConstructor { id: 0x0403_0201 })
    );
    assert_eq!(
        deserialize(&defs, &ty("InputPeer"), &[3, 0, 0, 0, 0, 0, 0, 0], 4),
        Err(DecodeError::UnexpectedConstructor { id: 3 })
    );
    assert_eq!(
        deserialize(&defs, &ty("Bool"), &[0, 0, 0, 0], 4),
        Err(DecodeError::UnexpectedConstructor { id: 0 })
    );
    assert_eq!(
        deserialize(&defs, &ty("Vector<int>"), &[0, 0, 0, 0, 0, 0, 0, 0], 4),
        Err(DecodeError::UnexpectedConstructor { id: 0 })
    );
}

#[test]
fn reading_is_size_checked() {
    let defs = schema();
    assert_eq!(
        deserialize(&defs, &ty("int"), &[1, 2, 3], 4),
        Err(DecodeError::UnexpectedEof)
    );
    assert_eq!(
        deserialize(&defs, &ty("InputPeer"), &[0xe6, 0x7d, 0x8e, 0x7b, 5, 0, 0, 0, 1], 4),
        Err(DecodeError::UnexpectedEof)
    );
    assert_eq!(
        deserialize(&defs, &ty("vector<int>"), &[2, 0, 0, 0, 1, 0, 0, 0], 4),
        Err(DecodeError::UnexpectedEof)
    );
    assert_eq!(
        deserialize(&defs, &ty("vector<int>"), &[0xff, 0xff, 0xff, 0xff], 4),
        Err(DecodeError::NegativeCount)
    );
    assert_eq!(
        deserialize(&defs, &ty("int128"), &[0; 15], 4),
        Err(DecodeError::UnexpectedEof)
    );
    assert_eq!(
        deserialize(&defs, &ty("unknownThing"), &[0; 16], 4),
        Err(DecodeError::UnknownType)
    );
    assert_eq!(
        deserialize(&defs, &ty("!X"), &[0; 16], 4),
        Err(DecodeError::UnknownType)
    );
}

#[test]
fn values_are_read_where_they_stand() {
    let defs = schema();
    let data = [9, 9, 0x37, 0x97, 0x79, 0xbc, 9];
    assert_eq!(
        read_value(&defs, &ty("Bool"), &data, 2, 0),
        Ok((Value::Bool(false), 6))
    );
    assert_eq!(
        read_value(&defs, &ty("true"), &data, 7, 0),
        Ok((Value::True, 7))
    );
}

#[test]
fn values_of_the_wrong_type_do_not_conform() {
    let defs = schema();
    assert!(!check(&defs, &ty("int"), &Value::Long(1)));
    assert!(!check(&defs, &ty("int128"), &Value::Raw(vec![0; 15])));
    assert!(!check(&defs, &ty("int256"), &Value::Raw(vec![0; 16])));
    assert!(check(&defs, &ty("int128"), &Value::Raw(vec![0; 16])));
    assert!(!check(&defs, &ty("Vector<int>"), &Value::Vector(vec![Value::Long(1)])));
    assert!(!check(
        &defs,
        &ty("InputPeer"),
        &Value::Object {
            id: 0x7b8e7de6,
            fields: vec![Some(Value::Int(5))]
        }
    ));
    assert!(!check(
        &defs,
        &ty("InputPeer"),
        &Value::Object {
            id: 0x7b8e7de6,
            fields: vec![Some(Value::Int(5)), None]
        }
    ));
    assert!(!check(
        &defs,
        &ty("CodeSettings"),
        &Value::Object {
            id: 0xdebebe83,
            fields: vec![Some(Value::Int(0)), None, None, None]
        }
    ));
    assert!(!check(
        &defs,
        &ty("inputPeerUser"),
        &Value::Object {
            id: 1,
            fields: vec![Some(Value::Int(5)), Some(Value::Long(1))]
        }
    ));
    assert!(!check(&defs, &ty("Msg"), &Value::Object { id: 99, fields: vec![] }));
    assert_eq!(serialize(&defs, &ty("string"), &Value::Int(1)), None);
}

#[test]
fn a_call_is_its_identifier_and_its_arguments() {
    let defs: Vec<Definition> = grammers::tl::parse_tl_file(
        "auth.sentCode#3 hash:bytes = auth.SentCode;\n---functions---\nauth.sendCode#a677244f phone:string flags:# id:flags.1?int = auth.SentCode;\ninvokeAfter#1 {X:Type} query:!X = X;",
    )
    .into_iter()
    .map(|d| d.unwrap())
    .collect();
    let arguments = vec![Some(Value::Bytes(b"+1".to_vec())), None, Some(Value::Int(6))];
    assert_eq!(
        serialize_call(&defs, 1, &arguments),
        Some(vec![0x4f, 0x24, 0x77, 0xa6, 2, b'+', b'1', 0, 2, 0, 0, 0, 6, 0, 0, 0])
    );
    assert_eq!(serialize_call(&defs, 0, &vec![Some(Value::Bytes(vec![]))]), None);
    assert_eq!(serialize_call(&defs, 1, &vec![]), None);
    assert_eq!(serialize_call(&defs, 2, &vec![Some(Value::Raw(vec![]))]), None);
    assert_eq!(serialize_call(&defs, 3, &vec![]), None);
    assert_eq!(
        deserialize_response(&defs, 1, &[3, 0, 0, 0, 1, 7, 0, 0], 2),
        Ok((
            Value::Object {
                id: 3,
                fields: vec![Some(Value::Bytes(vec![7]))]
            },
            8
        ))
    );
    assert_eq!(
        deserialize_response(&defs, 1, &[4, 0, 0, 0, 1, 7, 0, 0], 2),
        Err(DecodeError::UnexpectedConstructor { id: 4 })
    );
    assert_eq!(
        deserialize_response(&defs, 9, &[3, 0, 0, 0, 1, 7, 0, 0], 2),
        Err(DecodeError::UnknownType)
    );
}

#[test]
fn a_function_constructs_no_value() {
    let defs: Vec<Definition> =
        grammers::tl::parse_tl_file("---functions---\nget#1 = Thing;\n---types---\nthing#2 = Thing;")
            .into_iter()
            .map(|d| d.unwrap())
            .collect();
    assert_eq!(
        deserialize(&defs, &ty("Thing"), &[1, 0, 0, 0], 2),
        Err(DecodeError::UnexpectedConstructor { id: 1 })
    );
    assert_eq!(
        deserialize(&defs, &ty("Thing"), &[2, 0, 0, 0], 2),
        Ok((Value::Object { id: 2, fields: vec![] }, 4))
    );
    assert_eq!(deserialize(&defs, &ty("get"), &[], 2), Err(DecodeError::UnknownType));
    assert_eq!(
        deserialize(&defs, &ty("thing"), &[], 2),
        Ok((Value::Object { id: 2, fields: vec![] }, 0))
    );
}

#[test]
fn flags_have_to_be_in_order() {
    use_flags("a#1 flags:# x:flags.0?int y:flags.31?true = A", true);
    use_flags("a#1 x:int = A", true);
    use_flags("a#1 = A", true);
    use_flags("a#1 x:flags.0?int flags:# = A", false);
    use_flags("a#1 flags:# x:other.0?int = A", false);
    use_flags("a#1 flags:# x:flags.32?int = A", false);
    use_flags("a#1 flags:# more:# x:flags.0?int = A", false);
    use_flags("a#1 flags:# more:# = A", false);
}

fn use_flags(line: &str, expected: bool) {
    let def = Definition::from_str(line).unwrap();
    assert_eq!(
        grammers::codec::schema::has_flags_in_order(&def),
        expected,
        "{}",
        line
    );
}

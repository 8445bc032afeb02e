use grammers::crc::checksum;
use grammers::text::chars_of;
use grammers::text::split_whitespace;
use grammers::text::string_of;
use grammers::text::trim_chars;
use grammers::tl::number::parse_usize;
use grammers::tl::signature::infer_id;
use grammers::tl::signature::signature_of;
use grammers::tl::Category;
use grammers::tl::Definition;
use grammers::tl::Flag;
use grammers::tl::ParamParseError;
use grammers::tl::Parameter;
use grammers::tl::ParameterType;
use grammers::tl::ParseError;
use grammers::tl::Type;

fn signature(text: &str) -> String {
    signature_of(&chars_of(text))
}

#[test]
fn crc32_of_the_check_string() {
    assert_eq!(checksum(b"123456789"), 0xcbf4_3926);
    assert_eq!(checksum(b""), 0);
    assert_eq!(checksum(b"boolTrue = Bool"), 0x9972_75b5);
}

#[test]
fn chars_and_strings_convert_both_ways() {
    let chars = chars_of("añ€😀");
    assert_eq!(chars, vec!['a', 'ñ', '€', '😀']);
    assert_eq!(string_of(&chars), "añ€😀");
}

#[test]
fn trim_takes_unicode_whitespace_off() {
    let text = chars_of("\u{2003}\t a b \u{a0}\n");
    assert_eq!(string_of(trim_chars(&text)), "a b");
    assert_eq!(string_of(trim_chars(&chars_of(" \t "))), "");
    assert_eq!(string_of(trim_chars(&chars_of(""))), "");
}

#[test]
fn words_are_split_at_any_whitespace() {
    let words = split_whitespace(&chars_of("  a\tbc \u{3000} d "));
    let words: Vec<String> = words.iter().map(|w| string_of(w)).collect();
    assert_eq!(words, vec!["a", "bc", "d"]);
    assert!(split_whitespace(&chars_of("   ")).is_empty());
}

#[test]
fn decimal_index_follows_the_standard_parser() {
    for text in ["0", "7", "+7", "007", "31", "4294967296", "", "+", "-1", "1_0", " 1", "1a", "٣"] {
        let expected = text.parse::<usize>().ok();
        assert_eq!(parse_usize(&chars_of(text)), expected, "{:?}", text);
    }
    assert_eq!(parse_usize(&chars_of("99999999999999999999999999")), None);
}

#[test]
fn hex_id_follows_the_standard_parser() {
    assert_eq!(Definition::from_str("a#+ff = b").unwrap().id, 0xff);
    assert_eq!(Definition::from_str("a#FFFFFFFF = b").unwrap().id, 0xffff_ffff);
    assert_eq!(Definition::from_str("a#0000000001 = b").unwrap().id, 1);
    assert!(matches!(
        Definition::from_str("a#100000000 = b"),
        Err(ParseError::MalformedId(_))
    ));
    assert!(matches!(
        Definition::from_str("a#-1 = b"),
        Err(ParseError::MalformedId(_))
    ));
}

#[test]
fn id_text_ends_at_the_second_hash() {
    let def = Definition::from_str("a#1#2 = b").unwrap();
    assert_eq!(def.name, "a");
    assert_eq!(def.id, 1);
}

#[test]
fn type_with_namespace_and_generic_argument() {
    assert_eq!(
        Type::from_str("ns.sub.Name<a.B>"),
        Ok(Type {
            namespace: vec!["ns".into(), "sub".into()],
            name: "Name".into(),
            generic_ref: false,
            generic_arg: Some("a.B".into()),
        })
    );
    assert_eq!(
        Type::from_str("!X"),
        Ok(Type {
            namespace: vec![],
            name: "X".into(),
            generic_ref: true,
            generic_arg: None,
        })
    );
}

#[test]
fn type_errors() {
    assert_eq!(Type::from_str(""), Err(ParamParseError::Empty));
    assert_eq!(Type::from_str("!"), Err(ParamParseError::Empty));
    assert_eq!(Type::from_str("a..b"), Err(ParamParseError::Empty));
    assert_eq!(Type::from_str(".a"), Err(ParamParseError::Empty));
    assert_eq!(Type::from_str("a."), Err(ParamParseError::Empty));
    assert_eq!(Type::from_str("<a>"), Err(ParamParseError::Empty));
    assert_eq!(Type::from_str("a<b"), Err(ParamParseError::BadGeneric));
    assert_eq!(Type::from_str("a<b>c"), Err(ParamParseError::BadGeneric));
}

#[test]
fn flag_parsing() {
    assert_eq!(
        Flag::from_str("flags.12"),
        Ok(Flag {
            name: "flags".into(),
            index: 12
        })
    );
    assert_eq!(
        Flag::from_str(".3"),
        Ok(Flag {
            name: "".into(),
            index: 3
        })
    );
    assert_eq!(Flag::from_str("flags"), Err(ParamParseError::BadFlag));
    assert_eq!(Flag::from_str("flags."), Err(ParamParseError::BadFlag));
    assert_eq!(Flag::from_str("flags.x"), Err(ParamParseError::BadFlag));
    assert_eq!(Flag::from_str("flags.1.2"), Err(ParamParseError::BadFlag));
}

#[test]
fn parameter_parsing() {
    assert_eq!(
        Parameter::from_str("flags:#"),
        Ok(Parameter {
            name: "flags".into(),
            ty: ParameterType::Flags
        })
    );
    assert_eq!(
        Parameter::from_str("photo:flags.0?InputPhoto"),
        Ok(Parameter {
            name: "photo".into(),
            ty: ParameterType::Normal {
                ty: Type {
                    namespace: vec![],
                    name: "InputPhoto".into(),
                    generic_ref: false,
                    generic_arg: None,
                },
                flag: Some(Flag {
                    name: "flags".into(),
                    index: 0
                }),
            },
        })
    );
    assert_eq!(
        Parameter::from_str("{X:Type}"),
        Err(ParamParseError::TypeDef { name: "X".into() })
    );
    assert_eq!(Parameter::from_str("{X:t}"), Err(ParamParseError::UnknownDef));
    assert_eq!(Parameter::from_str("{X}"), Err(ParamParseError::UnknownDef));
    assert_eq!(Parameter::from_str("x"), Err(ParamParseError::Unimplemented));
    assert_eq!(Parameter::from_str(":int"), Err(ParamParseError::Empty));
    assert_eq!(Parameter::from_str("x:"), Err(ParamParseError::Empty));
    assert_eq!(Parameter::from_str("x:f?int"), Err(ParamParseError::BadFlag));
    assert_eq!(Parameter::from_str("x:a<b"), Err(ParamParseError::BadGeneric));
}

#[test]
fn parameter_type_ends_at_the_second_colon() {
    assert_eq!(
        Parameter::from_str("a:b:c"),
        Ok(Parameter {
            name: "a".into(),
            ty: ParameterType::Normal {
                ty: Type {
                    namespace: vec![],
                    name: "b".into(),
                    generic_ref: false,
                    generic_arg: None,
                },
                flag: None,
            },
        })
    );
}

#[test]
fn definition_is_split_at_the_first_equals_sign() {
    let def = Definition::from_str("a = b = c").unwrap();
    assert_eq!(def.name, "a");
    assert_eq!(def.ty.name, "b = c");
}

#[test]
fn definition_with_everything() {
    let def = Definition::from_str(
        "  messages.sendMedia#1 flags:# silent:flags.5?true peer:InputPeer ids:Vector<long> = Updates ",
    )
    .unwrap();
    assert_eq!(def.name, "messages.sendMedia");
    assert_eq!(def.id, 1);
    assert_eq!(def.category, Category::Types);
    assert_eq!(def.params.len(), 4);
    assert_eq!(def.params[0].ty, ParameterType::Flags);
    assert_eq!(def.params[3].name, "ids");
    assert_eq!(
        def.params[3].ty,
        ParameterType::Normal {
            ty: Type {
                namespace: vec![],
                name: "Vector".into(),
                generic_ref: false,
                generic_arg: Some("long".into()),
            },
            flag: None,
        }
    );
    assert_eq!(def.ty.name, "Updates");
}

#[test]
fn errors_come_in_the_order_of_the_checks() {
    assert_eq!(Definition::from_str("  \t"), Err(ParseError::EmptyDefinition));
    assert_eq!(Definition::from_str("#zz x"), Err(ParseError::MissingType));
    assert_eq!(Definition::from_str("#zz x = a<"), Err(ParseError::MissingType));
    assert_eq!(Definition::from_str("#zz x = a"), Err(ParseError::MissingName));
    assert!(matches!(
        Definition::from_str("n#zz x = a"),
        Err(ParseError::MalformedId(_))
    ));
    assert_eq!(
        Definition::from_str(" n#1 x  = a "),
        Err(ParseError::NotImplemented {
            line: "n#1 x  = a".into()
        })
    );
    assert_eq!(Definition::from_str("n#1 x: = a"), Err(ParseError::MissingType));
    assert_eq!(
        Definition::from_str("n#1 a:f?int x = a"),
        Err(ParseError::MalformedParam)
    );
    assert_eq!(
        Definition::from_str("n#1 {t:X} = a"),
        Err(ParseError::MalformedParam)
    );
}

#[test]
fn generic_reference_needs_an_earlier_declaration() {
    assert_eq!(
        Definition::from_str("a#1 c:!b {b:Type} = d"),
        Err(ParseError::MalformedParam)
    );
    let def = Definition::from_str("invokeAfterMsg {X:Type} msg_id:long query:!X = X").unwrap();
    assert_eq!(def.params.len(), 2);
    assert!(def.ty.generic_ref);
    assert_eq!(def.id, 0xcb9f_372d);
}

#[test]
fn signature_is_normalized() {
    assert_eq!(signature("  a   b:c\t=  d "), "a b:c = d");
    assert_eq!(signature("a {X:Type} q:!X = X"), "a X:Type q:!X = X");
    assert_eq!(signature("a v:Vector<int> = D"), "a v:Vector int = D");
    assert_eq!(signature("a x:bytes y:flags.0?bytes z:bytesx = D"), "a x:string y:flags.0?bytes z:bytesx = D");
    assert_eq!(signature("a x:ns.bytes = D"), "a x:ns.bytes = D");
    assert_eq!(signature(":bytes"), ":string");
    assert_eq!(signature(""), "");
}

#[test]
fn inferred_id_is_the_checksum_of_the_signature() {
    let text = "a x:bytes v:Vector<int> = D";
    assert_eq!(
        infer_id(&chars_of(text)),
        checksum(b"a x:string v:Vector int = D")
    );
    assert_eq!(Definition::from_str(text).unwrap().id, checksum(b"a x:string v:Vector int = D"));
}

#[test]
fn inferred_id_is_stable() {
    for text in [
        "rpc_answer_dropped msg_id:long seq_no:int bytes:int = RpcDropAnswer",
        "a  x:bytes   v:flags.1?long = D",
        "inputPeerUser user_id:int access_hash:long = InputPeer",
        "x = Y",
    ] {
        let def = Definition::from_str(text).unwrap();
        let again = signature(text);
        assert_eq!(signature(&again), again);
        assert_eq!(Definition::from_str(&again).unwrap().id, def.id);
    }
}

#[test]
fn normalized_signature_may_not_parse() {
    let text = "a {X:Type} b:!X = d";
    assert!(Definition::from_str(text).is_ok());
    assert_eq!(
        Definition::from_str(&signature(text)),
        Err(ParseError::MalformedParam)
    );
    let text = "a v:Vector<int> = D";
    assert!(Definition::from_str(text).is_ok());
    assert_eq!(
        Definition::from_str(&signature(text)),
        Err(ParseError::NotImplemented {
            line: "a v:Vector int = D".into()
        })
    );
}

#[test]
fn a_schema_is_parsed_piece_by_piece() {
    let outcomes = grammers::tl::parse_tl_file(
        "// a comment; with a semicolon\nboolFalse#bc799737 = Bool; // trailing\nboolTrue = Bool;\n\n;;\nbroken;\n---functions---\n\nauth.signIn#1 code:string = auth.Authorization;\nhelp.getConfig#2 = Config;---types---user#3 = User;\n---functions---  ;  last#4 = / Last",
    );
    assert_eq!(outcomes.len(), 7);
    let names: Vec<Result<(&str, u32, Category), &ParseError>> = outcomes
        .iter()
        .map(|o| match o {
            Ok(d) => Ok((d.name.as_str(), d.id, d.category)),
            Err(e) => Err(e),
        })
        .collect();
    assert_eq!(
        names,
        vec![
            Ok(("boolFalse", 0xbc799737, Category::Types)),
            Ok(("boolTrue", 0x997275b5, Category::Types)),
            Err(&ParseError::MissingType),
            Ok(("auth.signIn", 1, Category::Functions)),
            Ok(("help.getConfig", 2, Category::Functions)),
            Ok(("user", 3, Category::Types)),
            Ok(("last", 4, Category::Functions)),
        ]
    );
    assert_eq!(outcomes[6].as_ref().unwrap().ty.name, "/ Last");
    assert!(grammers::tl::parse_tl_file("").is_empty());
    assert!(grammers::tl::parse_tl_file(" // only a comment").is_empty());
    assert!(grammers::tl::parse_tl_file("---types---;---functions---").is_empty());
}

#[test]
fn comments_end_with_their_line() {
    let plain = grammers::tl::file::remove_tl_comments(&chars_of("a//b\nc / d//\n//\ne/"));
    assert_eq!(string_of(&plain), "a\nc / d\n\ne/");
}

#[test]
fn characters_are_classified_as_the_standard_library_does() {
    for code in 0..=0x10ffffu32 {
        if let Some(c) = char::from_u32(code) {
            assert_eq!(
                grammers::text::char_is_whitespace(c),
                c.is_whitespace(),
                "U+{:04X}",
                code
            );
            assert_eq!(grammers::text::to_ascii_upper(c), c.to_ascii_uppercase());
            assert_eq!(grammers::text::to_ascii_lower(c), c.to_ascii_lowercase());
        }
    }
}

#[test]
fn searching_starts_where_it_is_told() {
    let text = chars_of("a:b:c");
    assert_eq!(grammers::text::find_char(&text, ':'), 1);
    assert_eq!(grammers::text::find_char_from(&text, ':', 2), 3);
    assert_eq!(grammers::text::find_char_from(&text, ':', 4), 5);
    assert_eq!(grammers::text::find_char_from(&text, ':', 9), 9);
    assert_eq!(grammers::text::find_char(&text, 'x'), 5);
    assert_eq!(grammers::text::skip_whitespace_from(&chars_of("  a"), 0), 2);
    assert_eq!(grammers::text::skip_whitespace_from(&chars_of("  a"), 7), 7);
    assert_eq!(grammers::text::skip_word_from(&chars_of("ab c"), 0), 2);
    assert_eq!(grammers::text::skip_word_from(&chars_of("ab c"), 3), 4);
    let pieces = grammers::text::split_chars(&chars_of(".a..b"), '.');
    let pieces: Vec<String> = pieces.iter().map(|p| string_of(p)).collect();
    assert_eq!(pieces, vec!["", "a", "", "b"]);
    assert!(grammers::text::chars_end_with(&chars_of("abc"), &chars_of("bc")));
    assert!(grammers::text::chars_end_with(&chars_of("abc"), &[]));
    assert!(!grammers::text::chars_end_with(&chars_of("bc"), &chars_of("abc")));
    assert!(grammers::text::chars_start_with(&chars_of("abc"), &chars_of("ab")));
    assert!(!grammers::text::chars_start_with(&chars_of("abc"), &chars_of("b")));
    assert!(grammers::text::chars_equal(&chars_of("abc"), &chars_of("abc")));
    assert!(!grammers::text::chars_equal(&chars_of("abc"), &chars_of("abd")));
}

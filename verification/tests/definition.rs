use grammers::tl::Definition;
use grammers::tl::ParameterType;
use grammers::tl::ParseError;
use grammers::tl::Type;

#[test]
fn parse_unknown_def_use() {
    assert_eq!(
        Definition::from_str("a#b c:!d = e"),
        Err(ParseError::MalformedParam)
    );
}

#[test]
fn parse_empty_def() {
    assert_eq!(Definition::from_str(""), Err(ParseError::EmptyDefinition));
}

#[test]
fn parse_bad_id() {
    let bad = u32::from_str_radix("bar", 16).unwrap_err();
    let bad_q = u32::from_str_radix("?", 16).unwrap_err();
    let bad_empty = u32::from_str_radix("", 16).unwrap_err();
    assert_eq!(
        Definition::from_str("foo#bar = baz"),
        Err(ParseError::MalformedId(bad))
    );
    assert_eq!(
        Definition::from_str("foo#? = baz"),
        Err(ParseError::MalformedId(bad_q))
    );
    assert_eq!(
        Definition::from_str("foo# = baz"),
        Err(ParseError::MalformedId(bad_empty))
    );
}

#[test]
fn parse_no_name() {
    assert_eq!(Definition::from_str(" = foo"), Err(ParseError::MissingName));
}

#[test]
fn parse_no_type() {
    assert_eq!(Definition::from_str("foo"), Err(ParseError::MissingType));
    assert_eq!(Definition::from_str("foo = "), Err(ParseError::MissingType));
}

#[test]
fn parse_unimplemented() {
    assert_eq!(
        Definition::from_str("int ? = Int"),
        Err(ParseError::NotImplemented {
            line: "int ? = Int".into()
        })
    );
}

#[test]
fn parse_override_id() {
    let def = "rpc_answer_dropped msg_id:long seq_no:int bytes:int = RpcDropAnswer";
    assert_eq!(Definition::from_str(def).unwrap().id, 0xa43ad8b7);

    let def = "rpc_answer_dropped#123456 msg_id:long seq_no:int bytes:int = RpcDropAnswer";
    assert_eq!(Definition::from_str(def).unwrap().id, 0x123456);
}

#[test]
fn parse_valid_definition() {
    let def = Definition::from_str("a#1=d").unwrap();
    assert_eq!(def.name, "a");
    assert_eq!(def.id, 1);
    assert_eq!(def.params.len(), 0);
    assert_eq!(
        def.ty,
        Type {
            namespace: vec![],
            name: "d".into(),
            generic_ref: false,
            generic_arg: None,
        }
    );

    let def = Definition::from_str("a=d<e>").unwrap();
    assert_eq!(def.name, "a");
    assert_ne!(def.id, 0);
    assert_eq!(def.params.len(), 0);
    assert_eq!(
        def.ty,
        Type {
            namespace: vec![],
            name: "d".into(),
            generic_ref: false,
            generic_arg: Some("e".into()),
        }
    );

    let def = Definition::from_str("a b:c = d").unwrap();
    assert_eq!(def.name, "a");
    assert_ne!(def.id, 0);
    assert_eq!(def.params.len(), 1);
    assert_eq!(
        def.ty,
        Type {
            namespace: vec![],
            name: "d".into(),
            generic_ref: false,
            generic_arg: None,
        }
    );

    let def = Definition::from_str("a#1 {b:Type} c:!b = d").unwrap();
    assert_eq!(def.name, "a");
    assert_eq!(def.id, 1);
    assert_eq!(def.params.len(), 1);
    assert!(match def.params[0].ty {
        ParameterType::Normal {
            ty: Type { generic_ref, .. },
            ..
        } if generic_ref => true,
        _ => false,
    });
    assert_eq!(
        def.ty,
        Type {
            namespace: vec![],
            name: "d".into(),
            generic_ref: false,
            generic_arg: None,
        }
    );
}

#[test]
fn parse_through_the_trait() {
    assert_eq!(
        "a#1 b:c = d".parse::<Definition>(),
        Definition::from_str("a#1 b:c = d")
    );
    assert_eq!(
        "foo".parse::<Definition>(),
        Err(ParseError::MissingType)
    );
    assert_eq!(
        <Definition as std::str::FromStr>::from_str("x = Y").unwrap().id,
        Definition::from_str("x = Y").unwrap().id
    );
}

use grammers::codegen::enums::write_definition;
use grammers::codegen::enums::write_deserializable;
use grammers::codegen::enums::write_enum;
use grammers::codegen::enums::write_enums_mod;
use grammers::codegen::enums::write_impl_from;
use grammers::codegen::enums::write_serializable;
use grammers::codegen::enums::Features;
use grammers::codegen::grouper::constructors_of;
use grammers::codegen::grouper::group_types_by_ns;
use grammers::codegen::grouper::string_less;
use grammers::codegen::grouper::TypeGroup;
use grammers::codegen::metadata::Metadata;
use grammers::codegen::rustifier::rusty_class_name;
use grammers::codegen::rustifier::rusty_namespaced_type_name;
use grammers::tl::Category;
use grammers::tl::Definition;

fn parse(lines: &[&str]) -> Vec<Definition> {
    lines
        .iter()
        .map(|line| Definition::from_str(line).unwrap())
        .collect()
}

fn function(line: &str) -> Definition {
    let mut def = Definition::from_str(line).unwrap();
    def.category = Category::Functions;
    def
}

const PLAIN: Features = Features {
    impl_debug: false,
    impl_from_type: false,
};

const ALL: Features = Features {
    impl_debug: true,
    impl_from_type: true,
};

#[test]
fn class_names() {
    assert_eq!(rusty_class_name("ns.some_OK_name"), "SomeOkName");
    assert_eq!(rusty_class_name("inputPeerEmpty"), "InputPeerEmpty");
    assert_eq!(rusty_class_name("a.b.userFull"), "UserFull");
    assert_eq!(rusty_class_name("HTTPServer"), "Httpserver");
    assert_eq!(rusty_class_name("userFULLName"), "UserFullname");
    assert_eq!(rusty_class_name("__x__"), "X");
    assert_eq!(rusty_class_name("ünï_code"), "ünïCode");
    assert_eq!(rusty_class_name(""), "");
    assert_eq!(rusty_class_name("ns."), "");
}

#[test]
fn namespaced_type_names() {
    let def = Definition::from_str("auth.sentCode#1 = auth.SentCode").unwrap();
    assert_eq!(
        rusty_namespaced_type_name(&def),
        "crate::types::auth::SentCode"
    );
    let def = Definition::from_str("userEmpty#2 = User").unwrap();
    assert_eq!(rusty_namespaced_type_name(&def), "crate::types::UserEmpty");
    let def = function("a.b.get_it#3 = X");
    assert_eq!(
        rusty_namespaced_type_name(&def),
        "crate::functions::a::b::GetIt"
    );
}

#[test]
fn strings_are_ordered_by_their_characters() {
    for (a, b) in [
        ("", ""),
        ("", "a"),
        ("a", ""),
        ("a", "b"),
        ("ab", "a"),
        ("a", "ab"),
        ("abc", "abd"),
        ("Z", "a"),
        ("é", "z"),
        ("😀", "\u{ffff}"),
    ] {
        assert_eq!(string_less(a, b), a < b, "{:?} < {:?}", a, b);
    }
}

#[test]
fn only_definitions_on_a_cycle_are_recursive() {
    let defs = parse(&[
        "textBold#1 text:RichText = RichText",
        "textPlain#2 text:string = RichText",
        "a#3 x:B = A",
        "b#4 y:flags.0?A = B",
        "c#5 z:A = C",
        "d#6 v:Vector<D> = D",
        "e#7 x:ns.E = E",
        "f#8 x:ns.F = ns.F",
    ]);
    let metadata = Metadata::new(&defs);
    let recursive: Vec<bool> = defs.iter().map(|d| metadata.is_recursive_def(d)).collect();
    assert_eq!(
        recursive,
        vec![true, false, true, true, false, false, false, true]
    );
}

#[test]
fn a_function_is_never_recursive() {
    let mut defs = parse(&["f#1 x:F = F"]);
    assert!(Metadata::new(&defs).is_recursive_def(&defs[0]));
    defs[0].category = Category::Functions;
    assert!(!Metadata::new(&defs).is_recursive_def(&defs[0]));
}

#[test]
fn types_are_grouped_by_namespace_in_order() {
    let mut defs = parse(&[
        "userEmpty#1 = User",
        "auth.sentCode#2 = auth.SentCode",
        "user#3 = User",
        "chat#4 = Chat",
        "auth.authorization#5 = auth.Authorization",
        "b.x#6 = a.X",
    ]);
    defs.push(function("auth.signIn#7 = zz.Ignored"));
    assert_eq!(
        group_types_by_ns(&defs),
        vec![
            TypeGroup {
                namespace: None,
                names: vec!["Chat".into(), "User".into()],
            },
            TypeGroup {
                namespace: Some("a".into()),
                names: vec!["X".into()],
            },
            TypeGroup {
                namespace: Some("auth".into()),
                names: vec!["Authorization".into(), "SentCode".into()],
            },
        ]
    );
    let users = constructors_of(&defs, &None, &"User".to_string());
    let names: Vec<&str> = users.iter().map(|d| d.name.as_str()).collect();
    assert_eq!(names, vec!["userEmpty", "user"]);
    assert!(constructors_of(&defs, &Some("zz".to_string()), &"Ignored".to_string()).is_empty());
}

#[test]
fn the_enum_lists_the_constructors() {
    let defs = parse(&[
        "inputPeerEmpty#1 = InputPeer",
        "inputPeerUser#2 user_id:int access_hash:long = InputPeer",
    ]);
    let metadata = Metadata::new(&defs);
    let type_defs: Vec<&Definition> = defs.iter().collect();
    let mut out = String::from("// start\n");
    write_enum(&mut out, "    ", "InputPeer", &type_defs, &metadata, PLAIN);
    assert_eq!(
        out,
        "// start\n    pub enum InputPeer {\n        InputPeerEmpty(crate::types::InputPeerEmpty),\n        InputPeerUser(crate::types::InputPeerUser),\n    }\n"
    );
}

#[test]
fn a_recursive_constructor_is_boxed() {
    let defs = parse(&[
        "textEmpty#1 = RichText",
        "textBold#2 text:RichText = RichText",
    ]);
    let metadata = Metadata::new(&defs);
    let type_defs: Vec<&Definition> = defs.iter().collect();
    let mut out = String::new();
    write_enum(&mut out, "", "RichText", &type_defs, &metadata, ALL);
    assert_eq!(
        out,
        "#[derive(Debug)]\npub enum RichText {\n    TextEmpty(crate::types::TextEmpty),\n    TextBold(Box<crate::types::TextBold>),\n}\n"
    );
    let mut out = String::new();
    write_impl_from(&mut out, "", "RichText", &type_defs, &metadata);
    assert_eq!(
        out,
        "impl From<crate::types::TextEmpty> for RichText {\n    fn from(x: crate::types::TextEmpty) -> Self {\n        RichText::TextEmpty(x)\n    }\n}\nimpl From<crate::types::TextBold> for RichText {\n    fn from(x: crate::types::TextBold) -> Self {\n        RichText::TextBold(Box::new(x))\n    }\n}\n"
    );
    let mut out = String::new();
    write_deserializable(&mut out, "", "RichText", &type_defs, &metadata);
    assert_eq!(
        out,
        "impl crate::Deserializable for RichText {\n    fn deserialize<B: std::io::Read>(buf: &mut B) -> std::io::Result<Self> {\n        use crate::Identifiable;\n        let id = u32::deserialize(buf)?;\n        Ok(match id {\n            crate::types::TextEmpty::CONSTRUCTOR_ID => Self::TextEmpty(crate::types::TextEmpty::deserialize(buf)?),\n            crate::types::TextBold::CONSTRUCTOR_ID => Self::TextBold(Box::new(crate::types::TextBold::deserialize(buf)?)),\n            _ => return Err(std::io::Error::new(std::io::ErrorKind::InvalidData, crate::errors::UnexpectedConstructor { id })),\n        })\n    }\n}\n"
    );
}

#[test]
fn serialization_writes_the_identifier_first() {
    let defs = parse(&["auth.sentCode#1 = auth.SentCode"]);
    let metadata = Metadata::new(&defs);
    let type_defs: Vec<&Definition> = defs.iter().collect();
    let mut out = String::new();
    write_serializable(&mut out, "  ", "SentCode", &type_defs, &metadata);
    assert_eq!(
        out,
        "  impl crate::Serializable for SentCode {\n      fn serialize<B: std::io::Write>(&self, buf: &mut B) -> std::io::Result<()> {\n          use crate::Identifiable;\n          match self {\n              Self::SentCode(x) => {\n                  crate::types::auth::SentCode::CONSTRUCTOR_ID.serialize(buf)?;\n                  x.serialize(buf)\n              },\n          }\n      }\n  }\n"
    );
}

#[test]
fn a_type_without_constructors_serializes_to_nothing() {
    let metadata = Metadata::new(&Vec::new());
    let mut out = String::new();
    write_serializable(&mut out, "", "Void", &Vec::new(), &metadata);
    assert_eq!(
        out,
        "impl crate::Serializable for Void {\n    fn serialize<B: std::io::Write>(&self, buf: &mut B) -> std::io::Result<()> {\n        Ok(())\n    }\n}\n"
    );
    let mut out = String::new();
    write_enum(&mut out, "", "Void", &Vec::new(), &metadata, PLAIN);
    assert_eq!(out, "pub enum Void {\n}\n");
    let mut out = String::new();
    write_impl_from(&mut out, "", "Void", &Vec::new(), &metadata);
    assert_eq!(out, "");
}

#[test]
fn a_definition_is_the_enum_and_its_impls() {
    let defs = parse(&["x#1 = X"]);
    let metadata = Metadata::new(&defs);
    let type_defs: Vec<&Definition> = defs.iter().collect();
    let mut expected = String::new();
    write_enum(&mut expected, "", "X", &type_defs, &metadata, PLAIN);
    write_serializable(&mut expected, "", "X", &type_defs, &metadata);
    write_deserializable(&mut expected, "", "X", &type_defs, &metadata);
    let mut out = String::new();
    write_definition(&mut out, "", "X", &type_defs, &metadata, PLAIN);
    assert_eq!(out, expected);

    let mut expected = String::new();
    write_enum(&mut expected, "", "X", &type_defs, &metadata, ALL);
    write_serializable(&mut expected, "", "X", &type_defs, &metadata);
    write_deserializable(&mut expected, "", "X", &type_defs, &metadata);
    write_impl_from(&mut expected, "", "X", &type_defs, &metadata);
    let mut out = String::new();
    write_definition(&mut out, "", "X", &type_defs, &metadata, ALL);
    assert_eq!(out, expected);
}

#[test]
fn the_module_holds_every_namespace_in_order() {
    let mut defs = parse(&[
        "user#1 = User",
        "auth.sentCode#2 = auth.SentCode",
        "userEmpty#3 = User",
    ]);
    defs.push(function("getUsers#4 = Vector<User>"));
    let metadata = Metadata::new(&defs);

    let mut expected = String::from(
        "/// This module contains all of the boxed types, each\n/// represented by a `enum`. All of them implement\n/// [`Serializable`] and [`Deserializable`].\n///\n/// [`Serializable`]: /grammers_tl_types/trait.Serializable.html\n/// [`Deserializable`]: /grammers_tl_types/trait.Deserializable.html\n#[allow(clippy::large_enum_variant)]\npub mod enums {\n",
    );
    let users: Vec<&Definition> = vec![&defs[0], &defs[2]];
    write_definition(&mut expected, "    ", "User", &users, &metadata, PLAIN);
    expected.push_str("    #[allow(clippy::large_enum_variant)]\n    pub mod auth {\n");
    let codes: Vec<&Definition> = vec![&defs[1]];
    write_definition(&mut expected, "        ", "SentCode", &codes, &metadata, PLAIN);
    expected.push_str("    }\n}\n");

    let mut out = String::new();
    write_enums_mod(&mut out, &defs, &metadata, PLAIN);
    assert_eq!(out, expected);
}

#[test]
fn the_module_of_no_definitions_is_empty() {
    let defs = Vec::new();
    let mut out = String::new();
    write_enums_mod(&mut out, &defs, &Metadata::new(&defs), PLAIN);
    assert!(out.ends_with("pub mod enums {\n}\n"));
}

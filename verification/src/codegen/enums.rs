//! Generation of the Rust `enum` of every boxed type.

use crate::tl::definition::all_views;
use crate::codegen::grouper::constructors;
use crate::codegen::grouper::constructors_of;
use crate::tl::definition::definition_views;
use crate::codegen::grouper::group_types_by_ns;
use crate::codegen::grouper::groups_of;
use crate::codegen::grouper::key_view;
use crate::codegen::grouper::TypeGroup;
use crate::codegen::grouper::type_names;
use crate::codegen::grouper::type_namespaces;
use crate::text::string_views;
use crate::codegen::metadata::Metadata;
use crate::codegen::rustifier::class_name;
use crate::codegen::rustifier::namespaced_type_name;
use crate::codegen::rustifier::rusty_class_name;
use crate::codegen::rustifier::rusty_namespaced_type_name;
use crate::tl::definition::Definition;
use crate::tl::definition::DefinitionView;
use vstd::prelude::*;
use vstd::string::StringExecFns;

verus! {

/// Which optional parts of the code are generated.
#[derive(Clone, Copy, Debug, PartialEq, Eq, Structural)]
pub struct Features {
    /// Whether the generated types derive `Debug`.
    pub impl_debug: bool,
    /// Whether every boxed type gets a conversion from each of its
    /// constructors.
    pub impl_from_type: bool,
}

/// `file` followed by `text` where `on` holds, `file` alone otherwise.
pub open spec fn appended_if(file: Seq<char>, on: bool, text: Seq<char>) -> Seq<char> {
    if on {
        file + text
    } else {
        file
    }
}

/// `file` followed by one variant of an enum: the class name of the
/// constructor, holding the type of the constructor, in a `Box` where the
/// constructor is recursive.
pub open spec fn enum_variant_appended(
    file: Seq<char>,
    indent: Seq<char>,
    def: DefinitionView,
    recursive: bool,
) -> Seq<char> {
    appended_if(
        appended_if(file + indent + "    "@ + class_name(def.name) + "("@, recursive, "Box<"@)
            + namespaced_type_name(def),
        recursive,
        ">"@,
    ) + "),\n"@
}

/// `file` followed by the variants for the first `n` of `defs`.
pub open spec fn enum_variants_appended(
    file: Seq<char>,
    indent: Seq<char>,
    defs: Seq<DefinitionView>,
    recursive: Set<u32>,
    n: int,
) -> Seq<char>
    decreases n,
{
    if n <= 0 {
        file
    } else {
        enum_variant_appended(
            enum_variants_appended(file, indent, defs, recursive, n - 1),
            indent,
            defs[n - 1],
            recursive.contains(defs[n - 1].id),
        )
    }
}

/// `file` followed by the enum of the boxed type `name` with the
/// constructors `defs`:
///
/// ```text
/// pub enum Name {
///     Variant(crate::types::Variant),
/// }
/// ```
pub open spec fn enum_appended(
    file: Seq<char>,
    indent: Seq<char>,
    name: Seq<char>,
    defs: Seq<DefinitionView>,
    recursive: Set<u32>,
    features: Features,
) -> Seq<char> {
    enum_variants_appended(
        appended_if(file, features.impl_debug, indent + "#[derive(Debug)]\n"@) + indent
            + "pub enum "@ + class_name(name) + " {\n"@,
        indent,
        defs,
        recursive,
        defs.len() as int,
    ) + indent + "}\n"@
}

/// Writes the enum that lists the constructors of a boxed type.
pub fn write_enum(
    file: &mut String,
    indent: &str,
    name: &str,
    type_defs: &Vec<&Definition>,
    metadata: &Metadata,
    features: Features,
)
    ensures
        final(file)@ == enum_appended(
            old(file)@,
            indent@,
            name@,
            definition_views(type_defs@),
            metadata@,
            features,
        ),
{
    let ghost defs = definition_views(type_defs@);
    if features.impl_debug {
        let ghost before = file@;
        file.append(indent);
        file.append("#[derive(Debug)]\n");
        assert(file@ =~= before + (indent@ + "#[derive(Debug)]\n"@));
    }
    file.append(indent);
    file.append("pub enum ");
    file.append(rusty_class_name(name).as_str());
    file.append(" {\n");
    let ghost start = file@;
    let mut i: usize = 0;
    while i < type_defs.len()
        invariant
            i <= type_defs@.len(),
            defs == definition_views(type_defs@),
            file@ == enum_variants_appended(start, indent@, defs, metadata@, i as int),
        decreases type_defs@.len() - i,
    {
        let d = type_defs[i];
        let recursive = metadata.is_recursive_def(d);
        file.append(indent);
        file.append("    ");
        file.append(rusty_class_name(d.name.as_str()).as_str());
        file.append("(");
        if recursive {
            file.append("Box<");
        }
        file.append(rusty_namespaced_type_name(d).as_str());
        if recursive {
            file.append(">");
        }
        file.append("),\n");
        i = i + 1;
    }
    file.append(indent);
    file.append("}\n");
}

/// `file` followed by the arm of `serialize` for one constructor.
pub open spec fn serialize_arm_appended(file: Seq<char>, indent: Seq<char>, def: DefinitionView) -> Seq<
    char,
> {
    file + indent + "            Self::"@ + class_name(def.name) + "(x) => {\n"@ + indent
        + "                "@ + namespaced_type_name(def) + "::CONSTRUCTOR_ID.serialize(buf)?;\n"@
        + indent + "                x.serialize(buf)\n"@ + indent + "            },\n"@
}

/// `file` followed by the arms of `serialize` for the first `n` of `defs`.
pub open spec fn serialize_arms_appended(
    file: Seq<char>,
    indent: Seq<char>,
    defs: Seq<DefinitionView>,
    n: int,
) -> Seq<char>
    decreases n,
{
    if n <= 0 {
        file
    } else {
        serialize_arm_appended(
            serialize_arms_appended(file, indent, defs, n - 1),
            indent,
            defs[n - 1],
        )
    }
}

/// `file` followed by the body of `serialize`: for each constructor, its
/// identifier and then its fields; nothing for a type without constructors.
pub open spec fn serialize_body_appended(
    file: Seq<char>,
    indent: Seq<char>,
    defs: Seq<DefinitionView>,
) -> Seq<char> {
    if defs.len() == 0 {
        file + indent + "        Ok(())\n"@
    } else {
        serialize_arms_appended(
            file + indent + "        use crate::Identifiable;\n"@ + indent
                + "        match self {\n"@,
            indent,
            defs,
            defs.len() as int,
        ) + indent + "        }\n"@
    }
}

/// `file` followed by the implementation of `Serializable` for the boxed
/// type `name`:
///
/// ```text
/// impl crate::Serializable for Name {
///     fn serialize<B: std::io::Write>(&self, buf: &mut B) -> std::io::Result<()> {
///         use crate::Identifiable;
///         match self {
///             Self::Variant(x) => {
///                 crate::types::Variant::CONSTRUCTOR_ID.serialize(buf)?;
///                 x.serialize(buf)
///             },
///         }
///     }
/// }
/// ```
pub open spec fn serializable_appended(
    file: Seq<char>,
    indent: Seq<char>,
    name: Seq<char>,
    defs: Seq<DefinitionView>,
) -> Seq<char> {
    serialize_body_appended(
        file + indent + "impl crate::Serializable for "@ + class_name(name) + " {\n"@ + indent
            + "    fn serialize<B: std::io::Write>(&self, buf: &mut B) -> std::io::Result<()> {\n"@,
        indent,
        defs,
    ) + indent + "    }\n"@ + indent + "}\n"@
}

/// Writes the implementation of `Serializable` for a boxed type.
pub fn write_serializable(
    file: &mut String,
    indent: &str,
    name: &str,
    type_defs: &Vec<&Definition>,
    _metadata: &Metadata,
)
    ensures
        final(file)@ == serializable_appended(
            old(file)@,
            indent@,
            name@,
            definition_views(type_defs@),
        ),
{
    let ghost defs = definition_views(type_defs@);
    file.append(indent);
    file.append("impl crate::Serializable for ");
    file.append(rusty_class_name(name).as_str());
    file.append(" {\n");
    file.append(indent);
    file.append(
        "    fn serialize<B: std::io::Write>(&self, buf: &mut B) -> std::io::Result<()> {\n",
    );
    if type_defs.len() == 0 {
        file.append(indent);
        file.append("        Ok(())\n");
    } else {
        file.append(indent);
        file.append("        use crate::Identifiable;\n");
        file.append(indent);
        file.append("        match self {\n");
        let ghost start = file@;
        let mut i: usize = 0;
        while i < type_defs.len()
            invariant
                i <= type_defs@.len(),
                defs == definition_views(type_defs@),
                file@ == serialize_arms_appended(start, indent@, defs, i as int),
            decreases type_defs@.len() - i,
        {
            let d = type_defs[i];
            file.append(indent);
            file.append("            Self::");
            file.append(rusty_class_name(d.name.as_str()).as_str());
            file.append("(x) => {\n");
            file.append(indent);
            file.append("                ");
            file.append(rusty_namespaced_type_name(d).as_str());
            file.append("::CONSTRUCTOR_ID.serialize(buf)?;\n");
            file.append(indent);
            file.append("                x.serialize(buf)\n");
            file.append(indent);
            file.append("            },\n");
            i = i + 1;
        }
        file.append(indent);
        file.append("        }\n");
    }
    file.append(indent);
    file.append("    }\n");
    file.append(indent);
    file.append("}\n");
}

/// `file` followed by the arm of `deserialize` for one constructor: where
/// the identifier read is that of the constructor, its fields are read, into
/// a `Box` where the constructor is recursive.
pub open spec fn deserialize_arm_appended(
    file: Seq<char>,
    indent: Seq<char>,
    def: DefinitionView,
    recursive: bool,
) -> Seq<char> {
    appended_if(
        appended_if(
            file + indent + "            "@ + namespaced_type_name(def)
                + "::CONSTRUCTOR_ID => Self::"@ + class_name(def.name) + "("@,
            recursive,
            "Box::new("@,
        ) + namespaced_type_name(def) + "::deserialize(buf)?"@,
        recursive,
        ")"@,
    ) + "),\n"@
}

/// `file` followed by the arms of `deserialize` for the first `n` of `defs`.
pub open spec fn deserialize_arms_appended(
    file: Seq<char>,
    indent: Seq<char>,
    defs: Seq<DefinitionView>,
    recursive: Set<u32>,
    n: int,
) -> Seq<char>
    decreases n,
{
    if n <= 0 {
        file
    } else {
        deserialize_arm_appended(
            deserialize_arms_appended(file, indent, defs, recursive, n - 1),
            indent,
            defs[n - 1],
            recursive.contains(defs[n - 1].id),
        )
    }
}

/// `file` followed by the implementation of `Deserializable` for the boxed
/// type `name`: the identifier is read and decides the constructor; one that
/// belongs to none of them is an error.
///
/// ```text
/// impl crate::Deserializable for Name {
///     fn deserialize<B: std::io::Read>(buf: &mut B) -> std::io::Result<Self> {
///         use crate::Identifiable;
///         let id = u32::deserialize(buf)?;
///         Ok(match id {
///             crate::types::Variant::CONSTRUCTOR_ID => Self::Variant(crate::types::Variant::deserialize(buf)?),
///             _ => return Err(..),
///         })
///     }
/// }
/// ```
pub open spec fn deserializable_appended(
    file: Seq<char>,
    indent: Seq<char>,
    name: Seq<char>,
    defs: Seq<DefinitionView>,
    recursive: Set<u32>,
) -> Seq<char> {
    deserialize_arms_appended(
        file + indent + "impl crate::Deserializable for "@ + class_name(name) + " {\n"@ + indent
            + "    fn deserialize<B: std::io::Read>(buf: &mut B) -> std::io::Result<Self> {\n"@
            + indent + "        use crate::Identifiable;\n"@ + indent
            + "        let id = u32::deserialize(buf)?;\n"@ + indent + "        Ok(match id {\n"@,
        indent,
        defs,
        recursive,
        defs.len() as int,
    ) + indent
        + "            _ => return Err(std::io::Error::new(std::io::ErrorKind::InvalidData, crate::errors::UnexpectedConstructor { id })),\n"@
        + indent + "        })\n"@ + indent + "    }\n"@ + indent + "}\n"@
}

/// Writes the implementation of `Deserializable` for a boxed type.
pub fn write_deserializable(
    file: &mut String,
    indent: &str,
    name: &str,
    type_defs: &Vec<&Definition>,
    metadata: &Metadata,
)
    ensures
        final(file)@ == deserializable_appended(
            old(file)@,
            indent@,
            name@,
            definition_views(type_defs@),
            metadata@,
        ),
{
    let ghost defs = definition_views(type_defs@);
    file.append(indent);
    file.append("impl crate::Deserializable for ");
    file.append(rusty_class_name(name).as_str());
    file.append(" {\n");
    file.append(indent);
    file.append(
        "    fn deserialize<B: std::io::Read>(buf: &mut B) -> std::io::Result<Self> {\n",
    );
    file.append(indent);
    file.append("        use crate::Identifiable;\n");
    file.append(indent);
    file.append("        let id = u32::deserialize(buf)?;\n");
    file.append(indent);
    file.append("        Ok(match id {\n");
    let ghost start = file@;
    let mut i: usize = 0;
    while i < type_defs.len()
        invariant
            i <= type_defs@.len(),
            defs == definition_views(type_defs@),
            file@ == deserialize_arms_appended(start, indent@, defs, metadata@, i as int),
        decreases type_defs@.len() - i,
    {
        let d = type_defs[i];
        let recursive = metadata.is_recursive_def(d);
        let path = rusty_namespaced_type_name(d);
        file.append(indent);
        file.append("            ");
        file.append(path.as_str());
        file.append("::CONSTRUCTOR_ID => Self::");
        file.append(rusty_class_name(d.name.as_str()).as_str());
        file.append("(");
        if recursive {
            file.append("Box::new(");
        }
        file.append(path.as_str());
        file.append("::deserialize(buf)?");
        if recursive {
            file.append(")");
        }
        file.append("),\n");
        i = i + 1;
    }
    file.append(indent);
    file.append(
        "            _ => return Err(std::io::Error::new(std::io::ErrorKind::InvalidData, crate::errors::UnexpectedConstructor { id })),\n",
    );
    file.append(indent);
    file.append("        })\n");
    file.append(indent);
    file.append("    }\n");
    file.append(indent);
    file.append("}\n");
}

/// `file` followed by the conversion from one constructor into the boxed
/// type `name`:
///
/// ```text
/// impl From<crate::types::Variant> for Name {
///     fn from(x: crate::types::Variant) -> Self {
///         Name::Variant(x)
///     }
/// }
/// ```
pub open spec fn impl_from_one_appended(
    file: Seq<char>,
    indent: Seq<char>,
    name: Seq<char>,
    def: DefinitionView,
    recursive: bool,
) -> Seq<char> {
    appended_if(
        appended_if(
            file + indent + "impl From<"@ + namespaced_type_name(def) + "> for "@ + class_name(
                name,
            ) + " {\n"@ + indent + "    fn from(x: "@ + namespaced_type_name(def)
                + ") -> Self {\n"@ + indent + "        "@ + class_name(name) + "::"@ + class_name(
                def.name,
            ) + "("@,
            recursive,
            "Box::new("@,
        ) + "x"@,
        recursive,
        ")"@,
    ) + ")\n"@ + indent + "    }\n"@ + indent + "}\n"@
}

/// `file` followed by the conversions from the first `n` of `defs` into the
/// boxed type `name`.
pub open spec fn impl_from_appended(
    file: Seq<char>,
    indent: Seq<char>,
    name: Seq<char>,
    defs: Seq<DefinitionView>,
    recursive: Set<u32>,
    n: int,
) -> Seq<char>
    decreases n,
{
    if n <= 0 {
        file
    } else {
        impl_from_one_appended(
            impl_from_appended(file, indent, name, defs, recursive, n - 1),
            indent,
            name,
            defs[n - 1],
            recursive.contains(defs[n - 1].id),
        )
    }
}

/// Writes the conversions from the constructors of a boxed type into that
/// type.
pub fn write_impl_from(
    file: &mut String,
    indent: &str,
    name: &str,
    type_defs: &Vec<&Definition>,
    metadata: &Metadata,
)
    ensures
        final(file)@ == impl_from_appended(
            old(file)@,
            indent@,
            name@,
            definition_views(type_defs@),
            metadata@,
            type_defs@.len() as int,
        ),
{
    let ghost defs = definition_views(type_defs@);
    let class = rusty_class_name(name);
    let mut i: usize = 0;
    while i < type_defs.len()
        invariant
            i <= type_defs@.len(),
            defs == definition_views(type_defs@),
            class@ == class_name(name@),
            file@ == impl_from_appended(old(file)@, indent@, name@, defs, metadata@, i as int),
        decreases type_defs@.len() - i,
    {
        let def = type_defs[i];
        let recursive = metadata.is_recursive_def(def);
        let path = rusty_namespaced_type_name(def);
        file.append(indent);
        file.append("impl From<");
        file.append(path.as_str());
        file.append("> for ");
        file.append(class.as_str());
        file.append(" {\n");
        file.append(indent);
        file.append("    fn from(x: ");
        file.append(path.as_str());
        file.append(") -> Self {\n");
        file.append(indent);
        file.append("        ");
        file.append(class.as_str());
        file.append("::");
        file.append(rusty_class_name(def.name.as_str()).as_str());
        file.append("(");
        if recursive {
            file.append("Box::new(");
        }
        file.append("x");
        if recursive {
            file.append(")");
        }
        file.append(")\n");
        file.append(indent);
        file.append("    }\n");
        file.append(indent);
        file.append("}\n");
        i = i + 1;
    }
}

/// `file` followed by all the code for the boxed type `name`: the enum, its
/// serialization, its deserialization and, where asked for, the conversions
/// from its constructors.
pub open spec fn definition_appended(
    file: Seq<char>,
    indent: Seq<char>,
    name: Seq<char>,
    defs: Seq<DefinitionView>,
    recursive: Set<u32>,
    features: Features,
) -> Seq<char> {
    let written = deserializable_appended(
        serializable_appended(
            enum_appended(file, indent, name, defs, recursive, features),
            indent,
            name,
            defs,
        ),
        indent,
        name,
        defs,
        recursive,
    );
    if features.impl_from_type {
        impl_from_appended(written, indent, name, defs, recursive, defs.len() as int)
    } else {
        written
    }
}

/// Writes all the code for a boxed type: the `enum` and its `impl`s.
pub fn write_definition(
    file: &mut String,
    indent: &str,
    name: &str,
    type_defs: &Vec<&Definition>,
    metadata: &Metadata,
    features: Features,
)
    ensures
        final(file)@ == definition_appended(
            old(file)@,
            indent@,
            name@,
            definition_views(type_defs@),
            metadata@,
            features,
        ),
{
    write_enum(file, indent, name, type_defs, metadata, features);
    write_serializable(file, indent, name, type_defs, metadata);
    write_deserializable(file, indent, name, type_defs, metadata);
    if features.impl_from_type {
        write_impl_from(file, indent, name, type_defs, metadata);
    }
}

/// The indentation of the code for the types of a namespace.
pub open spec fn namespace_indent(key: Option<Seq<char>>) -> Seq<char> {
    match key {
        Some(_) => "        "@,
        None => "    "@,
    }
}

/// `file` followed by the code for the first `n` of the types `names` of
/// the namespace `key`, each with its constructors among `defs`.
pub open spec fn types_appended(
    file: Seq<char>,
    defs: Seq<DefinitionView>,
    recursive: Set<u32>,
    features: Features,
    key: Option<Seq<char>>,
    names: Seq<Seq<char>>,
    n: int,
) -> Seq<char>
    decreases n,
{
    if n <= 0 {
        file
    } else {
        definition_appended(
            types_appended(file, defs, recursive, features, key, names, n - 1),
            namespace_indent(key),
            names[n - 1],
            constructors(defs, key, names[n - 1], defs.len() as int),
            recursive,
            features,
        )
    }
}

/// `file` followed by the code for the types of the namespace `key`, within
/// a module of that name where there is one.
pub open spec fn namespace_appended(
    file: Seq<char>,
    defs: Seq<DefinitionView>,
    recursive: Set<u32>,
    features: Features,
    key: Option<Seq<char>>,
) -> Seq<char> {
    let names = type_names(defs, key, defs.len() as int);
    match key {
        Some(ns) => types_appended(
            file + "    #[allow(clippy::large_enum_variant)]\n"@ + "    pub mod "@ + ns + " {\n"@,
            defs,
            recursive,
            features,
            key,
            names,
            names.len() as int,
        ) + "    }\n"@,
        None => types_appended(file, defs, recursive, features, key, names, names.len() as int),
    }
}

/// `file` followed by the code for the first `n` of the namespaces `keys`.
pub open spec fn namespaces_appended(
    file: Seq<char>,
    defs: Seq<DefinitionView>,
    recursive: Set<u32>,
    features: Features,
    keys: Seq<Option<Seq<char>>>,
    n: int,
) -> Seq<char>
    decreases n,
{
    if n <= 0 {
        file
    } else {
        namespace_appended(
            namespaces_appended(file, defs, recursive, features, keys, n - 1),
            defs,
            recursive,
            features,
            keys[n - 1],
        )
    }
}

/// The start of the module of the boxed types.
pub open spec fn enums_mod_header() -> Seq<char> {
    "/// This module contains all of the boxed types, each\n/// represented by a `enum`. All of them implement\n/// [`Serializable`] and [`Deserializable`].\n///\n/// [`Serializable`]: /grammers_tl_types/trait.Serializable.html\n/// [`Deserializable`]: /grammers_tl_types/trait.Deserializable.html\n#[allow(clippy::large_enum_variant)]\npub mod enums {\n"@
}

/// `file` followed by the module of the boxed types: for every namespace in
/// order, the types without namespace first, the code for each of its types
/// in the order of their names.
pub open spec fn enums_mod_appended(
    file: Seq<char>,
    defs: Seq<DefinitionView>,
    recursive: Set<u32>,
    features: Features,
) -> Seq<char> {
    let keys = type_namespaces(defs, defs.len() as int);
    namespaces_appended(
        file + enums_mod_header(),
        defs,
        recursive,
        features,
        keys,
        keys.len() as int,
    ) + "}\n"@
}

/// Writes the code for the types of one namespace.
fn write_namespace(
    file: &mut String,
    definitions: &Vec<Definition>,
    metadata: &Metadata,
    features: Features,
    group: &TypeGroup,
)
    requires
        string_views(group.names@) == type_names(
            all_views(definitions@),
            key_view(group.namespace),
            definitions@.len() as int,
        ),
    ensures
        final(file)@ == namespace_appended(
            old(file)@,
            all_views(definitions@),
            metadata@,
            features,
            key_view(group.namespace),
        ),
{
    let ghost defs = all_views(definitions@);
    let ghost key = key_view(group.namespace);
    let ghost names = string_views(group.names@);
    let indent = match &group.namespace {
        Some(ns) => {
            file.append("    #[allow(clippy::large_enum_variant)]\n");
            file.append("    pub mod ");
            file.append(ns.as_str());
            file.append(" {\n");
            "        "
        },
        None => "    ",
    };
    let ghost inner = file@;
    let mut n: usize = 0;
    while n < group.names.len()
        invariant
            n <= group.names@.len(),
            defs == all_views(definitions@),
            key == key_view(group.namespace),
            names == string_views(group.names@),
            indent@ == namespace_indent(key),
            file@ == types_appended(inner, defs, metadata@, features, key, names, n as int),
        decreases group.names@.len() - n,
    {
        let name = &group.names[n];
        assert(name@ == string_views(group.names@)[n as int]);
        let type_defs = constructors_of(definitions, &group.namespace, name);
        write_definition(file, indent, name.as_str(), &type_defs, metadata, features);
        n = n + 1;
    }
    if group.namespace.is_some() {
        file.append("    }\n");
    }
}

/// Writes the whole module of the boxed types.
pub fn write_enums_mod(
    file: &mut String,
    definitions: &Vec<Definition>,
    metadata: &Metadata,
    features: Features,
)
    ensures
        final(file)@ == enums_mod_appended(
            old(file)@,
            all_views(definitions@),
            metadata@,
            features,
        ),
{
    let ghost defs = all_views(definitions@);
    let ghost keys = type_namespaces(defs, defs.len() as int);
    file.append(
        "/// This module contains all of the boxed types, each\n/// represented by a `enum`. All of them implement\n/// [`Serializable`] and [`Deserializable`].\n///\n/// [`Serializable`]: /grammers_tl_types/trait.Serializable.html\n/// [`Deserializable`]: /grammers_tl_types/trait.Deserializable.html\n#[allow(clippy::large_enum_variant)]\npub mod enums {\n",
    );
    let ghost start = file@;
    let grouped = group_types_by_ns(definitions);
    let mut g: usize = 0;
    while g < grouped.len()
        invariant
            g <= grouped@.len(),
            defs == all_views(definitions@),
            keys == type_namespaces(defs, defs.len() as int),
            groups_of(grouped@, defs),
            file@ == namespaces_appended(start, defs, metadata@, features, keys, g as int),
        decreases grouped@.len() - g,
    {
        let group = &grouped[g];
        assert(key_view(group.namespace) == keys[g as int]);
        write_namespace(file, definitions, metadata, features, group);
        g = g + 1;
    }
    file.append("}\n");
}

} // verus!

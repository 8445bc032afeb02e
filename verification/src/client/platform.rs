//! What the client tells the server about the machine it runs on.

use os_info::Info;
use vstd::prelude::*;
use vstd::string::StringExecFns;

verus! {

/// What is known of the operating system.
#[verifier::external_type_specification]
#[verifier::external_body]
pub struct ExInfo(Info);

/// `os_info::get`: asks the operating system what it is.
#[verifier::external_body]
fn os_information() -> Info {
    os_info::get()
}

/// `Info::os_type`, as text: the name of the operating system, which is never
/// empty.
#[verifier::external_body]
fn os_type_of(info: &Info) -> (name: String)
    ensures
        name@.len() > 0,
{
    info.os_type().to_string()
}

/// `Info::bitness`, as text: the width of the machine's words, which is one
/// of three texts.
#[verifier::external_body]
fn bitness_of(info: &Info) -> (width: String)
    ensures
        is_bitness(width@),
{
    info.bitness().to_string()
}

/// `Info::version`, as text: the version of the operating system.
#[verifier::external_body]
fn version_of(info: &Info) -> String {
    info.version().to_string()
}

/// Whether the text names a width of the machine's words, or says that it
/// is not known.
pub open spec fn is_bitness(text: Seq<char>) -> bool {
    text == "unknown bitness"@ || text == "32-bit"@ || text == "64-bit"@
}

/// The machine as the client describes it when it initializes a connection.
#[derive(Debug, PartialEq, Eq, Clone)]
pub struct Platform {
    /// The operating system and the width of its words.
    pub device_model: String,
    /// The version of the operating system.
    pub system_version: String,
    /// The language of the system.
    pub system_lang_code: String,
    /// The language of the user.
    pub lang_code: String,
}

/// The language used where none is found.
pub open spec fn default_locale() -> Seq<char> {
    "en"@
}

/// `locale`, or the default where it is empty.
pub open spec fn locale_or_default(locale: Seq<char>) -> Seq<char> {
    if locale.len() == 0 {
        default_locale()
    } else {
        locale
    }
}

/// The device model: the operating system, a space, and the width of the
/// machine's words.
pub open spec fn device_model(os_type: Seq<char>, bitness: Seq<char>) -> Seq<char> {
    os_type + " "@ + bitness
}

impl Platform {
    /// Describes a machine from what was found out about it. An empty locale
    /// is replaced by the default.
    pub fn describe(
        os_type: &str,
        bitness: &str,
        version: String,
        system_locale: String,
        user_locale: String,
    ) -> (platform: Platform)
        ensures
            platform.device_model@ == device_model(os_type@, bitness@),
            platform.system_version@ == version@,
            platform.system_lang_code@ == locale_or_default(system_locale@),
            platform.lang_code@ == locale_or_default(user_locale@),
    {
        let mut model = String::from_str(os_type);
        model.append(" ");
        model.append(bitness);
        let system_lang_code = if system_locale.as_str().is_empty() {
            String::from_str("en")
        } else {
            system_locale
        };
        let lang_code = if user_locale.as_str().is_empty() {
            String::from_str("en")
        } else {
            user_locale
        };
        Platform { device_model: model, system_version: version, system_lang_code, lang_code }
    }

    /// Describes the machine that the program runs on, given the locale of
    /// the system and that of the user: the device model is made of the name
    /// of the operating system and the width of its words as the machine
    /// reports them, and an empty locale is replaced by the default.
    pub fn current(system_locale: String, user_locale: String) -> (platform: Platform)
        ensures
            exists|os_type: Seq<char>, bitness: Seq<char>|
                os_type.len() > 0 && is_bitness(bitness) && platform.device_model@
                    == device_model(os_type, bitness),
            platform.system_lang_code@ == locale_or_default(system_locale@),
            platform.lang_code@ == locale_or_default(user_locale@),
    {
        let info = os_information();
        let os_type = os_type_of(&info);
        let bitness = bitness_of(&info);
        let version = version_of(&info);
        let platform = Platform::describe(
            os_type.as_str(),
            bitness.as_str(),
            version,
            system_locale,
            user_locale,
        );
        assert(os_type@.len() > 0 && is_bitness(bitness@) && platform.device_model@
            == device_model(os_type@, bitness@));
        platform
    }
}

} // verus!

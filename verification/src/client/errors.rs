//! The errors of the server and of the client.

use crate::client::types::TermsOfService;
use crate::text::chars_equal;
use crate::text::chars_of;
use crate::text::chars_start_with;
use crate::text::starts_with;
use crate::text::string_of;
use crate::tl::number::digit_value;
use crate::tl::number::digits_value;
use crate::tl::number::lemma_digits_value_grows;
use crate::tl::number::parse_usize;
use vstd::prelude::*;
use vstd::slice::slice_subrange;

verus! {

/// The error of an input or output operation.
#[verifier::external_type_specification]
#[verifier::external_body]
pub struct ExIoError(std::io::Error);

/// An error with which the server answers a request.
#[derive(Clone, Debug, PartialEq, Eq)]
pub struct RpcError {
    /// The code of the error, in the manner of HTTP.
    pub code: i32,
    /// The name of the error, without the value at its end.
    pub name: String,
    /// The value at the end of the name, if there is one.
    pub value: Option<i32>,
}

/// What the client makes of an error of the server.
#[derive(Clone, Copy, Debug, PartialEq, Eq, Structural)]
pub enum ErrorKind {
    /// The request has to go to another datacenter.
    Migration,
    /// The login code was not accepted.
    PhoneCodeInvalid,
    /// Any other error.
    Other,
}

/// Whether `c` is a decimal digit.
pub open spec fn is_digit(c: char) -> bool {
    '0' <= c <= '9'
}

/// The least `k <= j` such that `s[k..j]` holds digits only.
pub open spec fn back_digits(s: Seq<char>, j: int) -> int
    decreases j,
{
    if 0 < j <= s.len() && is_digit(s[j - 1]) {
        back_digits(s, j - 1)
    } else {
        j
    }
}

/// The value at the end of an error message: the number that the digits at
/// its end write, where there are some, an underscore stands before them and
/// the number fits 32 bits.
pub open spec fn message_value(message: Seq<char>) -> Option<i32> {
    let start = back_digits(message, message.len() as int);
    if 0 < start < message.len() && message[start - 1] == '_' {
        match digits_value(message.skip(start), 10) {
            Some(v) if v <= i32::MAX => Some(v as i32),
            _ => None,
        }
    } else {
        None
    }
}

/// The name of an error message: the message without its value and the
/// underscore before it.
pub open spec fn message_name(message: Seq<char>) -> Seq<char> {
    if message_value(message) is Some {
        message.take(back_digits(message, message.len() as int) - 1)
    } else {
        message
    }
}

/// The kind of the error called `name`.
pub open spec fn kind_of(name: Seq<char>) -> ErrorKind {
    if name == "PHONE_MIGRATE"@ || name == "NETWORK_MIGRATE"@ || name == "USER_MIGRATE"@ {
        ErrorKind::Migration
    } else if starts_with(name, "PHONE_CODE_"@) {
        ErrorKind::PhoneCodeInvalid
    } else {
        ErrorKind::Other
    }
}

proof fn lemma_all_digits(s: Seq<char>, start: int)
    requires
        0 <= start <= s.len(),
        back_digits(s, s.len() as int) <= start,
    ensures
        forall|k: int| start <= k < s.len() ==> is_digit(s[k]),
{
    lemma_back_digits(s, s.len() as int);
}

proof fn lemma_back_digits(s: Seq<char>, j: int)
    requires
        0 <= j <= s.len(),
    ensures
        0 <= back_digits(s, j) <= j,
        forall|k: int| back_digits(s, j) <= k < j ==> is_digit(s[k]),
    decreases j,
{
    if 0 < j && is_digit(s[j - 1]) {
        lemma_back_digits(s, j - 1);
    }
}

proof fn lemma_digits_have_value(s: Seq<char>)
    requires
        forall|k: int| 0 <= k < s.len() ==> is_digit(s[k]),
    ensures
        digits_value(s, 10) is Some,
    decreases s.len(),
{
    if s.len() > 0 {
        lemma_digits_have_value(s.drop_last());
        assert(is_digit(s.last()));
        assert(digit_value(s.last(), 10) is Some);
    }
}

impl RpcError {
    /// Makes the error from its code and its message: a value at the end of
    /// the message leaves the name.
    #[verifier::loop_isolation(false)]
    pub fn from_message(code: i32, message: &str) -> (error: RpcError)
        ensures
            error.code == code,
            error.name@ == message_name(message@),
            error.value == message_value(message@),
    {
        let text = chars_of(message);
        let mut start: usize = text.len();
        while start > 0 && '0' <= text[start - 1] && text[start - 1] <= '9'
            invariant
                start <= text@.len(),
                back_digits(text@, start as int) == back_digits(text@, text@.len() as int),
            decreases start,
        {
            start = start - 1;
        }
        if 0 < start && start < text.len() && text[start - 1] == '_' {
            let digits = slice_subrange(text.as_slice(), start, text.len());
            proof {
                lemma_all_digits(text@, start as int);
                assert(digits@ =~= text@.skip(start as int));
                assert(is_digit(digits@[0]));
                lemma_digits_have_value(digits@);
                lemma_digits_value_grows(digits@, 10, 0);
            }
            match parse_usize(digits) {
                Some(v) => {
                    if v <= 0x7FFF_FFFF {
                        return RpcError {
                            code,
                            name: string_of(slice_subrange(text.as_slice(), 0, start - 1)),
                            value: Some(v as i32),
                        };
                    }
                },
                None => {},
            }
        }
        RpcError { code, name: string_of(text.as_slice()), value: None }
    }

    /// What the client makes of the error.
    pub fn kind(&self) -> (kind: ErrorKind)
        ensures
            kind == kind_of(self.name@),
    {
        let name = chars_of(self.name.as_str());
        if chars_equal(name.as_slice(), chars_of("PHONE_MIGRATE").as_slice()) || chars_equal(
            name.as_slice(),
            chars_of("NETWORK_MIGRATE").as_slice(),
        ) || chars_equal(name.as_slice(), chars_of("USER_MIGRATE").as_slice()) {
            ErrorKind::Migration
        } else if chars_start_with(name.as_slice(), chars_of("PHONE_CODE_").as_slice()) {
            ErrorKind::PhoneCodeInvalid
        } else {
            ErrorKind::Other
        }
    }
}

/// Why an operation of the client failed.
#[derive(Debug)]
pub enum Error {
    /// The transport or the session store failed.
    Io(std::io::Error),
    /// The server answered with an error.
    Rpc(RpcError),
    /// The response is not of the type that the request returns.
    UnexpectedResponse,
    /// The user has no access hash, so no request can name it.
    MissingAccessHash,
    /// No user has the username.
    NoSuchUser,
    /// The clock stands before the Unix epoch.
    ClockBeforeEpoch,
    /// The event does not answer what the client asked for.
    OutOfTurn,
}

/// Why a sign-in failed.
#[derive(Debug)]
pub enum SignInError {
    /// The transport failed.
    IO(std::io::Error),
    /// No login code has been requested.
    NoCodeSent,
    /// The phone number has no account yet.
    SignUpRequired { terms_of_service: Option<TermsOfService> },
    /// The login code was not accepted.
    InvalidCode,
    /// The server answered with another error.
    Other(RpcError),
}

impl From<std::io::Error> for SignInError {
    fn from(error: std::io::Error) -> (r: SignInError) {
        SignInError::IO(error)
    }
}

impl vstd::std_specs::convert::FromSpecImpl<std::io::Error> for SignInError {
    open spec fn obeys_from_spec() -> bool {
        true
    }

    open spec fn from_spec(error: std::io::Error) -> SignInError {
        SignInError::IO(error)
    }
}

} // verus!

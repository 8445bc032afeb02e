//! The values that the client reads from requests and responses.

use vstd::prelude::*;

verus! {

/// An authorization key: 256 bytes.
pub type AuthKey = [u8; 256];

/// The address of a datacenter: an IPv4 address and a port.
#[derive(Clone, Copy, Debug, PartialEq, Eq, Structural)]
pub struct Address {
    pub a: u8,
    pub b: u8,
    pub c: u8,
    pub d: u8,
    pub port: u16,
}

/// The datacenter that a new session connects to.
pub const DEFAULT_DC_ID: i32 = 2;

/// The address of the datacenter `dc_id`: the table knows the datacenters 1
/// to 5, all on port 443.
pub open spec fn address_of(dc_id: i32) -> Option<Address> {
    if dc_id == 1 {
        Some(Address { a: 149, b: 154, c: 175, d: 53, port: 443 })
    } else if dc_id == 2 {
        Some(Address { a: 149, b: 154, c: 167, d: 51, port: 443 })
    } else if dc_id == 3 {
        Some(Address { a: 149, b: 154, c: 175, d: 100, port: 443 })
    } else if dc_id == 4 {
        Some(Address { a: 149, b: 154, c: 167, d: 92, port: 443 })
    } else if dc_id == 5 {
        Some(Address { a: 91, b: 108, c: 56, d: 190, port: 443 })
    } else {
        None
    }
}

/// Looks up the address of a datacenter.
pub fn dc_address(dc_id: i32) -> (address: Option<Address>)
    ensures
        address == address_of(dc_id),
{
    if dc_id == 1 {
        Some(Address { a: 149, b: 154, c: 175, d: 53, port: 443 })
    } else if dc_id == 2 {
        Some(Address { a: 149, b: 154, c: 167, d: 51, port: 443 })
    } else if dc_id == 3 {
        Some(Address { a: 149, b: 154, c: 175, d: 100, port: 443 })
    } else if dc_id == 4 {
        Some(Address { a: 149, b: 154, c: 167, d: 92, port: 443 })
    } else if dc_id == 5 {
        Some(Address { a: 91, b: 108, c: 56, d: 190, port: 443 })
    } else {
        None
    }
}

/// Whom a dialog is with.
#[derive(Clone, Copy, Debug, PartialEq, Eq, Structural)]
pub enum Peer {
    User { user_id: i32 },
    Chat { chat_id: i32 },
    Channel { channel_id: i32 },
}

/// A peer as requests name it: with the access hash that proves that the
/// account has seen it.
#[derive(Clone, Copy, Debug, PartialEq, Eq, Structural)]
pub enum InputPeer {
    Empty,
    User { user_id: i32, access_hash: i64 },
    Chat { chat_id: i32 },
    Channel { channel_id: i32, access_hash: i64 },
}

/// What the client reads of a user.
#[derive(Clone, Copy, Debug, PartialEq, Eq, Structural)]
pub struct User {
    /// The identifier of the user.
    pub id: i32,
    /// The access hash of the user, if the server gave one.
    pub access_hash: Option<i64>,
}

/// A user as a response lists it: with its data, or empty.
#[derive(Clone, Copy, Debug, PartialEq, Eq, Structural)]
pub enum UserEntry {
    User(User),
    Empty { id: i32 },
}

/// The answer to a request for a login code.
#[derive(Clone, Debug, PartialEq, Eq)]
pub struct SentCode {
    /// The hash that the sign-in has to send back with the code.
    pub phone_code_hash: String,
}

/// The terms of service that a new account has to accept.
#[derive(Clone, Debug, PartialEq, Eq)]
pub struct TermsOfService {
    pub id: String,
    pub text: String,
    pub min_age_confirm: Option<i32>,
}

/// The answer to a sign-in.
#[derive(Clone, Debug, PartialEq, Eq)]
pub enum Authorization {
    /// The account is signed in as `user`.
    Authorization { user: UserEntry },
    /// The phone number has no account yet.
    SignUpRequired { terms_of_service: Option<TermsOfService> },
}

/// The answer to the resolution of a username.
#[derive(Clone, Debug, PartialEq, Eq)]
pub struct ResolvedPeer {
    /// Whom the username belongs to.
    pub peer: Peer,
    /// The users that the answer mentions.
    pub users: Vec<UserEntry>,
}

/// What the client reads of a dialog.
#[derive(Clone, Copy, Debug, PartialEq, Eq, Structural)]
pub struct Dialog {
    /// Whom the dialog is with.
    pub peer: Peer,
    /// The same peer as a request names it.
    pub input_peer: InputPeer,
    /// The identifier of the last message of the dialog.
    pub top_message: i32,
    /// The date of that message.
    pub date: i32,
}

/// How much of the list of dialogs an answer holds.
#[derive(Clone, Copy, Debug, PartialEq, Eq, Structural)]
pub enum DialogsKind {
    /// The whole list.
    Full,
    /// A part of the list.
    Slice,
    /// Nothing: the list has not changed.
    NotModified,
}

/// One answer to a request for dialogs.
#[derive(Clone, Debug, PartialEq, Eq)]
pub struct DialogsPage {
    pub kind: DialogsKind,
    pub dialogs: Vec<Dialog>,
}

/// The boxed types that the requests of the client return.
#[derive(Clone, Copy, Debug, PartialEq, Eq, Structural)]
pub enum ReturnType {
    UpdatesState,
    Config,
    AuthSentCode,
    AuthAuthorization,
    ContactsResolvedPeer,
    Updates,
    MessagesDialogs,
}

/// A response: a value of one of the boxed types that the requests return.
#[derive(Clone, Debug, PartialEq, Eq)]
pub enum Response {
    UpdatesState,
    Config,
    SentCode(SentCode),
    Authorization(Authorization),
    ResolvedPeer(ResolvedPeer),
    Updates,
    Dialogs(DialogsPage),
}

impl Response {
    /// The boxed type of the response.
    pub open spec fn type_of(self) -> ReturnType {
        match self {
            Response::UpdatesState => ReturnType::UpdatesState,
            Response::Config => ReturnType::Config,
            Response::SentCode(_) => ReturnType::AuthSentCode,
            Response::Authorization(_) => ReturnType::AuthAuthorization,
            Response::ResolvedPeer(_) => ReturnType::ContactsResolvedPeer,
            Response::Updates => ReturnType::Updates,
            Response::Dialogs(_) => ReturnType::MessagesDialogs,
        }
    }

    /// The boxed type of the response.
    pub fn response_type(&self) -> (ty: ReturnType)
        ensures
            ty == self.type_of(),
    {
        match self {
            Response::UpdatesState => ReturnType::UpdatesState,
            Response::Config => ReturnType::Config,
            Response::SentCode(_) => ReturnType::AuthSentCode,
            Response::Authorization(_) => ReturnType::AuthAuthorization,
            Response::ResolvedPeer(_) => ReturnType::ContactsResolvedPeer,
            Response::Updates => ReturnType::Updates,
            Response::Dialogs(_) => ReturnType::MessagesDialogs,
        }
    }
}

/// The user among `users` that has the identifier `user_id`: the first entry
/// with data and that identifier at or after `from`.
pub open spec fn user_with_id(users: Seq<UserEntry>, user_id: i32, from: int) -> Option<User>
    decreases users.len() - from,
{
    if from < 0 || from >= users.len() {
        None
    } else {
        match users[from] {
            UserEntry::User(user) if user.id == user_id => Some(user),
            _ => user_with_id(users, user_id, from + 1),
        }
    }
}

/// The user that a username resolved to: where the peer is a user, the one
/// among the users of the answer that has its identifier.
pub open spec fn resolved_user(resolved: ResolvedPeer) -> Option<User> {
    match resolved.peer {
        Peer::User { user_id } => user_with_id(resolved.users@, user_id, 0),
        _ => None,
    }
}

/// Finds the user that a username resolved to.
#[verifier::loop_isolation(false)]
pub fn find_resolved_user(resolved: &ResolvedPeer) -> (found: Option<User>)
    ensures
        found == resolved_user(*resolved),
{
    match resolved.peer {
        Peer::User { user_id } => {
            let mut i: usize = 0;
            while i < resolved.users.len()
                invariant
                    i <= resolved.users@.len(),
                    user_with_id(resolved.users@, user_id, i as int) == user_with_id(
                        resolved.users@,
                        user_id,
                        0,
                    ),
                decreases resolved.users@.len() - i,
            {
                match resolved.users[i] {
                    UserEntry::User(user) => {
                        if user.id == user_id {
                            return Some(user);
                        }
                    },
                    UserEntry::Empty { id } => {},
                }
                i = i + 1;
            }
            None
        },
        _ => None,
    }
}

/// How a request names a user: `None` where the user has no access hash.
pub open spec fn input_peer_of(user: User) -> Option<InputPeer> {
    match user.access_hash {
        Some(access_hash) => Some(InputPeer::User { user_id: user.id, access_hash }),
        None => None,
    }
}

impl User {
    /// The user as a request names it.
    pub fn to_input_peer(&self) -> (peer: Option<InputPeer>)
        ensures
            peer == input_peer_of(*self),
    {
        match self.access_hash {
            Some(access_hash) => Some(InputPeer::User { user_id: self.id, access_hash }),
            None => None,
        }
    }
}

} // verus!

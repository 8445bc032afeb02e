//! The client as a state machine: it says what is to be done next, is told
//! what came of it, and decides from there. It does no input or output
//! itself.

use crate::client::clock::generate_random_message_id;
use crate::client::dialogs::Dialogs;
use crate::client::dialogs::DialogsView;
use crate::client::dialogs::DIALOGS_PER_PAGE;
use crate::client::errors::kind_of;
use crate::client::errors::Error;
use crate::client::errors::ErrorKind;
use crate::client::errors::RpcError;
use crate::client::errors::SignInError;
use crate::client::requests::declared_return_type;
use crate::client::requests::envelope_of;
use crate::client::requests::CodeSettings;
use crate::client::requests::Config;
use crate::client::requests::ConfigView;
use crate::client::requests::Envelope;
use crate::client::requests::EnvelopeView;
use crate::client::requests::Request;
use crate::client::requests::RequestView;
use crate::client::session::Session;
use crate::client::session::SessionView;
use crate::client::types::address_of;
use crate::client::types::dc_address;
use crate::client::types::find_resolved_user;
use crate::client::types::input_peer_of;
use crate::client::types::resolved_user;
use crate::client::types::Address;
use crate::client::types::AuthKey;
use crate::client::types::Authorization;
use crate::client::types::InputPeer;
use crate::client::types::Response;
use crate::client::types::ReturnType;
use crate::client::types::SentCode;
use crate::client::types::User;
use crate::client::types::UserEntry;
use crate::client::types::DEFAULT_DC_ID;
use vstd::prelude::*;
use vstd::string::StringExecFns;

verus! {

/// What the client asks its driver to do next.
#[derive(Debug)]
pub enum Action {
    /// Open a sender to `address` and hold it beside the current one. Let it
    /// use `auth_key` where there is one, and generate a key otherwise.
    Connect { address: Address, auth_key: Option<AuthKey> },
    /// Persist the session.
    Save,
    /// Send the request on the sender that was opened last, within the
    /// envelope: it is the first request of that connection. The current
    /// sender stays the current one.
    Try { request: Request, inside: Envelope },
    /// Make the sender that was opened last the current one, in place of the
    /// one before.
    Adopt,
    /// Send the request on the current sender, within the envelope where
    /// there is one.
    Invoke { request: Request, envelope: Option<Envelope> },
    /// Nothing more: the operation has ended with this outcome.
    Finish(Outcome),
}

/// What came of an action.
#[derive(Debug)]
pub enum Event {
    /// The sender stands; it has generated this key if it was to generate
    /// one.
    Connected { generated_key: Option<AuthKey> },
    /// The session is persisted.
    Saved,
    /// The sender opened last is the current one now.
    Adopted,
    /// The server has answered the request.
    Replied(Result<Response, RpcError>),
    /// The action failed.
    Failed(std::io::Error),
}

/// How an operation ended.
#[derive(Debug)]
pub enum Outcome {
    /// The client is connected.
    Connected,
    /// Whether the account is authorized.
    Authorized(bool),
    /// The login code is on its way.
    CodeSent(SentCode),
    /// The sign-in succeeded and gave the user, or failed.
    SignIn(Result<User, SignInError>),
    /// The bot is signed in.
    BotSignedIn,
    /// The user that has the username, if there is one.
    Resolved(Option<User>),
    /// The message is sent.
    MessageSent,
    /// The response to a request of the caller.
    Response(Response),
    /// The operation failed.
    Failed(Error),
}

/// What the client does with the response to a request.
#[derive(Clone, Debug)]
pub enum Purpose {
    /// The first request of a connection: its response is dropped.
    Init,
    /// The probe of the authorization.
    Authorized,
    /// The request for a login code, with what it takes to send it again.
    LoginCode { phone: String, api_id: i32, api_hash: String, retried: bool },
    /// The sign-in.
    SignIn,
    /// The sign-in of a bot.
    BotSignIn,
    /// The resolution of a username.
    ResolveUsername,
    /// The resolution of the username that a message is to go to.
    ResolveAddressee { message: String, random_id: i64 },
    /// The sending of a message.
    SendMessage,
    /// A request of the caller.
    Raw,
}

/// `Purpose` as a mathematical value.
pub enum PurposeView {
    Init,
    Authorized,
    LoginCode { phone: Seq<char>, api_id: i32, api_hash: Seq<char>, retried: bool },
    SignIn,
    BotSignIn,
    ResolveUsername,
    ResolveAddressee { message: Seq<char>, random_id: i64 },
    SendMessage,
    Raw,
}

impl View for Purpose {
    type V = PurposeView;

    open spec fn view(&self) -> PurposeView {
        match self {
            Purpose::Init => PurposeView::Init,
            Purpose::Authorized => PurposeView::Authorized,
            Purpose::LoginCode { phone, api_id, api_hash, retried } => PurposeView::LoginCode {
                phone: phone@,
                api_id: *api_id,
                api_hash: api_hash@,
                retried: *retried,
            },
            Purpose::SignIn => PurposeView::SignIn,
            Purpose::BotSignIn => PurposeView::BotSignIn,
            Purpose::ResolveUsername => PurposeView::ResolveUsername,
            Purpose::ResolveAddressee { message, random_id } => PurposeView::ResolveAddressee {
                message: message@,
                random_id: *random_id,
            },
            Purpose::SendMessage => PurposeView::SendMessage,
            Purpose::Raw => PurposeView::Raw,
        }
    }
}

/// A request that waits for the sender to stand, and its purpose.
#[derive(Clone, Debug)]
pub struct Pending {
    pub request: Request,
    pub purpose: Purpose,
}

/// `Pending` as a mathematical value.
pub struct PendingView {
    pub request: RequestView,
    pub purpose: PurposeView,
}

impl View for Pending {
    type V = PendingView;

    open spec fn view(&self) -> PendingView {
        PendingView { request: self.request@, purpose: self.purpose@ }
    }
}

/// What the client waits for.
#[derive(Clone, Debug)]
pub enum Phase {
    /// Nothing: no operation is under way.
    Idle,
    /// That the session is persisted with its new datacenter.
    SavingDatacenter { dc_id: i32, address: Address, pending: Pending },
    /// That the sender to the datacenter stands.
    Connecting { dc_id: i32, generate: bool, pending: Pending },
    /// That the session is persisted with the new key.
    SavingKey { pending: Pending },
    /// The response of the sender opened last to a request that returns
    /// `expects`.
    Trying { expects: ReturnType, purpose: Purpose },
    /// That the sender opened last, which has given `response`, is the
    /// current one.
    Adopting { expects: ReturnType, purpose: Purpose, response: Response },
    /// The response of the current sender to a request that returns
    /// `expects`.
    Invoking { expects: ReturnType, purpose: Purpose },
}

/// `Phase` as a mathematical value.
pub enum PhaseView {
    Idle,
    SavingDatacenter { dc_id: i32, address: Address, pending: PendingView },
    Connecting { dc_id: i32, generate: bool, pending: PendingView },
    SavingKey { pending: PendingView },
    Trying { expects: ReturnType, purpose: PurposeView },
    Adopting { expects: ReturnType, purpose: PurposeView, response: Response },
    Invoking { expects: ReturnType, purpose: PurposeView },
}

impl View for Phase {
    type V = PhaseView;

    open spec fn view(&self) -> PhaseView {
        match self {
            Phase::Idle => PhaseView::Idle,
            Phase::SavingDatacenter { dc_id, address, pending } => PhaseView::SavingDatacenter {
                dc_id: *dc_id,
                address: *address,
                pending: pending@,
            },
            Phase::Connecting { dc_id, generate, pending } => PhaseView::Connecting {
                dc_id: *dc_id,
                generate: *generate,
                pending: pending@,
            },
            Phase::SavingKey { pending } => PhaseView::SavingKey { pending: pending@ },
            Phase::Trying { expects, purpose } => PhaseView::Trying {
                expects: *expects,
                purpose: purpose@,
            },
            Phase::Adopting { expects, purpose, response } => PhaseView::Adopting {
                expects: *expects,
                purpose: purpose@,
                response: *response,
            },
            Phase::Invoking { expects, purpose } => PhaseView::Invoking {
                expects: *expects,
                purpose: purpose@,
            },
        }
    }
}

/// `Action` as a mathematical value.
pub enum ActionView {
    Connect { address: Address, auth_key: Option<AuthKey> },
    Save,
    Try { request: RequestView, inside: EnvelopeView },
    Adopt,
    Invoke { request: RequestView, envelope: Option<EnvelopeView> },
    Finish(Outcome),
}

impl View for Action {
    type V = ActionView;

    open spec fn view(&self) -> ActionView {
        match self {
            Action::Connect { address, auth_key } => ActionView::Connect {
                address: *address,
                auth_key: *auth_key,
            },
            Action::Save => ActionView::Save,
            Action::Try { request, inside } => ActionView::Try {
                request: request@,
                inside: inside@,
            },
            Action::Adopt => ActionView::Adopt,
            Action::Invoke { request, envelope } => ActionView::Invoke {
                request: request@,
                envelope: match envelope {
                    Some(e) => Some(e@),
                    None => None,
                },
            },
            Action::Finish(outcome) => ActionView::Finish(*outcome),
        }
    }
}

/// A client: what it is configured with, its session, the login code that it
/// has requested last, the identifier of the message that it has sent last,
/// and what it waits for.
#[derive(Debug)]
pub struct Client {
    config: Config,
    session: Session,
    last_phone_hash: Option<(String, String)>,
    last_message_id: Option<i64>,
    phase: Phase,
}

/// `Client` as a mathematical value.
pub struct ClientView {
    pub config: ConfigView,
    pub session: SessionView,
    /// The phone number and the hash of the login code requested last, until
    /// a sign-in uses them.
    pub last_phone_hash: Option<(Seq<char>, Seq<char>)>,
    /// The identifier of the message that was sent last.
    pub last_message_id: Option<i64>,
    pub phase: PhaseView,
}

impl View for Client {
    type V = ClientView;

    closed spec fn view(&self) -> ClientView {
        ClientView {
            config: self.config@,
            session: self.session@,
            last_phone_hash: match self.last_phone_hash {
                Some((phone, hash)) => Some((phone@, hash@)),
                None => None,
            },
            last_message_id: self.last_message_id,
            phase: self.phase@,
        }
    }
}

/// The settings with which the client asks for a login code.
pub open spec fn login_code_settings() -> CodeSettings {
    CodeSettings { allow_flashcall: false, current_number: false, allow_app_hash: false }
}

/// The operation ends with `outcome`.
pub open spec fn finish(client: ClientView, outcome: Outcome) -> (ClientView, ActionView) {
    (ClientView { phase: PhaseView::Idle, ..client }, ActionView::Finish(outcome))
}

/// The event does not answer what the client asked for: the operation ends.
pub open spec fn out_of_turn(client: ClientView) -> (ClientView, ActionView) {
    finish(client, Outcome::Failed(Error::OutOfTurn))
}

/// The request is sent on the current sender, as it is: the first request
/// of that connection has been sent before the sender became the current
/// one.
pub open spec fn send(client: ClientView, pending: PendingView) -> (ClientView, ActionView) {
    (
        ClientView {
            phase: PhaseView::Invoking {
                expects: declared_return_type(pending.request),
                purpose: pending.purpose,
            },
            ..client
        },
        ActionView::Invoke { request: pending.request, envelope: None },
    )
}

/// The request is sent on the current sender within the envelope.
pub open spec fn send_enveloped(client: ClientView, pending: PendingView) -> (
    ClientView,
    ActionView,
) {
    (
        ClientView {
            phase: PhaseView::Invoking {
                expects: declared_return_type(pending.request),
                purpose: pending.purpose,
            },
            ..client
        },
        ActionView::Invoke {
            request: pending.request,
            envelope: Some(envelope_of(client.config)),
        },
    )
}

/// The request is tried on the sender that was opened last, within the
/// envelope: it is the first request of that connection. The current sender
/// stays the current one until the new one has answered.
pub open spec fn try_opened(client: ClientView, pending: PendingView) -> (ClientView, ActionView) {
    (
        ClientView {
            phase: PhaseView::Trying {
                expects: declared_return_type(pending.request),
                purpose: pending.purpose,
            },
            ..client
        },
        ActionView::Try { request: pending.request, inside: envelope_of(client.config) },
    )
}

/// An operation begins with a request: it is sent if no other operation is
/// under way, and refused otherwise, with nothing changed.
pub open spec fn begin(client: ClientView, pending: PendingView) -> (ClientView, ActionView) {
    if client.phase is Idle {
        send(client, pending)
    } else {
        (client, ActionView::Finish(Outcome::Failed(Error::OutOfTurn)))
    }
}

/// An operation begins with a request that is sent within the envelope.
pub open spec fn begin_enveloped(client: ClientView, pending: PendingView) -> (
    ClientView,
    ActionView,
) {
    if client.phase is Idle {
        send_enveloped(client, pending)
    } else {
        (client, ActionView::Finish(Outcome::Failed(Error::OutOfTurn)))
    }
}

/// A client starts on a session. Where the session is bound to a datacenter,
/// the client connects to it, with the key that the session has for it if
/// there is one. Otherwise the session is bound to the default datacenter
/// and persisted first. The first request on the new sender will be
/// `help.getConfig`.
pub open spec fn start(config: ConfigView, session: SessionView) -> (ClientView, ActionView) {
    let pending = PendingView { request: RequestView::GetConfig, purpose: PurposeView::Init };
    match session.user_dc {
        Some((dc_id, address)) => (
            ClientView {
                config,
                session,
                last_phone_hash: None,
                last_message_id: None,
                phase: PhaseView::Connecting {
                    dc_id,
                    generate: !session.auth_keys.contains_key(dc_id),
                    pending,
                },
            },
            ActionView::Connect {
                address,
                auth_key: if session.auth_keys.contains_key(dc_id) {
                    Some(session.auth_keys[dc_id])
                } else {
                    None
                },
            },
        ),
        None => (
            ClientView {
                config,
                session: SessionView {
                    user_dc: Some((DEFAULT_DC_ID, address_of(DEFAULT_DC_ID)->0)),
                    auth_keys: session.auth_keys,
                },
                last_phone_hash: None,
                last_message_id: None,
                phase: PhaseView::SavingDatacenter {
                    dc_id: DEFAULT_DC_ID,
                    address: address_of(DEFAULT_DC_ID)->0,
                    pending,
                },
            },
            ActionView::Save,
        ),
    }
}

/// The session is persisted: with its new datacenter, the client connects to
/// it and has a key generated; with its new key, the request that waits is
/// tried on the new sender.
pub open spec fn on_saved(client: ClientView) -> (ClientView, ActionView) {
    match client.phase {
        PhaseView::SavingDatacenter { dc_id, address, pending } => (
            ClientView { phase: PhaseView::Connecting { dc_id, generate: true, pending }, ..client },
            ActionView::Connect { address, auth_key: None },
        ),
        PhaseView::SavingKey { pending } => try_opened(client, pending),
        _ => out_of_turn(client),
    }
}

/// The sender stands: a key that it generated goes into the session, which
/// is persisted; with a key of the session the request that waits is tried
/// on the new sender at once.
pub open spec fn on_connected(client: ClientView, generated_key: Option<AuthKey>) -> (
    ClientView,
    ActionView,
) {
    match client.phase {
        PhaseView::Connecting { dc_id, generate, pending } => if !generate {
            try_opened(client, pending)
        } else {
            match generated_key {
                Some(key) => (
                    ClientView {
                        session: SessionView {
                            user_dc: client.session.user_dc,
                            auth_keys: client.session.auth_keys.insert(dc_id, key),
                        },
                        phase: PhaseView::SavingKey { pending },
                        ..client
                    },
                    ActionView::Save,
                ),
                None => out_of_turn(client),
            }
        },
        _ => out_of_turn(client),
    }
}

/// The new sender is the current one: the response that it has given is
/// what the operation makes of it.
pub open spec fn on_adopted(client: ClientView) -> (ClientView, ActionView) {
    match client.phase {
        PhaseView::Adopting { expects, purpose, response } => on_response(
            client,
            expects,
            purpose,
            response,
        ),
        _ => out_of_turn(client),
    }
}

/// An action failed: so does the operation. The client asks for nothing
/// more, so the sender that was current stays the current one.
pub open spec fn on_failed(client: ClientView, error: std::io::Error) -> (ClientView, ActionView) {
    match client.phase {
        PhaseView::Idle => out_of_turn(client),
        PhaseView::Invoking { expects, purpose: PurposeView::SignIn } => finish(
            client,
            Outcome::SignIn(Err(SignInError::IO(error))),
        ),
        PhaseView::Trying { expects, purpose: PurposeView::SignIn } => finish(
            client,
            Outcome::SignIn(Err(SignInError::IO(error))),
        ),
        _ => finish(client, Outcome::Failed(Error::Io(error))),
    }
}

/// The message goes to the user that the username resolved to.
pub open spec fn send_to_resolved(
    client: ClientView,
    user: Option<User>,
    message: Seq<char>,
    random_id: i64,
) -> (ClientView, ActionView) {
    match user {
        None => finish(client, Outcome::Failed(Error::NoSuchUser)),
        Some(user) => match input_peer_of(user) {
            None => finish(client, Outcome::Failed(Error::MissingAccessHash)),
            Some(peer) => send(
                client,
                PendingView {
                    request: message_to(peer, message, random_id),
                    purpose: PurposeView::SendMessage,
                },
            ),
        },
    }
}

/// The request that sends the text `message` to `peer`: a plain message,
/// which answers none, has no keyboard and no styling, and is sent at once.
pub open spec fn message_to(peer: InputPeer, message: Seq<char>, random_id: i64) -> RequestView {
    RequestView::SendMessage {
        no_webpage: false,
        silent: false,
        background: false,
        clear_draft: false,
        peer,
        reply_to_msg_id: None,
        message,
        random_id,
        reply_markup: None,
        entities: None,
        schedule_date: None,
    }
}

/// The server has answered with a response. One that is not of the type
/// that the request returns fails the operation. Otherwise the purpose of
/// the request decides.
pub open spec fn on_response(
    client: ClientView,
    expects: ReturnType,
    purpose: PurposeView,
    response: Response,
) -> (ClientView, ActionView) {
    let unexpected = finish(client, Outcome::Failed(Error::UnexpectedResponse));
    if response.type_of() != expects {
        unexpected
    } else {
        match purpose {
            PurposeView::Init => finish(client, Outcome::Connected),
            PurposeView::Authorized => finish(client, Outcome::Authorized(true)),
            PurposeView::LoginCode { phone, api_id, api_hash, retried } => match response {
                Response::SentCode(sent) => finish(
                    ClientView {
                        last_phone_hash: Some((phone, sent.phone_code_hash@)),
                        ..client
                    },
                    Outcome::CodeSent(sent),
                ),
                _ => unexpected,
            },
            PurposeView::SignIn => match response {
                Response::Authorization(
                    Authorization::Authorization { user: UserEntry::User(user) },
                ) => finish(client, Outcome::SignIn(Ok(user))),
                Response::Authorization(
                    Authorization::SignUpRequired { terms_of_service },
                ) => finish(
                    client,
                    Outcome::SignIn(Err(SignInError::SignUpRequired { terms_of_service })),
                ),
                _ => unexpected,
            },
            PurposeView::BotSignIn => finish(client, Outcome::BotSignedIn),
            PurposeView::ResolveUsername => match response {
                Response::ResolvedPeer(resolved) => finish(
                    client,
                    Outcome::Resolved(resolved_user(resolved)),
                ),
                _ => unexpected,
            },
            PurposeView::ResolveAddressee { message, random_id } => match response {
                Response::ResolvedPeer(resolved) => send_to_resolved(
                    client,
                    resolved_user(resolved),
                    message,
                    random_id,
                ),
                _ => unexpected,
            },
            PurposeView::SendMessage => finish(client, Outcome::MessageSent),
            PurposeView::Raw => finish(client, Outcome::Response(response)),
        }
    }
}

/// Where the error sends the request for a login code: the datacenter that
/// a migration error names, if the table knows it.
pub open spec fn migration_target(error: RpcError) -> Option<(i32, Address)> {
    match error.value {
        Some(dc_id) if kind_of(error.name@) == ErrorKind::Migration && address_of(dc_id) is Some => Some(
            (dc_id, address_of(dc_id)->0),
        ),
        _ => None,
    }
}

/// The server has answered with an error. The probe of the authorization
/// takes any error for "not authorized". The request for a login code
/// follows a migration, once: the session is bound to the new datacenter and
/// persisted, and the request waits for the new sender. The sign-in tells a
/// refused code from other errors. Everything else fails with the error.
pub open spec fn on_error(client: ClientView, purpose: PurposeView, error: RpcError) -> (
    ClientView,
    ActionView,
) {
    match purpose {
        PurposeView::Authorized => finish(client, Outcome::Authorized(false)),
        PurposeView::LoginCode { phone, api_id, api_hash, retried } => match migration_target(
            error,
        ) {
            Some((dc_id, address)) if !retried => (
                ClientView {
                    session: SessionView {
                        user_dc: Some((dc_id, address)),
                        auth_keys: client.session.auth_keys,
                    },
                    phase: PhaseView::SavingDatacenter {
                        dc_id,
                        address,
                        pending: PendingView {
                            request: RequestView::SendCode {
                                phone_number: phone,
                                api_id,
                                api_hash,
                                settings: login_code_settings(),
                            },
                            purpose: PurposeView::LoginCode {
                                phone,
                                api_id,
                                api_hash,
                                retried: true,
                            },
                        },
                    },
                    ..client
                },
                ActionView::Save,
            ),
            _ => finish(client, Outcome::Failed(Error::Rpc(error))),
        },
        PurposeView::SignIn => if kind_of(error.name@) == ErrorKind::PhoneCodeInvalid {
            finish(client, Outcome::SignIn(Err(SignInError::InvalidCode)))
        } else {
            finish(client, Outcome::SignIn(Err(SignInError::Other(error))))
        },
        _ => finish(client, Outcome::Failed(Error::Rpc(error))),
    }
}

/// The server has answered. The answer of the current sender is what the
/// operation makes of it. The sender that was opened last becomes the
/// current one only with a response of the type that the request returns:
/// with an error, or with a response of another type, the operation ends and
/// the sender that was current stays.
pub open spec fn on_replied(client: ClientView, reply: Result<Response, RpcError>) -> (
    ClientView,
    ActionView,
) {
    match client.phase {
        PhaseView::Invoking { expects, purpose } => match reply {
            Ok(response) => on_response(client, expects, purpose, response),
            Err(error) => on_error(client, purpose, error),
        },
        PhaseView::Trying { expects, purpose } => match reply {
            Ok(response) => if response.type_of() == expects {
                (
                    ClientView {
                        phase: PhaseView::Adopting { expects, purpose, response },
                        ..client
                    },
                    ActionView::Adopt,
                )
            } else {
                finish(client, Outcome::Failed(Error::UnexpectedResponse))
            },
            Err(error) => on_error(client, purpose, error),
        },
        _ => out_of_turn(client),
    }
}

/// What the client makes of an event: its next state and its next action.
pub open spec fn step(client: ClientView, event: Event) -> (ClientView, ActionView) {
    match event {
        Event::Connected { generated_key } => on_connected(client, generated_key),
        Event::Saved => on_saved(client),
        Event::Adopted => on_adopted(client),
        Event::Replied(reply) => on_replied(client, reply),
        Event::Failed(error) => on_failed(client, error),
    }
}

/// A sign-in begins: it uses up the login code requested last. Without one
/// it fails at once.
pub open spec fn begin_sign_in(client: ClientView, code: Seq<char>) -> (ClientView, ActionView) {
    if !(client.phase is Idle) {
        (client, ActionView::Finish(Outcome::Failed(Error::OutOfTurn)))
    } else {
        match client.last_phone_hash {
            None => (client, ActionView::Finish(Outcome::SignIn(Err(SignInError::NoCodeSent)))),
            Some((phone_number, phone_code_hash)) => send(
                ClientView { last_phone_hash: None, ..client },
                PendingView {
                    request: RequestView::SignIn { phone_number, phone_code_hash, phone_code: code },
                    purpose: PurposeView::SignIn,
                },
            ),
        }
    }
}

/// How a value becomes the parameter of a request.
#[derive(Debug)]
pub enum Conversion<T> {
    /// It is this parameter.
    Ready(T),
    /// It cannot become one: it lacks what the parameter needs.
    Missing,
    /// It is the parameter that stands for the user with this username.
    Lookup(String),
}

/// `Conversion` as a mathematical value.
pub enum ConversionView<T> {
    Ready(T),
    Missing,
    Lookup(Seq<char>),
}

impl<T> View for Conversion<T> {
    type V = ConversionView<T>;

    open spec fn view(&self) -> ConversionView<T> {
        match self {
            Conversion::Ready(value) => ConversionView::Ready(*value),
            Conversion::Missing => ConversionView::Missing,
            Conversion::Lookup(username) => ConversionView::Lookup(username@),
        }
    }
}

/// Values that can stand for the parameter `T` of a request.
pub trait IntoInput<T> {
    /// How the value becomes the parameter.
    spec fn converted(&self) -> ConversionView<T>;

    /// Says how the value becomes the parameter.
    fn convert(&self) -> (conversion: Conversion<T>)
        ensures
            conversion@ == self.converted(),
    ;
}

impl IntoInput<InputPeer> for InputPeer {
    open spec fn converted(&self) -> ConversionView<InputPeer> {
        ConversionView::Ready(*self)
    }

    fn convert(&self) -> (conversion: Conversion<InputPeer>) {
        Conversion::Ready(*self)
    }
}

impl IntoInput<InputPeer> for User {
    /// A user stands for a peer if it has an access hash.
    open spec fn converted(&self) -> ConversionView<InputPeer> {
        match input_peer_of(*self) {
            Some(peer) => ConversionView::Ready(peer),
            None => ConversionView::Missing,
        }
    }

    fn convert(&self) -> (conversion: Conversion<InputPeer>) {
        match self.to_input_peer() {
            Some(peer) => Conversion::Ready(peer),
            None => Conversion::Missing,
        }
    }
}

impl IntoInput<InputPeer> for &str {
    /// A username stands for the user that has it.
    open spec fn converted(&self) -> ConversionView<InputPeer> {
        ConversionView::Lookup(self@)
    }

    fn convert(&self) -> (conversion: Conversion<InputPeer>) {
        Conversion::Lookup(String::from_str(*self))
    }
}

/// The identifier of a message that is sent when the clock shows `clock`: the
/// time, or one more than the identifier before where the clock has not
/// moved past it.
pub open spec fn message_id(last: Option<i64>, clock: i64) -> i64 {
    match last {
        Some(before) if clock <= before && before < i64::MAX => (before + 1) as i64,
        _ => clock,
    }
}

/// Why no message can be sent, whatever the clock shows: another operation
/// is under way, or the addressee cannot name a peer.
pub open spec fn message_refusal(client: ClientView, chat: ConversionView<InputPeer>) -> Option<
    Error,
> {
    if !(client.phase is Idle) {
        Some(Error::OutOfTurn)
    } else if chat is Missing {
        Some(Error::MissingAccessHash)
    } else {
        None
    }
}

/// A message is to be sent when the clock shows `clock`. Where it cannot be
/// sent, nothing changes. Otherwise its identifier is taken from the clock
/// and remembered.
pub open spec fn begin_message_at(
    client: ClientView,
    chat: ConversionView<InputPeer>,
    message: Seq<char>,
    clock: i64,
) -> (ClientView, ActionView) {
    match message_refusal(client, chat) {
        Some(error) => (client, ActionView::Finish(Outcome::Failed(error))),
        None => begin_message(
            ClientView {
                last_message_id: Some(message_id(client.last_message_id, clock)),
                ..client
            },
            chat,
            message,
            message_id(client.last_message_id, clock),
        ),
    }
}

/// A message is to be sent: to the peer at once, or to the user that has the
/// username, which is resolved first. A value that cannot name a peer fails
/// the operation at once.
pub open spec fn begin_message(
    client: ClientView,
    chat: ConversionView<InputPeer>,
    message: Seq<char>,
    random_id: i64,
) -> (ClientView, ActionView) {
    if !(client.phase is Idle) {
        (client, ActionView::Finish(Outcome::Failed(Error::OutOfTurn)))
    } else {
        match chat {
            ConversionView::Ready(peer) => send(
                client,
                PendingView {
                    request: message_to(peer, message, random_id),
                    purpose: PurposeView::SendMessage,
                },
            ),
            ConversionView::Missing => (
                client,
                ActionView::Finish(Outcome::Failed(Error::MissingAccessHash)),
            ),
            ConversionView::Lookup(username) => send(
                client,
                PendingView {
                    request: RequestView::ResolveUsername { username },
                    purpose: PurposeView::ResolveAddressee { message, random_id },
                },
            ),
        }
    }
}

impl Client {
    /// Starts a client on a new session.
    pub fn new(config: Config) -> (r: (Client, Action))
        ensures
            (r.0@, r.1@) == start(
                config@,
                SessionView { user_dc: None, auth_keys: Map::<i32, AuthKey>::empty() },
            ),
    {
        Client::with_session(config, Session::new())
    }

    /// Starts a client on a session.
    pub fn with_session(config: Config, session: Session) -> (r: (Client, Action))
        ensures
            (r.0@, r.1@) == start(config@, session@),
    {
        let mut session = session;
        let pending = Pending { request: Request::GetConfig, purpose: Purpose::Init };
        match session.get_user_datacenter() {
            Some((dc_id, address)) => {
                let auth_key = session.get_auth_key_data(dc_id);
                let client = Client {
                    config,
                    session,
                    last_phone_hash: None,
                    last_message_id: None,
                    phase: Phase::Connecting { dc_id, generate: auth_key.is_none(), pending },
                };
                (client, Action::Connect { address, auth_key })
            },
            None => {
                let address = Address { a: 149, b: 154, c: 167, d: 51, port: 443 };
                session.set_user_datacenter(DEFAULT_DC_ID, &address);
                let client = Client {
                    config,
                    session,
                    last_phone_hash: None,
                    last_message_id: None,
                    phase: Phase::SavingDatacenter { dc_id: DEFAULT_DC_ID, address, pending },
                };
                (client, Action::Save)
            },
        }
    }

    /// The session of the client.
    pub fn session(&self) -> (session: &Session)
        ensures
            session@ == self@.session,
    {
        &self.session
    }

    /// Starts a walk over the dialogs of the account.
    pub fn iter_dialogs(&self) -> (walk: Dialogs)
        ensures
            walk@ == (DialogsView {
                offset_date: 0,
                offset_id: 0,
                offset_peer: InputPeer::Empty,
                seen: Set::empty(),
                done: false,
                limit: DIALOGS_PER_PAGE,
            }),
    {
        Dialogs::new(DIALOGS_PER_PAGE)
    }

    /// Whether no operation is under way.
    pub fn is_idle(&self) -> (idle: bool)
        ensures
            idle == (self@.phase is Idle),
    {
        match self.phase {
            Phase::Idle => true,
            _ => false,
        }
    }

    /// Sends the request on the current sender.
    fn send(&mut self, pending: Pending) -> (action: Action)
        ensures
            (final(self)@, action@) == send(old(self)@, pending@),
    {
        self.phase = Phase::Invoking {
            expects: pending.request.return_type(),
            purpose: pending.purpose,
        };
        Action::Invoke { request: pending.request, envelope: None }
    }

    /// Tries the request on the sender that was opened last.
    fn try_opened(&mut self, pending: Pending) -> (action: Action)
        ensures
            (final(self)@, action@) == try_opened(old(self)@, pending@),
    {
        self.phase = Phase::Trying {
            expects: pending.request.return_type(),
            purpose: pending.purpose,
        };
        Action::Try { request: pending.request, inside: self.config.envelope() }
    }

    /// Begins an operation with a request.
    fn begin(&mut self, pending: Pending) -> (action: Action)
        ensures
            (final(self)@, action@) == begin(old(self)@, pending@),
    {
        if self.is_idle() {
            self.send(pending)
        } else {
            Action::Finish(Outcome::Failed(Error::OutOfTurn))
        }
    }

    /// Asks whether the account is authorized: `updates.getState` succeeds
    /// exactly if it is.
    pub fn is_authorized(&mut self) -> (action: Action)
        ensures
            (final(self)@, action@) == begin(
                old(self)@,
                PendingView { request: RequestView::GetState, purpose: PurposeView::Authorized },
            ),
    {
        self.begin(Pending { request: Request::GetState, purpose: Purpose::Authorized })
    }

    /// Requests the login code for the account of the phone number.
    pub fn request_login_code(&mut self, phone: &str, api_id: i32, api_hash: &str) -> (action:
        Action)
        ensures
            (final(self)@, action@) == begin(
                old(self)@,
                PendingView {
                    request: RequestView::SendCode {
                        phone_number: phone@,
                        api_id,
                        api_hash: api_hash@,
                        settings: login_code_settings(),
                    },
                    purpose: PurposeView::LoginCode {
                        phone: phone@,
                        api_id,
                        api_hash: api_hash@,
                        retried: false,
                    },
                },
            ),
    {
        self.begin(
            Pending {
                request: Request::SendCode {
                    phone_number: String::from_str(phone),
                    api_id,
                    api_hash: String::from_str(api_hash),
                    settings: CodeSettings {
                        allow_flashcall: false,
                        current_number: false,
                        allow_app_hash: false,
                    },
                },
                purpose: Purpose::LoginCode {
                    phone: String::from_str(phone),
                    api_id,
                    api_hash: String::from_str(api_hash),
                    retried: false,
                },
            },
        )
    }

    /// Signs in with the login code that was requested last.
    pub fn sign_in(&mut self, code: &str) -> (action: Action)
        ensures
            (final(self)@, action@) == begin_sign_in(old(self)@, code@),
    {
        if !self.is_idle() {
            return Action::Finish(Outcome::Failed(Error::OutOfTurn));
        }
        let mut last = None;
        core::mem::swap(&mut last, &mut self.last_phone_hash);
        match last {
            None => Action::Finish(Outcome::SignIn(Err(SignInError::NoCodeSent))),
            Some((phone_number, phone_code_hash)) => self.send(
                Pending {
                    request: Request::SignIn {
                        phone_number,
                        phone_code_hash,
                        phone_code: String::from_str(code),
                    },
                    purpose: Purpose::SignIn,
                },
            ),
        }
    }

    /// Signs in to the bot account of the token.
    pub fn bot_sign_in(&mut self, token: &str, api_id: i32, api_hash: &str) -> (action: Action)
        ensures
            (final(self)@, action@) == begin(
                old(self)@,
                PendingView {
                    request: RequestView::ImportBotAuthorization {
                        flags: 0,
                        api_id,
                        api_hash: api_hash@,
                        bot_auth_token: token@,
                    },
                    purpose: PurposeView::BotSignIn,
                },
            ),
    {
        self.begin(
            Pending {
                request: Request::ImportBotAuthorization {
                    flags: 0,
                    api_id,
                    api_hash: String::from_str(api_hash),
                    bot_auth_token: String::from_str(token),
                },
                purpose: Purpose::BotSignIn,
            },
        )
    }

    /// Resolves a username into the user that has it, if there is one.
    pub fn resolve_username(&mut self, username: &str) -> (action: Action)
        ensures
            (final(self)@, action@) == begin(
                old(self)@,
                PendingView {
                    request: RequestView::ResolveUsername { username: username@ },
                    purpose: PurposeView::ResolveUsername,
                },
            ),
    {
        self.begin(
            Pending {
                request: Request::ResolveUsername { username: String::from_str(username) },
                purpose: Purpose::ResolveUsername,
            },
        )
    }

    /// Begins the sending of a message to what the addressee has become.
    fn begin_converted(&mut self, chat: Conversion<InputPeer>, message: &str, random_id: i64) -> (action:
        Action)
        ensures
            (final(self)@, action@) == begin_message(old(self)@, chat@, message@, random_id),
    {
        if !self.is_idle() {
            return Action::Finish(Outcome::Failed(Error::OutOfTurn));
        }
        match chat {
            Conversion::Ready(peer) => self.send(
                Pending {
                    request: Request::SendMessage {
                        no_webpage: false,
                        silent: false,
                        background: false,
                        clear_draft: false,
                        peer,
                        reply_to_msg_id: None,
                        message: String::from_str(message),
                        random_id,
                        reply_markup: None,
                        entities: None,
                        schedule_date: None,
                    },
                    purpose: Purpose::SendMessage,
                },
            ),
            Conversion::Missing => Action::Finish(Outcome::Failed(Error::MissingAccessHash)),
            Conversion::Lookup(username) => self.send(
                Pending {
                    request: Request::ResolveUsername { username },
                    purpose: Purpose::ResolveAddressee {
                        message: String::from_str(message),
                        random_id,
                    },
                },
            ),
        }
    }

    /// Says why no message can be sent to what the addressee has become, if
    /// none can.
    fn refusal(&self, chat: &Conversion<InputPeer>) -> (refused: Option<Error>)
        ensures
            refused == message_refusal(self@, chat@),
    {
        if !self.is_idle() {
            return Some(Error::OutOfTurn);
        }
        match chat {
            Conversion::Missing => Some(Error::MissingAccessHash),
            _ => None,
        }
    }

    /// Begins the sending of a message when the clock shows `clock`.
    fn begin_converted_at(&mut self, chat: Conversion<InputPeer>, message: &str, clock: i64) -> (action:
        Action)
        ensures
            (final(self)@, action@) == begin_message_at(old(self)@, chat@, message@, clock),
    {
        match self.refusal(&chat) {
            Some(error) => {
                return Action::Finish(Outcome::Failed(error));
            },
            None => {},
        }
        let random_id = match self.last_message_id {
            Some(before) => {
                if clock <= before && before < i64::MAX {
                    before + 1
                } else {
                    clock
                }
            },
            None => clock,
        };
        self.last_message_id = Some(random_id);
        self.begin_converted(chat, message, random_id)
    }

    /// Sends a text message to the chat, with the given identifier.
    pub fn send_message_with_id<C: IntoInput<InputPeer>>(
        &mut self,
        chat: C,
        message: &str,
        random_id: i64,
    ) -> (action: Action)
        ensures
            (final(self)@, action@) == begin_message(
                old(self)@,
                chat.converted(),
                message@,
                random_id,
            ),
    {
        self.begin_converted(chat.convert(), message, random_id)
    }

    /// Sends a text message to the chat when the clock shows `clock`
    /// nanoseconds: the identifier of the message is taken from the clock,
    /// and is one more than the last where the clock has not moved past it.
    pub fn send_message_at<C: IntoInput<InputPeer>>(
        &mut self,
        chat: C,
        message: &str,
        clock: i64,
    ) -> (action: Action)
        ensures
            (final(self)@, action@) == begin_message_at(
                old(self)@,
                chat.converted(),
                message@,
                clock,
            ),
    {
        self.begin_converted_at(chat.convert(), message, clock)
    }

    /// Sends a text message to the chat, with an identifier taken from the
    /// clock. The addressee is converted first: while another operation is
    /// under way, or where the addressee cannot name a peer, the message is
    /// refused whatever the clock shows. Otherwise the clock is read; while
    /// it stands before the Unix epoch, nothing is sent.
    pub fn send_message<C: IntoInput<InputPeer>>(&mut self, chat: C, message: &str) -> (action:
        Action)
        ensures
            match message_refusal(old(self)@, chat.converted()) {
                Some(error) => final(self)@ == old(self)@ && action@ == ActionView::Finish(
                    Outcome::Failed(error),
                ),
                None => (final(self)@ == old(self)@ && action@ == ActionView::Finish(
                    Outcome::Failed(Error::ClockBeforeEpoch),
                )) || (exists|clock: i64|
                    (final(self)@, action@) == begin_message_at(
                        old(self)@,
                        chat.converted(),
                        message@,
                        clock,
                    )),
            },
    {
        let conversion = chat.convert();
        match self.refusal(&conversion) {
            Some(error) => {
                return Action::Finish(Outcome::Failed(error));
            },
            None => {},
        }
        match generate_random_message_id() {
            Some(clock) => self.begin_converted_at(conversion, message, clock),
            None => Action::Finish(Outcome::Failed(Error::ClockBeforeEpoch)),
        }
    }

    /// Invokes a request of the caller and gives back its response.
    pub fn invoke(&mut self, request: Request) -> (action: Action)
        ensures
            (final(self)@, action@) == begin(
                old(self)@,
                PendingView { request: request@, purpose: PurposeView::Raw },
            ),
    {
        self.begin(Pending { request, purpose: Purpose::Raw })
    }

    /// Invokes a request of the caller within the envelope, as the first
    /// request of a connection is sent, and gives back its response.
    pub fn init_invoke(&mut self, request: Request) -> (action: Action)
        ensures
            (final(self)@, action@) == begin_enveloped(
                old(self)@,
                PendingView { request: request@, purpose: PurposeView::Raw },
            ),
    {
        if !self.is_idle() {
            return Action::Finish(Outcome::Failed(Error::OutOfTurn));
        }
        self.phase = Phase::Invoking { expects: request.return_type(), purpose: Purpose::Raw };
        Action::Invoke { request, envelope: Some(self.config.envelope()) }
    }

    fn finish_with(&mut self, outcome: Outcome) -> (action: Action)
        ensures
            (final(self)@, action@) == finish(old(self)@, outcome),
    {
        self.phase = Phase::Idle;
        Action::Finish(outcome)
    }

    fn handle_response(&mut self, expects: ReturnType, purpose: Purpose, response: Response) -> (action:
        Action)
        ensures
            (final(self)@, action@) == on_response(old(self)@, expects, purpose@, response),
    {
        if response.response_type() != expects {
            return self.finish_with(Outcome::Failed(Error::UnexpectedResponse));
        }
        match purpose {
            Purpose::Init => self.finish_with(Outcome::Connected),
            Purpose::Authorized => self.finish_with(Outcome::Authorized(true)),
            Purpose::LoginCode { phone, api_id, api_hash, retried } => match response {
                Response::SentCode(sent) => {
                    self.last_phone_hash = Some((phone, sent.phone_code_hash.clone()));
                    self.finish_with(Outcome::CodeSent(sent))
                },
                _ => self.finish_with(Outcome::Failed(Error::UnexpectedResponse)),
            },
            Purpose::SignIn => match response {
                Response::Authorization(
                    Authorization::Authorization { user: UserEntry::User(user) },
                ) => self.finish_with(Outcome::SignIn(Ok(user))),
                Response::Authorization(
                    Authorization::SignUpRequired { terms_of_service },
                ) => self.finish_with(
                    Outcome::SignIn(Err(SignInError::SignUpRequired { terms_of_service })),
                ),
                _ => self.finish_with(Outcome::Failed(Error::UnexpectedResponse)),
            },
            Purpose::BotSignIn => self.finish_with(Outcome::BotSignedIn),
            Purpose::ResolveUsername => match response {
                Response::ResolvedPeer(resolved) => {
                    let user = find_resolved_user(&resolved);
                    self.finish_with(Outcome::Resolved(user))
                },
                _ => self.finish_with(Outcome::Failed(Error::UnexpectedResponse)),
            },
            Purpose::ResolveAddressee { message, random_id } => match response {
                Response::ResolvedPeer(resolved) => match find_resolved_user(&resolved) {
                    None => self.finish_with(Outcome::Failed(Error::NoSuchUser)),
                    Some(user) => match user.to_input_peer() {
                        None => self.finish_with(Outcome::Failed(Error::MissingAccessHash)),
                        Some(peer) => self.send(
                            Pending {
                                request: Request::SendMessage {
                                    no_webpage: false,
                                    silent: false,
                                    background: false,
                                    clear_draft: false,
                                    peer,
                                    reply_to_msg_id: None,
                                    message,
                                    random_id,
                                    reply_markup: None,
                                    entities: None,
                                    schedule_date: None,
                                },
                                purpose: Purpose::SendMessage,
                            },
                        ),
                    },
                },
                _ => self.finish_with(Outcome::Failed(Error::UnexpectedResponse)),
            },
            Purpose::SendMessage => self.finish_with(Outcome::MessageSent),
            Purpose::Raw => self.finish_with(Outcome::Response(response)),
        }
    }

    fn handle_error(&mut self, purpose: Purpose, error: RpcError) -> (action: Action)
        ensures
            (final(self)@, action@) == on_error(old(self)@, purpose@, error),
    {
        match purpose {
            Purpose::Authorized => self.finish_with(Outcome::Authorized(false)),
            Purpose::LoginCode { phone, api_id, api_hash, retried } => {
                let target = match error.value {
                    Some(dc_id) => match error.kind() {
                        ErrorKind::Migration => match dc_address(dc_id) {
                            Some(address) => Some((dc_id, address)),
                            None => None,
                        },
                        _ => None,
                    },
                    None => None,
                };
                match target {
                    Some((dc_id, address)) => {
                        if retried {
                            return self.finish_with(Outcome::Failed(Error::Rpc(error)));
                        }
                        self.session.set_user_datacenter(dc_id, &address);
                        self.phase = Phase::SavingDatacenter {
                            dc_id,
                            address,
                            pending: Pending {
                                request: Request::SendCode {
                                    phone_number: phone.clone(),
                                    api_id,
                                    api_hash: api_hash.clone(),
                                    settings: CodeSettings {
                                        allow_flashcall: false,
                                        current_number: false,
                                        allow_app_hash: false,
                                    },
                                },
                                purpose: Purpose::LoginCode {
                                    phone,
                                    api_id,
                                    api_hash,
                                    retried: true,
                                },
                            },
                        };
                        Action::Save
                    },
                    None => self.finish_with(Outcome::Failed(Error::Rpc(error))),
                }
            },
            Purpose::SignIn => match error.kind() {
                ErrorKind::PhoneCodeInvalid => self.finish_with(
                    Outcome::SignIn(Err(SignInError::InvalidCode)),
                ),
                _ => self.finish_with(Outcome::SignIn(Err(SignInError::Other(error)))),
            },
            _ => self.finish_with(Outcome::Failed(Error::Rpc(error))),
        }
    }

    /// Takes what came of the last action, and says what is to be done next.
    pub fn resume(&mut self, event: Event) -> (action: Action)
        ensures
            (final(self)@, action@) == step(old(self)@, event),
    {
        let mut phase = Phase::Idle;
        core::mem::swap(&mut phase, &mut self.phase);
        match event {
            Event::Saved => match phase {
                Phase::SavingDatacenter { dc_id, address, pending } => {
                    self.phase = Phase::Connecting { dc_id, generate: true, pending };
                    Action::Connect { address, auth_key: None }
                },
                Phase::SavingKey { pending } => self.try_opened(pending),
                _ => Action::Finish(Outcome::Failed(Error::OutOfTurn)),
            },
            Event::Connected { generated_key } => match phase {
                Phase::Connecting { dc_id, generate, pending } => {
                    if !generate {
                        self.try_opened(pending)
                    } else {
                        match generated_key {
                            Some(key) => {
                                self.session.set_auth_key_data(dc_id, &key);
                                self.phase = Phase::SavingKey { pending };
                                Action::Save
                            },
                            None => Action::Finish(Outcome::Failed(Error::OutOfTurn)),
                        }
                    }
                },
                _ => Action::Finish(Outcome::Failed(Error::OutOfTurn)),
            },
            Event::Adopted => match phase {
                Phase::Adopting { expects, purpose, response } => self.handle_response(
                    expects,
                    purpose,
                    response,
                ),
                _ => Action::Finish(Outcome::Failed(Error::OutOfTurn)),
            },
            Event::Replied(reply) => match phase {
                Phase::Invoking { expects, purpose } => match reply {
                    Ok(response) => self.handle_response(expects, purpose, response),
                    Err(error) => self.handle_error(purpose, error),
                },
                Phase::Trying { expects, purpose } => match reply {
                    Ok(response) => {
                        if response.response_type() == expects {
                            self.phase = Phase::Adopting { expects, purpose, response };
                            Action::Adopt
                        } else {
                            Action::Finish(Outcome::Failed(Error::UnexpectedResponse))
                        }
                    },
                    Err(error) => self.handle_error(purpose, error),
                },
                _ => Action::Finish(Outcome::Failed(Error::OutOfTurn)),
            },
            Event::Failed(error) => match phase {
                Phase::Idle => Action::Finish(Outcome::Failed(Error::OutOfTurn)),
                Phase::Invoking { expects, purpose: Purpose::SignIn } => Action::Finish(
                    Outcome::SignIn(Err(SignInError::IO(error))),
                ),
                Phase::Trying { expects, purpose: Purpose::SignIn } => Action::Finish(
                    Outcome::SignIn(Err(SignInError::IO(error))),
                ),
                _ => Action::Finish(Outcome::Failed(Error::Io(error))),
            },
        }
    }
}

} // verus!

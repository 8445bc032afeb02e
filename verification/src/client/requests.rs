//! The requests that the client sends, and the envelope around the first
//! request of a connection.

use crate::client::platform::Platform;
use crate::client::types::InputPeer;
use crate::client::types::ReturnType;
use vstd::prelude::*;

verus! {

/// How a login code may be delivered.
#[derive(Clone, Copy, Debug, PartialEq, Eq, Structural)]
pub struct CodeSettings {
    pub allow_flashcall: bool,
    pub current_number: bool,
    pub allow_app_hash: bool,
}

/// The keyboard under a message, in the bytes of its wire form.
#[derive(Clone, Debug, PartialEq, Eq)]
pub struct ReplyMarkup {
    pub bytes: Vec<u8>,
}

/// The styling of a part of a message, in the bytes of its wire form.
#[derive(Clone, Debug, PartialEq, Eq)]
pub struct MessageEntity {
    pub bytes: Vec<u8>,
}

/// The view of the keyboard under a message.
pub open spec fn markup_view(markup: Option<ReplyMarkup>) -> Option<Seq<u8>> {
    match markup {
        Some(m) => Some(m.bytes@),
        None => None,
    }
}

/// The view of the styling of a message.
pub open spec fn entities_view(entities: Option<Vec<MessageEntity>>) -> Option<Seq<Seq<u8>>> {
    match entities {
        Some(v) => Some(Seq::new(v@.len(), |i: int| v@[i].bytes@)),
        None => None,
    }
}

/// A request of the client.
#[derive(Clone, Debug, PartialEq, Eq)]
pub enum Request {
    /// `updates.getState`
    GetState,
    /// `help.getConfig`
    GetConfig,
    /// `auth.sendCode`
    SendCode { phone_number: String, api_id: i32, api_hash: String, settings: CodeSettings },
    /// `auth.signIn`
    SignIn { phone_number: String, phone_code_hash: String, phone_code: String },
    /// `auth.importBotAuthorization`
    ImportBotAuthorization { flags: i32, api_id: i32, api_hash: String, bot_auth_token: String },
    /// `contacts.resolveUsername`
    ResolveUsername { username: String },
    /// `messages.sendMessage`
    SendMessage {
        no_webpage: bool,
        silent: bool,
        background: bool,
        clear_draft: bool,
        peer: InputPeer,
        reply_to_msg_id: Option<i32>,
        message: String,
        random_id: i64,
        reply_markup: Option<ReplyMarkup>,
        entities: Option<Vec<MessageEntity>>,
        schedule_date: Option<i32>,
    },
    /// `messages.getDialogs`
    GetDialogs { offset_date: i32, offset_id: i32, offset_peer: InputPeer, limit: i32, hash: i32 },
}

/// `Request` as a mathematical value.
pub enum RequestView {
    GetState,
    GetConfig,
    SendCode { phone_number: Seq<char>, api_id: i32, api_hash: Seq<char>, settings: CodeSettings },
    SignIn { phone_number: Seq<char>, phone_code_hash: Seq<char>, phone_code: Seq<char> },
    ImportBotAuthorization {
        flags: i32,
        api_id: i32,
        api_hash: Seq<char>,
        bot_auth_token: Seq<char>,
    },
    ResolveUsername { username: Seq<char> },
    SendMessage {
        no_webpage: bool,
        silent: bool,
        background: bool,
        clear_draft: bool,
        peer: InputPeer,
        reply_to_msg_id: Option<i32>,
        message: Seq<char>,
        random_id: i64,
        reply_markup: Option<Seq<u8>>,
        entities: Option<Seq<Seq<u8>>>,
        schedule_date: Option<i32>,
    },
    GetDialogs { offset_date: i32, offset_id: i32, offset_peer: InputPeer, limit: i32, hash: i32 },
}

impl View for Request {
    type V = RequestView;

    open spec fn view(&self) -> RequestView {
        match self {
            Request::GetState => RequestView::GetState,
            Request::GetConfig => RequestView::GetConfig,
            Request::SendCode { phone_number, api_id, api_hash, settings } => RequestView::SendCode {
                phone_number: phone_number@,
                api_id: *api_id,
                api_hash: api_hash@,
                settings: *settings,
            },
            Request::SignIn { phone_number, phone_code_hash, phone_code } => RequestView::SignIn {
                phone_number: phone_number@,
                phone_code_hash: phone_code_hash@,
                phone_code: phone_code@,
            },
            Request::ImportBotAuthorization {
                flags,
                api_id,
                api_hash,
                bot_auth_token,
            } => RequestView::ImportBotAuthorization {
                flags: *flags,
                api_id: *api_id,
                api_hash: api_hash@,
                bot_auth_token: bot_auth_token@,
            },
            Request::ResolveUsername { username } => RequestView::ResolveUsername {
                username: username@,
            },
            Request::SendMessage {
                no_webpage,
                silent,
                background,
                clear_draft,
                peer,
                reply_to_msg_id,
                message,
                random_id,
                reply_markup,
                entities,
                schedule_date,
            } => RequestView::SendMessage {
                no_webpage: *no_webpage,
                silent: *silent,
                background: *background,
                clear_draft: *clear_draft,
                peer: *peer,
                reply_to_msg_id: *reply_to_msg_id,
                message: message@,
                random_id: *random_id,
                reply_markup: markup_view(*reply_markup),
                entities: entities_view(*entities),
                schedule_date: *schedule_date,
            },
            Request::GetDialogs {
                offset_date,
                offset_id,
                offset_peer,
                limit,
                hash,
            } => RequestView::GetDialogs {
                offset_date: *offset_date,
                offset_id: *offset_id,
                offset_peer: *offset_peer,
                limit: *limit,
                hash: *hash,
            },
        }
    }
}

/// The boxed type that a request returns, as the schema declares it.
pub open spec fn declared_return_type(request: RequestView) -> ReturnType {
    match request {
        RequestView::GetState => ReturnType::UpdatesState,
        RequestView::GetConfig => ReturnType::Config,
        RequestView::SendCode { .. } => ReturnType::AuthSentCode,
        RequestView::SignIn { .. } => ReturnType::AuthAuthorization,
        RequestView::ImportBotAuthorization { .. } => ReturnType::AuthAuthorization,
        RequestView::ResolveUsername { .. } => ReturnType::ContactsResolvedPeer,
        RequestView::SendMessage { .. } => ReturnType::Updates,
        RequestView::GetDialogs { .. } => ReturnType::MessagesDialogs,
    }
}

impl Request {
    /// The boxed type that the request returns.
    pub fn return_type(&self) -> (ty: ReturnType)
        ensures
            ty == declared_return_type(self@),
    {
        match self {
            Request::GetState => ReturnType::UpdatesState,
            Request::GetConfig => ReturnType::Config,
            Request::SendCode { .. } => ReturnType::AuthSentCode,
            Request::SignIn { .. } => ReturnType::AuthAuthorization,
            Request::ImportBotAuthorization { .. } => ReturnType::AuthAuthorization,
            Request::ResolveUsername { .. } => ReturnType::ContactsResolvedPeer,
            Request::SendMessage { .. } => ReturnType::Updates,
            Request::GetDialogs { .. } => ReturnType::MessagesDialogs,
        }
    }
}

/// What the client is configured with.
#[derive(Clone, Debug, PartialEq, Eq)]
pub struct Config {
    /// The identifier of the application.
    pub api_id: i32,
    /// The layer of the schema that the client speaks.
    pub layer: i32,
    /// The version of the application.
    pub app_version: String,
    /// The machine that the client runs on.
    pub platform: Platform,
}

/// `Config` as a mathematical value.
pub struct ConfigView {
    pub api_id: i32,
    pub layer: i32,
    pub app_version: Seq<char>,
    pub device_model: Seq<char>,
    pub system_version: Seq<char>,
    pub system_lang_code: Seq<char>,
    pub lang_code: Seq<char>,
}

impl View for Config {
    type V = ConfigView;

    open spec fn view(&self) -> ConfigView {
        ConfigView {
            api_id: self.api_id,
            layer: self.layer,
            app_version: self.app_version@,
            device_model: self.platform.device_model@,
            system_version: self.platform.system_version@,
            system_lang_code: self.platform.system_lang_code@,
            lang_code: self.platform.lang_code@,
        }
    }
}

/// The proxy through which a connection goes.
#[derive(Clone, Debug, PartialEq, Eq)]
pub struct Proxy {
    pub address: String,
    pub port: i32,
}

/// `Proxy` as a mathematical value.
pub struct ProxyView {
    pub address: Seq<char>,
    pub port: i32,
}

impl View for Proxy {
    type V = ProxyView;

    open spec fn view(&self) -> ProxyView {
        ProxyView { address: self.address@, port: self.port }
    }
}

/// The envelope around the first request of a connection:
/// `invokeWithLayer` around `initConnection` around the request.
#[derive(Clone, Debug, PartialEq, Eq)]
pub struct Envelope {
    pub layer: i32,
    pub api_id: i32,
    pub device_model: String,
    pub system_version: String,
    pub app_version: String,
    pub system_lang_code: String,
    pub lang_pack: String,
    pub lang_code: String,
    pub proxy: Option<Proxy>,
}

/// `Envelope` as a mathematical value.
pub struct EnvelopeView {
    pub layer: i32,
    pub api_id: i32,
    pub device_model: Seq<char>,
    pub system_version: Seq<char>,
    pub app_version: Seq<char>,
    pub system_lang_code: Seq<char>,
    pub lang_pack: Seq<char>,
    pub lang_code: Seq<char>,
    pub proxy: Option<ProxyView>,
}

impl View for Envelope {
    type V = EnvelopeView;

    open spec fn view(&self) -> EnvelopeView {
        EnvelopeView {
            layer: self.layer,
            api_id: self.api_id,
            device_model: self.device_model@,
            system_version: self.system_version@,
            app_version: self.app_version@,
            system_lang_code: self.system_lang_code@,
            lang_pack: self.lang_pack@,
            lang_code: self.lang_code@,
            proxy: match self.proxy {
                Some(proxy) => Some(proxy@),
                None => None,
            },
        }
    }
}

/// The envelope that a client with this configuration puts around the first
/// request of a connection: the language pack is empty, and the connection
/// goes through no proxy.
pub open spec fn envelope_of(config: ConfigView) -> EnvelopeView {
    EnvelopeView {
        layer: config.layer,
        api_id: config.api_id,
        device_model: config.device_model,
        system_version: config.system_version,
        app_version: config.app_version,
        system_lang_code: config.system_lang_code,
        lang_pack: Seq::empty(),
        lang_code: config.lang_code,
        proxy: None,
    }
}

impl Config {
    /// The envelope around the first request of a connection.
    pub fn envelope(&self) -> (envelope: Envelope)
        ensures
            envelope@ == envelope_of(self@),
    {
        Envelope {
            layer: self.layer,
            api_id: self.api_id,
            device_model: self.platform.device_model.clone(),
            system_version: self.platform.system_version.clone(),
            app_version: self.app_version.clone(),
            system_lang_code: self.platform.system_lang_code.clone(),
            lang_pack: String::new(),
            lang_code: self.platform.lang_code.clone(),
            proxy: None,
        }
    }
}

} // verus!

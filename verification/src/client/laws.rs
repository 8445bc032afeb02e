//! What holds of every run of the client.

use crate::client::errors::kind_of;
use crate::client::errors::Error;
use crate::client::errors::ErrorKind;
use crate::client::errors::RpcError;
use crate::client::errors::SignInError;
use crate::client::machine::begin;
use crate::client::machine::begin_enveloped;
use crate::client::machine::begin_message;
use crate::client::machine::begin_sign_in;
use crate::client::machine::login_code_settings;
use crate::client::machine::message_id;
use crate::client::machine::migration_target;
use crate::client::machine::send;
use crate::client::machine::send_enveloped;
use crate::client::machine::start;
use crate::client::machine::step;
use crate::client::machine::try_opened;
use crate::client::machine::ActionView;
use crate::client::machine::ClientView;
use crate::client::machine::ConversionView;
use crate::client::machine::Event;
use crate::client::machine::Outcome;
use crate::client::machine::PendingView;
use crate::client::machine::PhaseView;
use crate::client::machine::PurposeView;
use crate::client::requests::declared_return_type;
use crate::client::requests::envelope_of;
use crate::client::requests::ConfigView;
use crate::client::requests::RequestView;
use crate::client::session::SessionView;
use crate::client::types::address_of;
use crate::client::types::AuthKey;
use crate::client::types::InputPeer;
use crate::client::types::Response;
use crate::client::types::SentCode;
use crate::client::types::DEFAULT_DC_ID;
use vstd::prelude::*;

verus! {

/// The request for a login code and what the client does with its answer.
pub open spec fn login_code_request(
    phone: Seq<char>,
    api_id: i32,
    api_hash: Seq<char>,
    retried: bool,
) -> PendingView {
    PendingView {
        request: RequestView::SendCode {
            phone_number: phone,
            api_id,
            api_hash,
            settings: login_code_settings(),
        },
        purpose: PurposeView::LoginCode { phone, api_id, api_hash, retried },
    }
}

/// A sign-in without a login code fails at once: nothing is sent and nothing
/// changes.
pub proof fn lemma_sign_in_needs_code(client: ClientView, code: Seq<char>)
    requires
        client.phase is Idle,
        client.last_phone_hash is None,
    ensures
        begin_sign_in(client, code) == (
            client,
            ActionView::Finish(Outcome::SignIn(Err(SignInError::NoCodeSent))),
        ),
{
}

/// A sign-in uses up the login code, whatever the server answers: the code
/// is gone once the request is sent, and no answer brings it back.
pub proof fn lemma_sign_in_consumes_code(client: ClientView, code: Seq<char>, event: Event)
    requires
        client.phase is Idle,
        client.last_phone_hash is Some,
    ensures
        begin_sign_in(client, code).1 is Invoke,
        begin_sign_in(client, code).0.last_phone_hash is None,
        step(begin_sign_in(client, code).0, event).0.last_phone_hash is None,
        step(begin_sign_in(client, code).0, event).1 is Finish,
{
}

/// A sign-in that the server refuses for its code fails with `InvalidCode`.
pub proof fn lemma_refused_code(client: ClientView, code: Seq<char>, error: RpcError)
    requires
        client.phase is Idle,
        client.last_phone_hash is Some,
        kind_of(error.name@) == ErrorKind::PhoneCodeInvalid,
    ensures
        step(begin_sign_in(client, code).0, Event::Replied(Err(error))).1 == ActionView::Finish(
            Outcome::SignIn(Err(SignInError::InvalidCode)),
        ),
{
}

/// The envelope goes around the first request of a connection and around no
/// other: whatever the client has done before, a request that it tries on a
/// sender opened last carries the envelope, and a request that it sends on
/// the current sender in answer to an event carries none.
pub proof fn lemma_envelope_on_first_request(client: ClientView, event: Event)
    ensures
        step(client, event).1 matches ActionView::Invoke { request, envelope }
            ==> envelope is None,
        step(client, event).1 matches ActionView::Try { request, inside } ==> inside
            == envelope_of(client.config),
{
}

/// A request that begins an operation is sent on the current sender as it
/// is, whatever the client has done before.
pub proof fn lemma_no_envelope_later(
    client: ClientView,
    pending: PendingView,
    code: Seq<char>,
    chat: ConversionView<InputPeer>,
    message: Seq<char>,
    random_id: i64,
)
    ensures
        begin(client, pending).1 matches ActionView::Invoke { request, envelope }
            ==> envelope is None,
        begin_sign_in(client, code).1 matches ActionView::Invoke { request, envelope }
            ==> envelope is None,
        begin_message(client, chat, message, random_id).1 matches ActionView::Invoke {
            request,
            envelope,
        } ==> envelope is None,
        !(begin(client, pending).1 is Try) && !(begin(client, pending).1 is Adopt),
        !(begin_sign_in(client, code).1 is Try) && !(begin_sign_in(client, code).1 is Adopt),
        !(begin_message(client, chat, message, random_id).1 is Try) && !(begin_message(
            client,
            chat,
            message,
            random_id,
        ).1 is Adopt),
{
}

/// The identifiers of the messages of a run grow: each is greater than the
/// one before, until the greatest there is has been used.
pub proof fn lemma_message_ids_grow(last: i64, clock: i64)
    requires
        last < i64::MAX,
    ensures
        message_id(Some(last), clock) > last,
        message_id(Some(last), clock) >= clock,
        message_id(None, clock) == clock,
{
}

/// The replacement of the sender is all or nothing. The client asks to make
/// the sender opened last the current one only when that sender has answered
/// the request that was tried on it with a response of the type that the
/// request returns. After a failure, after an error of the server and after
/// a response of another type it asks for nothing more: the operation ends,
/// and the sender that was current stays the current one.
pub proof fn lemma_sender_replaced_on_success_only(client: ClientView, event: Event)
    ensures
        step(client, event).1 is Adopt ==> (client.phase matches PhaseView::Trying {
            expects,
            purpose,
        } && event matches Event::Replied(Ok(response)) && response.type_of() == expects),
        event is Failed ==> step(client, event).1 is Finish && step(client, event).0.phase is Idle,
        (client.phase matches PhaseView::Trying { expects, purpose } && (event matches Event::Replied(
            Ok(response),
        ) && response.type_of() != expects)) ==> step(client, event).1 == ActionView::Finish(
            Outcome::Failed(Error::UnexpectedResponse),
        ),
        client.phase is Trying && event is Replied && !(step(client, event).1 is Adopt) ==> step(
            client,
            event,
        ).0.last_phone_hash == client.last_phone_hash,
{
}

/// The response to a request is of the type that the request declares: the
/// envelope changes nothing in that, and a response of another type fails
/// the operation.
pub proof fn lemma_response_has_declared_type(
    client: ClientView,
    pending: PendingView,
    response: Response,
)
    ensures
        send(client, pending).0.phase == (PhaseView::Invoking {
            expects: declared_return_type(pending.request),
            purpose: pending.purpose,
        }),
        send_enveloped(client, pending).0.phase == send(client, pending).0.phase,
        try_opened(client, pending).0.phase == (PhaseView::Trying {
            expects: declared_return_type(pending.request),
            purpose: pending.purpose,
        }),
        response.type_of() != declared_return_type(pending.request) ==> step(
            send(client, pending).0,
            Event::Replied(Ok(response)),
        ).1 == ActionView::Finish(Outcome::Failed(Error::UnexpectedResponse)) && step(
            try_opened(client, pending).0,
            Event::Replied(Ok(response)),
        ).1 == ActionView::Finish(Outcome::Failed(Error::UnexpectedResponse)),
        pending.purpose is Raw && response.type_of() == declared_return_type(pending.request)
            ==> step(send(client, pending).0, Event::Replied(Ok(response))).1
            == ActionView::Finish(Outcome::Response(response)),
{
}

/// A request of the caller, on a client at rest: it is sent once, as it is,
/// on the current sender. A response of the type that it declares is handed
/// back, one of another type is refused, and an error of the server and a
/// failure of the transport are handed on as they are.
pub proof fn lemma_invoke(
    client: ClientView,
    request: RequestView,
    response: Response,
    refused: RpcError,
    failure: std::io::Error,
)
    requires
        client.phase is Idle,
    ensures
        begin(client, PendingView { request, purpose: PurposeView::Raw }).1 == (ActionView::Invoke {
            request,
            envelope: None,
        }),
        step(
            begin(client, PendingView { request, purpose: PurposeView::Raw }).0,
            Event::Replied(Ok(response)),
        ).1 == ActionView::Finish(
            if response.type_of() == declared_return_type(request) {
                Outcome::Response(response)
            } else {
                Outcome::Failed(Error::UnexpectedResponse)
            },
        ),
        step(
            begin(client, PendingView { request, purpose: PurposeView::Raw }).0,
            Event::Replied(Err(refused)),
        ).1 == ActionView::Finish(Outcome::Failed(Error::Rpc(refused))),
        step(
            begin(client, PendingView { request, purpose: PurposeView::Raw }).0,
            Event::Failed(failure),
        ).1 == ActionView::Finish(Outcome::Failed(Error::Io(failure))),
{
}

/// A request of the caller within the envelope, on a client at rest: it is
/// sent once, within the envelope that the configuration gives, and not as
/// it is beside. The response is held to the type that the request itself
/// declares.
pub proof fn lemma_init_invoke(client: ClientView, request: RequestView, response: Response)
    requires
        client.phase is Idle,
    ensures
        begin_enveloped(client, PendingView { request, purpose: PurposeView::Raw }).1 == (
        ActionView::Invoke { request, envelope: Some(envelope_of(client.config)) }),
        envelope_of(client.config).lang_pack == Seq::<char>::empty(),
        envelope_of(client.config).proxy is None,
        step(
            begin_enveloped(client, PendingView { request, purpose: PurposeView::Raw }).0,
            Event::Replied(Ok(response)),
        ).1 == ActionView::Finish(
            if response.type_of() == declared_return_type(request) {
                Outcome::Response(response)
            } else {
                Outcome::Failed(Error::UnexpectedResponse)
            },
        ),
{
}

/// A client on a new session: the session is bound to the default
/// datacenter and persisted; a sender is opened and generates a key, which
/// is persisted; `help.getConfig` is tried on it within the envelope; and
/// with the configuration in hand the sender becomes the current one.
pub proof fn lemma_start_on_new_session(config: ConfigView, key: AuthKey)
    ensures
        ({
            let session = SessionView { user_dc: None, auth_keys: Map::<i32, AuthKey>::empty() };
            let s0 = start(config, session);
            let s1 = step(s0.0, Event::Saved);
            let s2 = step(s1.0, Event::Connected { generated_key: Some(key) });
            let s3 = step(s2.0, Event::Saved);
            let s4 = step(s3.0, Event::Replied(Ok(Response::Config)));
            let s5 = step(s4.0, Event::Adopted);
            &&& s0.1 == ActionView::Save
            &&& s0.0.session.user_dc == Some((DEFAULT_DC_ID, address_of(DEFAULT_DC_ID)->0))
            &&& s1.1 == (ActionView::Connect {
                address: address_of(DEFAULT_DC_ID)->0,
                auth_key: None,
            })
            &&& s2.1 == ActionView::Save
            &&& s2.0.session.auth_keys == Map::<i32, AuthKey>::empty().insert(DEFAULT_DC_ID, key)
            &&& s3.1 == (ActionView::Try {
                request: RequestView::GetConfig,
                inside: envelope_of(config),
            })
            &&& s4.1 == ActionView::Adopt
            &&& s5.1 == ActionView::Finish(Outcome::Connected)
            &&& s5.0.phase is Idle
        }),
{
}

/// The request for a login code follows a migration: the session is bound
/// to the datacenter that the error names and persisted; a sender is opened
/// to it and generates a key, which is persisted; the request is tried again
/// on that sender, within the envelope; and with the answer in hand that
/// sender becomes the current one and the login code is remembered. Where
/// the second request fails or is refused, the operation ends, the sender
/// that was current stays, and no login code is remembered.
pub proof fn lemma_migration(
    client: ClientView,
    phone: Seq<char>,
    api_id: i32,
    api_hash: Seq<char>,
    error: RpcError,
    key: AuthKey,
    sent: SentCode,
    refused: RpcError,
    failure: std::io::Error,
)
    requires
        client.phase is Idle,
        migration_target(error) is Some,
    ensures
        ({
            let (dc_id, address) = migration_target(error)->0;
            let s0 = begin(client, login_code_request(phone, api_id, api_hash, false));
            let s1 = step(s0.0, Event::Replied(Err(error)));
            let s2 = step(s1.0, Event::Saved);
            let s3 = step(s2.0, Event::Connected { generated_key: Some(key) });
            let s4 = step(s3.0, Event::Saved);
            let s5 = step(s4.0, Event::Replied(Ok(Response::SentCode(sent))));
            let s6 = step(s5.0, Event::Adopted);
            let r5 = step(s4.0, Event::Replied(Err(refused)));
            let f5 = step(s4.0, Event::Failed(failure));
            &&& address_of(dc_id) == Some(address)
            &&& s0.1 == (ActionView::Invoke {
                request: login_code_request(phone, api_id, api_hash, false).request,
                envelope: None,
            })
            &&& s1.1 == ActionView::Save
            &&& s1.0.session.user_dc == Some((dc_id, address))
            &&& s2.1 == (ActionView::Connect { address, auth_key: None })
            &&& s3.1 == ActionView::Save
            &&& s3.0.session.auth_keys == client.session.auth_keys.insert(dc_id, key)
            &&& s4.1 == (ActionView::Try {
                request: login_code_request(phone, api_id, api_hash, false).request,
                inside: envelope_of(client.config),
            })
            &&& s5.1 == ActionView::Adopt
            &&& s6.1 == ActionView::Finish(Outcome::CodeSent(sent))
            &&& s6.0.last_phone_hash == Some((phone, sent.phone_code_hash@))
            &&& s6.0.phase is Idle
            &&& r5.1 == ActionView::Finish(Outcome::Failed(Error::Rpc(refused)))
            &&& r5.0.last_phone_hash == client.last_phone_hash
            &&& f5.1 == ActionView::Finish(Outcome::Failed(Error::Io(failure)))
            &&& f5.0.last_phone_hash == client.last_phone_hash
        }),
{
}

} // verus!

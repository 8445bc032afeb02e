use grammers::client::clock::message_id_at;
use grammers::client::dialogs::Dialogs;
use grammers::client::errors::Error;
use grammers::client::errors::ErrorKind;
use grammers::client::errors::RpcError;
use grammers::client::errors::SignInError;
use grammers::client::generate_random_message_id;
use grammers::client::machine::Action;
use grammers::client::machine::Client;
use grammers::client::machine::Conversion;
use grammers::client::machine::Event;
use grammers::client::machine::IntoInput;
use grammers::client::machine::Outcome;
use grammers::client::platform::Platform;
use grammers::client::requests::CodeSettings;
use grammers::client::requests::Config;
use grammers::client::requests::Envelope;
use grammers::client::requests::Request;
use grammers::client::session::Session;
use grammers::client::types::dc_address;
use grammers::client::types::find_resolved_user;
use grammers::client::types::Address;
use grammers::client::types::Authorization;
use grammers::client::types::Dialog;
use grammers::client::types::DialogsKind;
use grammers::client::types::DialogsPage;
use grammers::client::types::InputPeer;
use grammers::client::types::Peer;
use grammers::client::types::ResolvedPeer;
use grammers::client::types::Response;
use grammers::client::types::ReturnType;
use grammers::client::types::SentCode;
use grammers::client::types::TermsOfService;
use grammers::client::types::User;
use grammers::client::types::UserEntry;

const DC2: Address = Address {
    a: 149,
    b: 154,
    c: 167,
    d: 51,
    port: 443,
};

const DC4: Address = Address {
    a: 149,
    b: 154,
    c: 167,
    d: 92,
    port: 443,
};

fn config() -> Config {
    Config {
        api_id: 6,
        layer: 109,
        app_version: "0.1.0".into(),
        platform: Platform::describe("Linux", "64-bit", "5.4".into(), "".into(), "es_ES".into()),
    }
}

fn envelope() -> Envelope {
    Envelope {
        layer: 109,
        api_id: 6,
        device_model: "Linux 64-bit".into(),
        system_version: "5.4".into(),
        app_version: "0.1.0".into(),
        system_lang_code: "en".into(),
        lang_pack: "".into(),
        lang_code: "es_ES".into(),
        proxy: None,
    }
}

fn send_code() -> Request {
    Request::SendCode {
        phone_number: "+34600".into(),
        api_id: 6,
        api_hash: "hash".into(),
        settings: CodeSettings {
            allow_flashcall: false,
            current_number: false,
            allow_app_hash: false,
        },
    }
}

fn io_error() -> std::io::Error {
    std::io::Error::new(std::io::ErrorKind::ConnectionReset, "reset")
}

fn expect_try(action: Action, request: Request) {
    match action {
        Action::Try {
            request: r,
            inside,
        } => {
            assert_eq!(r, request);
            assert_eq!(inside, envelope());
        }
        other => panic!("expected a request on the new sender, got {:?}", other),
    }
}

fn expect_invoke(action: Action, request: Request, envelope: Option<Envelope>) {
    match action {
        Action::Invoke {
            request: r,
            envelope: e,
        } => {
            assert_eq!(r, request);
            assert_eq!(e, envelope);
        }
        other => panic!("expected a request, got {:?}", other),
    }
}

/// A client that has connected on a session bound to the second datacenter.
fn connected() -> Client {
    let mut session = Session::new();
    session.set_user_datacenter(2, &DC2);
    session.set_auth_key_data(2, &[7; 256]);
    let (mut client, action) = Client::with_session(config(), session);
    assert!(matches!(
        action,
        Action::Connect {
            address: DC2,
            auth_key: Some(_)
        }
    ));
    expect_try(
        client.resume(Event::Connected {
            generated_key: None,
        }),
        Request::GetConfig,
    );
    assert!(matches!(
        client.resume(Event::Replied(Ok(Response::Config))),
        Action::Adopt
    ));
    assert!(matches!(
        client.resume(Event::Adopted),
        Action::Finish(Outcome::Connected)
    ));
    assert!(client.is_idle());
    client
}

fn with_code() -> Client {
    let mut client = connected();
    expect_invoke(
        client.request_login_code("+34600", 6, "hash"),
        send_code(),
        None,
    );
    match client.resume(Event::Replied(Ok(Response::SentCode(SentCode {
        phone_code_hash: "abc".into(),
    })))) {
        Action::Finish(Outcome::CodeSent(sent)) => assert_eq!(sent.phone_code_hash, "abc"),
        other => panic!("{:?}", other),
    }
    client
}

#[test]
fn the_table_knows_five_datacenters() {
    assert_eq!(dc_address(0), None);
    assert_eq!(
        dc_address(1),
        Some(Address {
            a: 149,
            b: 154,
            c: 175,
            d: 53,
            port: 443
        })
    );
    assert_eq!(dc_address(2), Some(DC2));
    assert_eq!(
        dc_address(3),
        Some(Address {
            a: 149,
            b: 154,
            c: 175,
            d: 100,
            port: 443
        })
    );
    assert_eq!(dc_address(4), Some(DC4));
    assert_eq!(
        dc_address(5),
        Some(Address {
            a: 91,
            b: 108,
            c: 56,
            d: 190,
            port: 443
        })
    );
    assert_eq!(dc_address(6), None);
    assert_eq!(dc_address(-1), None);
}

#[test]
fn the_platform_has_a_default_locale() {
    let platform = Platform::describe("Windows", "32-bit", "10".into(), "de".into(), "".into());
    assert_eq!(platform.device_model, "Windows 32-bit");
    assert_eq!(platform.system_version, "10");
    assert_eq!(platform.system_lang_code, "de");
    assert_eq!(platform.lang_code, "en");
    let current = Platform::current("".into(), "fr_FR".into());
    assert_eq!(current.system_lang_code, "en");
    assert_eq!(current.lang_code, "fr_FR");
    let widths = [" unknown bitness", " 32-bit", " 64-bit"];
    let width = widths
        .iter()
        .find(|w| current.device_model.ends_with(*w))
        .expect("the device model ends with a width");
    assert!(current.device_model.len() > width.len());
}

#[test]
fn message_ids_are_the_low_bits_of_the_time() {
    assert_eq!(message_id_at(0), 0);
    assert_eq!(message_id_at(1_600_000_000_000_000_000), 1_600_000_000_000_000_000);
    assert_eq!(message_id_at(u64::MAX as u128), -1);
    assert_eq!(message_id_at((1u128 << 64) + 5), 5);
    assert_eq!(message_id_at(1u128 << 63), i64::MIN);
    let first = generate_random_message_id().expect("the clock is past 1970");
    assert!(first > 1_500_000_000_000_000_000);
}

#[test]
fn errors_lose_their_value() {
    assert_eq!(
        RpcError::from_message(303, "PHONE_MIGRATE_4"),
        RpcError {
            code: 303,
            name: "PHONE_MIGRATE".into(),
            value: Some(4)
        }
    );
    assert_eq!(
        RpcError::from_message(420, "FLOOD_WAIT_31"),
        RpcError {
            code: 420,
            name: "FLOOD_WAIT".into(),
            value: Some(31)
        }
    );
    for message in [
        "PHONE_CODE_INVALID",
        "FILE_PART_0_MISSING",
        "",
        "7",
        "X7",
        "A_",
        "A_99999999999",
        "A_2147483648",
        "A_99999999999999999999999999",
    ] {
        assert_eq!(
            RpcError::from_message(400, message),
            RpcError {
                code: 400,
                name: message.into(),
                value: None
            }
        );
    }
    assert_eq!(
        RpcError::from_message(1, "A_2147483647").value,
        Some(i32::MAX)
    );
    assert_eq!(
        RpcError::from_message(1, "_007"),
        RpcError {
            code: 1,
            name: "".into(),
            value: Some(7)
        }
    );
}

#[test]
fn errors_are_of_three_kinds() {
    for (message, kind) in [
        ("PHONE_MIGRATE_2", ErrorKind::Migration),
        ("NETWORK_MIGRATE_3", ErrorKind::Migration),
        ("USER_MIGRATE_1", ErrorKind::Migration),
        ("PHONE_MIGRATE", ErrorKind::Migration),
        ("FILE_MIGRATE_2", ErrorKind::Other),
        ("PHONE_MIGRATE_X", ErrorKind::Other),
        ("PHONE_CODE_INVALID", ErrorKind::PhoneCodeInvalid),
        ("PHONE_CODE_EXPIRED", ErrorKind::PhoneCodeInvalid),
        ("PHONE_CODE_", ErrorKind::PhoneCodeInvalid),
        ("PHONE_CODE", ErrorKind::Other),
        ("FLOOD_WAIT_3", ErrorKind::Other),
        ("", ErrorKind::Other),
    ] {
        assert_eq!(RpcError::from_message(0, message).kind(), kind, "{}", message);
    }
}

#[test]
fn the_session_is_a_map_of_keys() {
    let mut session = Session::new();
    assert_eq!(session.get_user_datacenter(), None);
    assert_eq!(session.get_auth_key_data(2), None);
    session.set_auth_key_data(2, &[1; 256]);
    session.set_auth_key_data(4, &[2; 256]);
    session.set_auth_key_data(2, &[3; 256]);
    assert_eq!(session.get_auth_key_data(2), Some([3; 256]));
    assert_eq!(session.get_auth_key_data(4), Some([2; 256]));
    assert_eq!(session.get_auth_key_data(1), None);
    session.set_user_datacenter(4, &DC4);
    assert_eq!(session.get_user_datacenter(), Some((4, DC4)));
    let copy = session.clone();
    session.set_auth_key_data(4, &[9; 256]);
    assert_eq!(copy.get_auth_key_data(4), Some([2; 256]));
    assert_eq!(copy.get_user_datacenter(), Some((4, DC4)));
}

#[test]
fn a_fresh_session_generates_a_key_on_the_default_datacenter() {
    let (mut client, action) = Client::new(config());
    assert!(matches!(action, Action::Save));
    assert_eq!(client.session().get_user_datacenter(), Some((2, DC2)));
    assert!(matches!(
        client.resume(Event::Saved),
        Action::Connect {
            address: DC2,
            auth_key: None
        }
    ));
    assert!(matches!(
        client.resume(Event::Connected {
            generated_key: Some([5; 256])
        }),
        Action::Save
    ));
    assert_eq!(client.session().get_auth_key_data(2), Some([5; 256]));
    expect_try(client.resume(Event::Saved), Request::GetConfig);
    assert!(matches!(
        client.resume(Event::Replied(Ok(Response::Config))),
        Action::Adopt
    ));
    assert!(matches!(
        client.resume(Event::Adopted),
        Action::Finish(Outcome::Connected)
    ));
    expect_invoke(client.is_authorized(), Request::GetState, None);
}

#[test]
fn a_session_with_a_key_uses_it() {
    let mut client = connected();
    assert_eq!(client.session().get_auth_key_data(2), Some([7; 256]));
    expect_invoke(client.is_authorized(), Request::GetState, None);
    assert!(matches!(
        client.resume(Event::Replied(Ok(Response::UpdatesState))),
        Action::Finish(Outcome::Authorized(true))
    ));
    expect_invoke(client.is_authorized(), Request::GetState, None);
    assert!(matches!(
        client.resume(Event::Replied(Err(RpcError::from_message(
            401,
            "AUTH_KEY_UNREGISTERED"
        )))),
        Action::Finish(Outcome::Authorized(false))
    ));
    expect_invoke(client.is_authorized(), Request::GetState, None);
    assert!(matches!(
        client.resume(Event::Failed(io_error())),
        Action::Finish(Outcome::Failed(Error::Io(_)))
    ));
    assert!(client.is_idle());
}

#[test]
fn a_session_bound_without_key_generates_one() {
    let mut session = Session::new();
    session.set_user_datacenter(4, &DC4);
    session.set_auth_key_data(2, &[7; 256]);
    let (mut client, action) = Client::with_session(config(), session);
    assert!(matches!(
        action,
        Action::Connect {
            address: DC4,
            auth_key: None
        }
    ));
    assert!(matches!(
        client.resume(Event::Connected {
            generated_key: None
        }),
        Action::Finish(Outcome::Failed(Error::OutOfTurn))
    ));
}

#[test]
fn a_failed_connection_ends_the_start() {
    let (mut client, _) = Client::new(config());
    assert!(matches!(
        client.resume(Event::Failed(io_error())),
        Action::Finish(Outcome::Failed(Error::Io(_)))
    ));
    assert!(matches!(
        client.resume(Event::Saved),
        Action::Finish(Outcome::Failed(Error::OutOfTurn))
    ));
}

#[test]
fn a_login_code_is_remembered() {
    let mut client = with_code();
    expect_invoke(
        client.sign_in("12345"),
        Request::SignIn {
            phone_number: "+34600".into(),
            phone_code_hash: "abc".into(),
            phone_code: "12345".into(),
        },
        None,
    );
    let user = User {
        id: 10,
        access_hash: Some(11),
    };
    assert!(matches!(
        client.resume(Event::Replied(Ok(Response::Authorization(Authorization::Authorization {
            user: UserEntry::User(user)
        })))),
        Action::Finish(Outcome::SignIn(Ok(u))) if u == user
    ));
}

#[test]
fn a_migration_moves_the_request_for_a_login_code() {
    let mut client = connected();
    expect_invoke(
        client.request_login_code("+34600", 6, "hash"),
        send_code(),
        None,
    );
    assert!(matches!(
        client.resume(Event::Replied(Err(RpcError::from_message(
            303,
            "PHONE_MIGRATE_4"
        )))),
        Action::Save
    ));
    assert_eq!(client.session().get_user_datacenter(), Some((4, DC4)));
    assert!(matches!(
        client.resume(Event::Saved),
        Action::Connect {
            address: DC4,
            auth_key: None
        }
    ));
    assert!(matches!(
        client.resume(Event::Connected {
            generated_key: Some([4; 256])
        }),
        Action::Save
    ));
    assert_eq!(client.session().get_auth_key_data(4), Some([4; 256]));
    assert_eq!(client.session().get_auth_key_data(2), Some([7; 256]));
    expect_try(client.resume(Event::Saved), send_code());
    assert!(matches!(
        client.resume(Event::Replied(Ok(Response::SentCode(SentCode {
            phone_code_hash: "xyz".into(),
        })))),
        Action::Adopt
    ));
    match client.resume(Event::Adopted) {
        Action::Finish(Outcome::CodeSent(sent)) => assert_eq!(sent.phone_code_hash, "xyz"),
        other => panic!("{:?}", other),
    }
    expect_invoke(
        client.sign_in("1"),
        Request::SignIn {
            phone_number: "+34600".into(),
            phone_code_hash: "xyz".into(),
            phone_code: "1".into(),
        },
        None,
    );
}

/// A client with a login code from the second datacenter, which has been
/// told to go to the fourth and has done so up to `steps` steps.
fn migrating(steps: usize) -> (Client, Action) {
    let mut client = with_code();
    client.request_login_code("+34601", 6, "hash");
    let mut action = client.resume(Event::Replied(Err(RpcError::from_message(
        303,
        "NETWORK_MIGRATE_4",
    ))));
    let events = [
        Event::Saved,
        Event::Connected {
            generated_key: Some([4; 256]),
        },
        Event::Saved,
    ];
    for event in events.into_iter().take(steps) {
        assert!(!matches!(action, Action::Adopt | Action::Finish(_)));
        action = client.resume(event);
    }
    (client, action)
}

fn expect_old_sender_and_code(mut client: Client) {
    assert!(client.is_idle());
    expect_invoke(
        client.sign_in("1"),
        Request::SignIn {
            phone_number: "+34600".into(),
            phone_code_hash: "abc".into(),
            phone_code: "1".into(),
        },
        None,
    );
}

#[test]
fn a_failed_migration_keeps_the_sender() {
    for steps in 0..4 {
        let (mut client, action) = migrating(steps);
        assert!(!matches!(action, Action::Adopt | Action::Finish(_)));
        assert!(matches!(
            client.resume(Event::Failed(io_error())),
            Action::Finish(Outcome::Failed(Error::Io(_)))
        ));
        expect_old_sender_and_code(client);
    }
}

#[test]
fn a_refused_retry_keeps_the_sender() {
    let (mut client, action) = migrating(3);
    assert!(matches!(action, Action::Try { .. }));
    match client.resume(Event::Replied(Err(RpcError::from_message(
        400,
        "PHONE_NUMBER_INVALID",
    )))) {
        Action::Finish(Outcome::Failed(Error::Rpc(error))) => {
            assert_eq!(error.name, "PHONE_NUMBER_INVALID")
        }
        other => panic!("{:?}", other),
    }
    expect_old_sender_and_code(client);

    let (mut client, _) = migrating(3);
    assert!(matches!(
        client.resume(Event::Replied(Ok(Response::Config))),
        Action::Finish(Outcome::Failed(Error::UnexpectedResponse))
    ));
    expect_old_sender_and_code(client);

    let (mut client, _) = migrating(3);
    assert!(matches!(
        client.resume(Event::Replied(Ok(Response::SentCode(SentCode {
            phone_code_hash: "new".into(),
        })))),
        Action::Adopt
    ));
    assert!(matches!(
        client.resume(Event::Failed(io_error())),
        Action::Finish(Outcome::Failed(Error::Io(_)))
    ));
    expect_old_sender_and_code(client);
}

#[test]
fn a_migration_is_followed_once() {
    let mut client = connected();
    client.request_login_code("+34600", 6, "hash");
    client.resume(Event::Replied(Err(RpcError::from_message(
        303,
        "USER_MIGRATE_4",
    ))));
    client.resume(Event::Saved);
    client.resume(Event::Connected {
        generated_key: Some([4; 256]),
    });
    assert!(matches!(client.resume(Event::Saved), Action::Try { .. }));
    match client.resume(Event::Replied(Err(RpcError::from_message(
        303,
        "PHONE_MIGRATE_5",
    )))) {
        Action::Finish(Outcome::Failed(Error::Rpc(error))) => {
            assert_eq!(error.name, "PHONE_MIGRATE");
            assert_eq!(error.value, Some(5));
        }
        other => panic!("{:?}", other),
    }
    assert_eq!(client.session().get_user_datacenter(), Some((4, DC4)));
}

#[test]
fn a_migration_to_an_unknown_datacenter_is_an_error() {
    for message in ["PHONE_MIGRATE_6", "PHONE_MIGRATE_0", "PHONE_MIGRATE", "FLOOD_WAIT_4"] {
        let mut client = connected();
        client.request_login_code("+34600", 6, "hash");
        assert!(matches!(
            client.resume(Event::Replied(Err(RpcError::from_message(303, message)))),
            Action::Finish(Outcome::Failed(Error::Rpc(_)))
        ));
        assert_eq!(client.session().get_user_datacenter(), Some((2, DC2)));
        assert!(matches!(
            client.sign_in("1"),
            Action::Finish(Outcome::SignIn(Err(SignInError::NoCodeSent)))
        ));
    }
}

#[test]
fn sign_in_needs_a_login_code() {
    let mut client = connected();
    assert!(matches!(
        client.sign_in("12345"),
        Action::Finish(Outcome::SignIn(Err(SignInError::NoCodeSent)))
    ));
    assert!(client.is_idle());
    expect_invoke(client.is_authorized(), Request::GetState, None);
}

#[test]
fn a_refused_code_is_an_invalid_code() {
    for message in ["PHONE_CODE_INVALID", "PHONE_CODE_EXPIRED", "PHONE_CODE_EMPTY"] {
        let mut client = with_code();
        assert!(matches!(client.sign_in("0"), Action::Invoke { .. }));
        assert!(matches!(
            client.resume(Event::Replied(Err(RpcError::from_message(400, message)))),
            Action::Finish(Outcome::SignIn(Err(SignInError::InvalidCode)))
        ));
        assert!(matches!(
            client.sign_in("1"),
            Action::Finish(Outcome::SignIn(Err(SignInError::NoCodeSent)))
        ));
    }
}

#[test]
fn sign_in_outcomes() {
    let mut client = with_code();
    client.sign_in("0");
    match client.resume(Event::Replied(Ok(Response::Authorization(
        Authorization::SignUpRequired {
            terms_of_service: Some(TermsOfService {
                id: "tos".into(),
                text: "be nice".into(),
                min_age_confirm: Some(18),
            }),
        },
    )))) {
        Action::Finish(Outcome::SignIn(Err(SignInError::SignUpRequired {
            terms_of_service: Some(tos),
        }))) => assert_eq!(tos.text, "be nice"),
        other => panic!("{:?}", other),
    }

    let mut client = with_code();
    client.sign_in("0");
    match client.resume(Event::Replied(Err(RpcError::from_message(
        400,
        "PHONE_NUMBER_UNOCCUPIED",
    )))) {
        Action::Finish(Outcome::SignIn(Err(SignInError::Other(error)))) => {
            assert_eq!(error.name, "PHONE_NUMBER_UNOCCUPIED")
        }
        other => panic!("{:?}", other),
    }

    let mut client = with_code();
    client.sign_in("0");
    assert!(matches!(
        client.resume(Event::Failed(io_error())),
        Action::Finish(Outcome::SignIn(Err(SignInError::IO(_))))
    ));
    assert!(matches!(
        client.sign_in("1"),
        Action::Finish(Outcome::SignIn(Err(SignInError::NoCodeSent)))
    ));

    let mut client = with_code();
    client.sign_in("0");
    assert!(matches!(
        client.resume(Event::Replied(Ok(Response::Authorization(
            Authorization::Authorization {
                user: UserEntry::Empty { id: 1 }
            }
        )))),
        Action::Finish(Outcome::Failed(Error::UnexpectedResponse))
    ));
    assert!(matches!(
        SignInError::from(io_error()),
        SignInError::IO(_)
    ));
}

#[test]
fn a_response_of_another_type_is_refused() {
    let mut client = connected();
    assert_eq!(Request::GetState.return_type(), ReturnType::UpdatesState);
    assert_eq!(send_code().return_type(), ReturnType::AuthSentCode);
    assert_eq!(Response::Config.response_type(), ReturnType::Config);
    client.is_authorized();
    assert!(matches!(
        client.resume(Event::Replied(Ok(Response::Config))),
        Action::Finish(Outcome::Failed(Error::UnexpectedResponse))
    ));
    expect_invoke(client.invoke(Request::GetConfig), Request::GetConfig, None);
    assert!(matches!(
        client.resume(Event::Replied(Ok(Response::Config))),
        Action::Finish(Outcome::Response(Response::Config))
    ));
    expect_invoke(
        client.init_invoke(Request::GetState),
        Request::GetState,
        Some(envelope()),
    );
    assert!(matches!(
        client.resume(Event::Replied(Ok(Response::Config))),
        Action::Finish(Outcome::Failed(Error::UnexpectedResponse))
    ));
    expect_invoke(client.invoke(Request::GetState), Request::GetState, None);
}

#[test]
fn one_operation_at_a_time() {
    let mut client = connected();
    client.is_authorized();
    assert!(matches!(
        client.resolve_username("someone"),
        Action::Finish(Outcome::Failed(Error::OutOfTurn))
    ));
    assert!(matches!(
        client.sign_in("1"),
        Action::Finish(Outcome::Failed(Error::OutOfTurn))
    ));
    assert!(matches!(
        client.send_message_with_id(InputPeer::Empty, "hi", 1),
        Action::Finish(Outcome::Failed(Error::OutOfTurn))
    ));
    assert!(matches!(
        client.resume(Event::Replied(Ok(Response::UpdatesState))),
        Action::Finish(Outcome::Authorized(true))
    ));
    assert!(matches!(
        client.resume(Event::Replied(Ok(Response::UpdatesState))),
        Action::Finish(Outcome::Failed(Error::OutOfTurn))
    ));
    assert!(matches!(
        client.resume(Event::Adopted),
        Action::Finish(Outcome::Failed(Error::OutOfTurn))
    ));
    assert!(matches!(
        client.resume(Event::Failed(io_error())),
        Action::Finish(Outcome::Failed(Error::OutOfTurn))
    ));
}

#[test]
fn a_bot_signs_in_with_its_token() {
    let mut client = connected();
    expect_invoke(
        client.bot_sign_in("123:abc", 6, "hash"),
        Request::ImportBotAuthorization {
            flags: 0,
            api_id: 6,
            api_hash: "hash".into(),
            bot_auth_token: "123:abc".into(),
        },
        None,
    );
    assert!(matches!(
        client.resume(Event::Replied(Ok(Response::Authorization(
            Authorization::Authorization {
                user: UserEntry::Empty { id: 1 }
            }
        )))),
        Action::Finish(Outcome::BotSignedIn)
    ));
}

#[test]
fn a_username_resolves_to_its_user() {
    let users = vec![
        UserEntry::Empty { id: 7 },
        UserEntry::User(User {
            id: 3,
            access_hash: None,
        }),
        UserEntry::User(User {
            id: 7,
            access_hash: Some(70),
        }),
        UserEntry::User(User {
            id: 7,
            access_hash: Some(71),
        }),
    ];
    let found = User {
        id: 7,
        access_hash: Some(70),
    };
    assert_eq!(
        find_resolved_user(&ResolvedPeer {
            peer: Peer::User { user_id: 7 },
            users: users.clone()
        }),
        Some(found)
    );
    assert_eq!(
        find_resolved_user(&ResolvedPeer {
            peer: Peer::User { user_id: 8 },
            users: users.clone()
        }),
        None
    );
    assert_eq!(
        find_resolved_user(&ResolvedPeer {
            peer: Peer::Chat { chat_id: 7 },
            users: users.clone()
        }),
        None
    );
    assert_eq!(
        find_resolved_user(&ResolvedPeer {
            peer: Peer::Channel { channel_id: 7 },
            users: users.clone()
        }),
        None
    );

    let mut client = connected();
    expect_invoke(
        client.resolve_username("someone"),
        Request::ResolveUsername {
            username: "someone".into(),
        },
        None,
    );
    assert!(matches!(
        client.resume(Event::Replied(Ok(Response::ResolvedPeer(ResolvedPeer {
            peer: Peer::User { user_id: 7 },
            users
        })))),
        Action::Finish(Outcome::Resolved(Some(u))) if u == found
    ));
}

fn message(peer: InputPeer, text: &str, random_id: i64) -> Request {
    Request::SendMessage {
        no_webpage: false,
        silent: false,
        background: false,
        clear_draft: false,
        peer,
        reply_to_msg_id: None,
        message: text.into(),
        random_id,
        reply_markup: None,
        entities: None,
        schedule_date: None,
    }
}

#[test]
fn a_message_goes_to_a_user() {
    let user = User {
        id: 7,
        access_hash: Some(70),
    };
    let peer = InputPeer::User {
        user_id: 7,
        access_hash: 70,
    };
    assert_eq!(user.to_input_peer(), Some(peer));
    assert!(matches!(user.convert(), Conversion::Ready(p) if p == peer));
    assert!(matches!(
        User {
            id: 7,
            access_hash: None
        }
        .convert(),
        Conversion::Missing
    ));
    assert!(matches!("name".convert(), Conversion::Lookup(name) if name == "name"));

    let mut client = connected();
    expect_invoke(
        client.send_message_with_id(user, "hi", 99),
        message(peer, "hi", 99),
        None,
    );
    assert!(matches!(
        client.resume(Event::Replied(Ok(Response::Updates))),
        Action::Finish(Outcome::MessageSent)
    ));
    assert!(matches!(
        client.send_message_with_id(
            User {
                id: 7,
                access_hash: None
            },
            "hi",
            99
        ),
        Action::Finish(Outcome::Failed(Error::MissingAccessHash))
    ));
    assert!(client.is_idle());
    match client.send_message(peer, "now") {
        Action::Invoke {
            request: Request::SendMessage {
                random_id, message, ..
            },
            envelope: None,
        } => {
            assert_eq!(message, "now");
            assert!(random_id > 1_500_000_000_000_000_000);
        }
        other => panic!("{:?}", other),
    }
}

#[test]
fn a_message_to_a_username_resolves_it_first() {
    let mut client = connected();
    expect_invoke(
        client.send_message_with_id("someone", "hi", 5),
        Request::ResolveUsername {
            username: "someone".into(),
        },
        None,
    );
    expect_invoke(
        client.resume(Event::Replied(Ok(Response::ResolvedPeer(ResolvedPeer {
            peer: Peer::User { user_id: 7 },
            users: vec![UserEntry::User(User {
                id: 7,
                access_hash: Some(70),
            })],
        })))),
        message(
            InputPeer::User {
                user_id: 7,
                access_hash: 70,
            },
            "hi",
            5,
        ),
        None,
    );
    assert!(matches!(
        client.resume(Event::Replied(Ok(Response::Updates))),
        Action::Finish(Outcome::MessageSent)
    ));

    client.send_message_with_id("nobody", "hi", 5);
    assert!(matches!(
        client.resume(Event::Replied(Ok(Response::ResolvedPeer(ResolvedPeer {
            peer: Peer::Chat { chat_id: 7 },
            users: vec![],
        })))),
        Action::Finish(Outcome::Failed(Error::NoSuchUser))
    ));

    client.send_message_with_id("hidden", "hi", 5);
    assert!(matches!(
        client.resume(Event::Replied(Ok(Response::ResolvedPeer(ResolvedPeer {
            peer: Peer::User { user_id: 7 },
            users: vec![UserEntry::User(User {
                id: 7,
                access_hash: None,
            })],
        })))),
        Action::Finish(Outcome::Failed(Error::MissingAccessHash))
    ));
}

fn dialog(id: i32) -> Dialog {
    Dialog {
        peer: Peer::User { user_id: id },
        input_peer: InputPeer::User {
            user_id: id,
            access_hash: id as i64 * 2,
        },
        top_message: id + 1000,
        date: id + 2000,
    }
}

fn page(kind: DialogsKind, ids: std::ops::Range<i32>) -> DialogsPage {
    DialogsPage {
        kind,
        dialogs: ids.map(dialog).collect(),
    }
}

#[test]
fn dialogs_come_in_pages() {
    let client = connected();
    let mut walk = client.iter_dialogs();
    let mut seen = Vec::new();
    let mut requests = 0;
    let pages = [
        page(DialogsKind::Slice, 0..100),
        page(DialogsKind::Slice, 100..200),
        page(DialogsKind::Slice, 200..237),
    ];
    let mut offset = (0, 0, InputPeer::Empty);
    for page in pages.iter() {
        assert!(!walk.is_done());
        assert_eq!(
            walk.next_request(),
            Some(Request::GetDialogs {
                offset_date: offset.0,
                offset_id: offset.1,
                offset_peer: offset.2,
                limit: 100,
                hash: 0,
            })
        );
        requests += 1;
        let shown = walk.accept(page);
        assert_eq!(shown, page.dialogs);
        let last = page.dialogs.last().unwrap();
        offset = (last.date, last.top_message, last.input_peer);
        seen.extend(shown.iter().map(|d| d.peer));
    }
    assert_eq!(requests, 3);
    assert!(walk.is_done());
    assert_eq!(walk.next_request(), None);
    assert_eq!(seen.len(), 237);
    let mut distinct = seen.clone();
    distinct.sort_by_key(|p| match p {
        Peer::User { user_id } => *user_id,
        _ => -1,
    });
    distinct.dedup();
    assert_eq!(distinct.len(), 237);
}

#[test]
fn dialogs_are_shown_once() {
    let mut walk = Dialogs::new(3);
    let first = DialogsPage {
        kind: DialogsKind::Slice,
        dialogs: vec![dialog(1), dialog(2), dialog(1)],
    };
    assert_eq!(walk.accept(&first), vec![dialog(1), dialog(2)]);
    assert!(!walk.is_done());
    let second = DialogsPage {
        kind: DialogsKind::Slice,
        dialogs: vec![dialog(2), dialog(3), dialog(4)],
    };
    assert_eq!(walk.accept(&second), vec![dialog(3), dialog(4)]);
    assert_eq!(
        walk.next_request(),
        Some(Request::GetDialogs {
            offset_date: 2004,
            offset_id: 1004,
            offset_peer: dialog(4).input_peer,
            limit: 3,
            hash: 0,
        })
    );
    let chat = Dialog {
        peer: Peer::Chat { chat_id: 1 },
        input_peer: InputPeer::Chat { chat_id: 1 },
        top_message: 1,
        date: 1,
    };
    let third = DialogsPage {
        kind: DialogsKind::Slice,
        dialogs: vec![chat, dialog(1)],
    };
    assert_eq!(walk.accept(&third), vec![chat]);
    assert!(walk.is_done());
}

#[test]
fn the_walk_ends_with_the_list() {
    let mut walk = Dialogs::new(2);
    assert_eq!(walk.accept(&page(DialogsKind::Full, 0..2)).len(), 2);
    assert!(walk.is_done());

    let mut walk = Dialogs::new(2);
    assert_eq!(walk.accept(&page(DialogsKind::NotModified, 0..0)).len(), 0);
    assert!(walk.is_done());
    assert_eq!(walk.next_request(), None);

    let mut walk = Dialogs::new(2);
    walk.accept(&page(DialogsKind::Slice, 0..2));
    assert!(!walk.is_done());
    walk.accept(&page(DialogsKind::Slice, 2..2));
    assert!(walk.is_done());
}

#[test]
fn message_identifiers_grow() {
    let peer = InputPeer::Chat { chat_id: 1 };
    let mut client = connected();
    for (clock, id) in [
        (100, 100),
        (100, 101),
        (50, 102),
        (1000, 1000),
        (i64::MAX, i64::MAX),
        (5, 5),
        (-3, 6),
    ] {
        expect_invoke(
            client.send_message_at(peer, "hi", clock),
            message(peer, "hi", id),
            None,
        );
        assert!(matches!(
            client.resume(Event::Replied(Ok(Response::Updates))),
            Action::Finish(Outcome::MessageSent)
        ));
    }
    let mut last = 0;
    for _ in 0..3 {
        match client.send_message(peer, "now") {
            Action::Invoke {
                request: Request::SendMessage { random_id, .. },
                ..
            } => {
                assert!(random_id > last);
                last = random_id;
            }
            other => panic!("{:?}", other),
        }
        client.resume(Event::Replied(Ok(Response::Updates)));
    }
}

#[test]
fn a_message_is_refused_before_the_clock_is_read() {
    let hidden = User {
        id: 7,
        access_hash: None,
    };
    let mut client = connected();
    assert!(matches!(
        client.send_message(hidden, "hi"),
        Action::Finish(Outcome::Failed(Error::MissingAccessHash))
    ));
    assert!(matches!(
        client.send_message_at(hidden, "hi", 500),
        Action::Finish(Outcome::Failed(Error::MissingAccessHash))
    ));
    let peer = InputPeer::Chat { chat_id: 1 };
    expect_invoke(
        client.send_message_at(peer, "hi", 100),
        message(peer, "hi", 100),
        None,
    );
    assert!(matches!(
        client.send_message(peer, "hi"),
        Action::Finish(Outcome::Failed(Error::OutOfTurn))
    ));
    assert!(matches!(
        client.send_message(hidden, "hi"),
        Action::Finish(Outcome::Failed(Error::OutOfTurn))
    ));
    client.resume(Event::Replied(Ok(Response::Updates)));
    expect_invoke(
        client.send_message_at(peer, "hi", 100),
        message(peer, "hi", 101),
        None,
    );
}

#[test]
fn the_first_request_has_to_be_answered() {
    let (mut client, _) = Client::new(config());
    client.resume(Event::Saved);
    client.resume(Event::Connected {
        generated_key: Some([5; 256]),
    });
    expect_try(client.resume(Event::Saved), Request::GetConfig);
    assert!(matches!(
        client.resume(Event::Replied(Err(RpcError::from_message(500, "RPC_CALL_FAIL")))),
        Action::Finish(Outcome::Failed(Error::Rpc(_)))
    ));
    assert!(client.is_idle());
}

use tim_code::api::ClientInfo;
use tim_code::api::DeclareAbilitiesReq;
use tim_code::api::ErrorCode;
use tim_code::api::EventData;
use tim_code::api::SendMessageReq;
use tim_code::api::SubscribeToSpaceReq;
use tim_code::api::Timestamp;
use tim_code::api::Timite;
use tim_code::api::TrustedConnectReq;
use tim_code::api::TrustedConnectRes;
use tim_code::api::TrustedRegisterReq;
use tim_code::tim_api::TimApi;
use tim_code::tim_api::TimApiError;
use tim_code::tim_storage::TimStorage;

fn now() -> Timestamp {
    Timestamp { seconds: 42, nanos: 7 }
}

fn client_info() -> ClientInfo {
    ClientInfo { platform: "trusted-events-test".into() }
}

#[test]
fn trusted_flow_sends_events() {
    let mut api = TimApi::new(TimStorage::new());

    let alpha_session = api
        .trusted_register(
            &TrustedRegisterReq { nick: "alpha".into(), client_info: Some(client_info()) },
            now(),
        )
        .unwrap()
        .session
        .expect("missing alpha session");

    api.declare_abilities(&DeclareAbilitiesReq { abilities: Vec::new() }, &alpha_session).unwrap();

    let reconnect_session = api
        .trusted_connect(
            &TrustedConnectReq {
                timite: Some(Timite { id: alpha_session.timite_id, nick: "alpha".into() }),
                client_info: Some(client_info()),
            },
            now(),
        )
        .unwrap()
        .session
        .expect("missing reconnect session");

    assert_ne!(
        reconnect_session.key, alpha_session.key,
        "new session should have a distinct key"
    );
    assert_eq!(
        reconnect_session.timite_id, alpha_session.timite_id,
        "reconnect must keep the same timite id"
    );

    let beta_session = api
        .trusted_register(
            &TrustedRegisterReq { nick: "beta".into(), client_info: Some(client_info()) },
            now(),
        )
        .unwrap()
        .session
        .expect("missing beta session");

    let mut beta_events = api
        .subscribe(&SubscribeToSpaceReq { receive_own_messages: false }, &beta_session, now())
        .unwrap();

    let content = "ping from alpha";
    let send_res = api
        .send_message(&SendMessageReq { content: content.into() }, &reconnect_session, now())
        .unwrap();
    assert!(send_res.error.is_none(), "send_message should not include an error");

    let message = loop {
        let event = beta_events.try_recv().expect("beta subscriber should receive an event");

        match event.data {
            EventData::NewMessage(message) => {
                break message;
            }
            EventData::TimiteConnected(_) => continue,
            EventData::TimiteDisconnected(_) => continue,
            other => panic!("unexpected event event {:?}", other),
        }
    };

    assert_eq!(message.content, content);
    assert_eq!(
        message.sender_id, reconnect_session.timite_id,
        "sender id should match the session used to send the message"
    );
}

#[test]
fn register_needs_a_nick_and_client_info() {
    let mut api = TimApi::new(TimStorage::new());
    let no_nick = api.trusted_register(
        &TrustedRegisterReq { nick: "".into(), client_info: Some(client_info()) },
        now(),
    );
    assert!(matches!(no_nick, Err(TimApiError::InvalidArgError(_))));
    let no_info =
        api.trusted_register(&TrustedRegisterReq { nick: "alpha".into(), client_info: None }, now());
    assert!(matches!(no_info, Err(TimApiError::InvalidArgError(_))));
    let alpha = api
        .trusted_register(
            &TrustedRegisterReq { nick: "alpha".into(), client_info: Some(client_info()) },
            now(),
        )
        .unwrap()
        .session
        .unwrap();
    assert_eq!(alpha.timite_id, 1, "refused requests must not use up an id");
    assert_eq!(alpha.created_at, now());
    assert_eq!(alpha.client_info, client_info());
}

#[test]
fn connect_to_an_unknown_timite_answers_not_found() {
    let mut api = TimApi::new(TimStorage::new());
    let res = api
        .trusted_connect(
            &TrustedConnectReq {
                timite: Some(Timite { id: 9, nick: "ghost".into() }),
                client_info: Some(client_info()),
            },
            now(),
        )
        .unwrap();
    assert_eq!(res, TrustedConnectRes { session: None, error: ErrorCode::TimiteNotFound });

    let no_timite = api
        .trusted_connect(&TrustedConnectReq { timite: None, client_info: Some(client_info()) }, now());
    assert!(matches!(no_timite, Err(TimApiError::InvalidArgError(_))));
}

#[test]
fn connect_keeps_the_stored_nick() {
    let mut api = TimApi::new(TimStorage::new());
    let alpha = api
        .trusted_register(
            &TrustedRegisterReq { nick: "alpha".into(), client_info: Some(client_info()) },
            now(),
        )
        .unwrap()
        .session
        .unwrap();
    let no_info = api.trusted_connect(
        &TrustedConnectReq {
            timite: Some(Timite { id: alpha.timite_id, nick: "alpha".into() }),
            client_info: None,
        },
        now(),
    );
    assert!(matches!(no_info, Err(TimApiError::InvalidArgError(_))));
    let res = api
        .trusted_connect(
            &TrustedConnectReq {
                timite: Some(Timite { id: alpha.timite_id, nick: "renamed".into() }),
                client_info: Some(client_info()),
            },
            now(),
        )
        .unwrap();
    assert_eq!(res.error, ErrorCode::Unspecified);
    let session = res.session.unwrap();
    let mut updates = api
        .subscribe(&SubscribeToSpaceReq { receive_own_messages: true }, &session, now())
        .unwrap();
    match updates.try_recv().unwrap().data {
        EventData::TimiteConnected(timite) => {
            assert_eq!(timite, Timite { id: alpha.timite_id, nick: "alpha".into() })
        }
        other => panic!("unexpected event {:?}", other),
    }
}

use tim_code::api::ClientInfo;
use tim_code::api::EventData;
use tim_code::api::SendMessageReq;
use tim_code::api::SubscribeToSpaceReq;
use tim_code::api::Timestamp;
use tim_code::api::TrustedRegisterReq;
use tim_code::tim_api::TimApi;
use tim_code::tim_storage::TimStorage;

fn now() -> Timestamp {
    Timestamp { seconds: 3, nanos: 0 }
}

fn client_info() -> ClientInfo {
    ClientInfo { platform: "grpc-test".into() }
}

#[test]
fn grpc_send_message_notifies_subscribers() {
    let mut service = TimApi::new(TimStorage::new());

    let alpha_key = service
        .trusted_register(
            &TrustedRegisterReq { nick: "alpha".into(), client_info: Some(client_info()) },
            now(),
        )
        .unwrap()
        .session
        .expect("missing alpha session")
        .key;

    let beta_key = service
        .trusted_register(
            &TrustedRegisterReq { nick: "beta".into(), client_info: Some(client_info()) },
            now(),
        )
        .unwrap()
        .session
        .expect("missing beta session")
        .key;

    let alpha_session = service.authenticate(Some(alpha_key.as_str())).expect("No session");
    let beta_session = service.authenticate(Some(beta_key.as_str())).expect("No session");
    assert!(service.authenticate(None).is_none());
    assert!(service.authenticate(Some("not-a-key")).is_none());

    let mut beta_updates = service
        .subscribe(&SubscribeToSpaceReq { receive_own_messages: false }, &beta_session, now())
        .unwrap();

    let send_res = service
        .send_message(&SendMessageReq { content: "grpc ping".into() }, &alpha_session, now())
        .unwrap();
    assert!(send_res.error.is_none(), "send_message should indicate success");

    let connected = beta_updates.try_recv().expect("subscription ended unexpectedly");
    assert!(matches!(connected.data, EventData::TimiteConnected(_)));
    assert_eq!(connected.metadata.id, 1);

    let update = beta_updates.try_recv().expect("subscription ended unexpectedly");

    let message = match update.data {
        EventData::NewMessage(message) => message,
        other => panic!("unexpected update event {:?}", other),
    };

    assert_eq!(update.metadata.id, 2);
    assert_eq!(message.content, "grpc ping");
    assert_eq!(
        message.sender_id, alpha_session.timite_id,
        "sender id should match the publishing session"
    );
    assert!(beta_updates.try_recv().is_err(), "exactly one message is delivered");
}

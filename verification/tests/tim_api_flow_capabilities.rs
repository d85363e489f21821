use tim_code::api::Ability;
use tim_code::api::ClientInfo;
use tim_code::api::DeclareAbilitiesReq;
use tim_code::api::Timestamp;
use tim_code::api::TrustedRegisterReq;
use tim_code::tim_api::TimApi;
use tim_code::tim_storage::TimStorage;

fn client_info() -> ClientInfo {
    ClientInfo { platform: "cli-test".into() }
}

fn sample_capabilities() -> Vec<Ability> {
    vec![
        Ability {
            name: "echo".into(),
            description: "Echo input back to the caller".into(),
            params: Vec::new(),
        },
        Ability {
            name: "ping".into(),
            description: "Health check signal".into(),
            params: Vec::new(),
        },
    ]
}

#[test]
fn tim_api_flow_capabilities_lists_declared_skills() {
    let mut api = TimApi::new(TimStorage::new());

    let session = api
        .trusted_register(
            &TrustedRegisterReq { nick: "alpha".into(), client_info: Some(client_info()) },
            Timestamp { seconds: 5, nanos: 0 },
        )
        .unwrap()
        .session
        .expect("missing alpha session");

    let capabilities = sample_capabilities();
    api.declare_abilities(&DeclareAbilitiesReq { abilities: capabilities.clone() }, &session)
        .unwrap();

    let res = api.list_abilities().unwrap();
    assert_eq!(
        res.abilities.len(),
        1,
        "fresh store should only contain the declaring timite"
    );

    let entry = res
        .abilities
        .into_iter()
        .find(|tc| tc.timite.id == session.timite_id)
        .expect("timite capabilities entry missing");

    let stored = entry.abilities;
    assert_eq!(stored.len(), capabilities.len());

    for cap in &capabilities {
        assert!(
            stored.iter().any(|stored_cap| stored_cap.name == cap.name),
            "expected to find capability {} in the stored list",
            cap.name
        );
    }
}

use tim_code::api::Ability;
use tim_code::api::CallAbility;
use tim_code::api::CallAbilityOutcome;
use tim_code::api::ClientInfo;
use tim_code::api::DeclareAbilitiesReq;
use tim_code::api::EventData;
use tim_code::api::SendCallAbilityOutcomeReq;
use tim_code::api::SendCallAbilityReq;
use tim_code::api::SpaceEvent;
use tim_code::api::SubscribeToSpaceReq;
use tim_code::api::Timestamp;
use tim_code::api::TrustedRegisterReq;
use tim_code::tim_ability::TimAbilityError;
use tim_code::tim_api::TimApi;
use tim_code::tim_api::TimApiError;
use tim_code::tim_storage::TimStorage;
use tokio::sync::mpsc::Receiver;

fn now() -> Timestamp {
    Timestamp { seconds: 1_700_000_000, nanos: 0 }
}

fn client_info() -> ClientInfo {
    ClientInfo { platform: "cli-test".into() }
}

fn sample_abilities() -> Vec<Ability> {
    vec![
        Ability {
            name: "echo".into(),
            description: "Echo input back to the caller".into(),
            params: Vec::new(),
        },
        Ability {
            name: "ping".into(),
            description: "Health check signal".into(),
            params: Vec::new(),
        },
    ]
}

fn next_update(updates: &mut Receiver<SpaceEvent>) -> Option<SpaceEvent> {
    loop {
        match updates.try_recv() {
            Ok(event) => match event.data {
                EventData::TimiteConnected(_) | EventData::TimiteDisconnected(_) => continue,
                _ => return Some(event),
            },
            Err(_) => return None,
        }
    }
}

#[test]
fn tim_api_flow_abilities_list_declared_skills() {
    let mut api = TimApi::new(TimStorage::new());

    let session = api
        .trusted_register(
            &TrustedRegisterReq { nick: "alpha".into(), client_info: Some(client_info()) },
            now(),
        )
        .unwrap()
        .session
        .expect("missing alpha session");

    let abilities = sample_abilities();
    api.declare_abilities(&DeclareAbilitiesReq { abilities: abilities.clone() }, &session)
        .unwrap();

    let res = api.list_abilities().unwrap();
    assert_eq!(
        res.abilities.len(),
        1,
        "fresh store should only contain the declaring timite"
    );

    let entry = res
        .abilities
        .into_iter()
        .find(|ta| ta.timite.id == session.timite_id)
        .expect("timite abilities entry missing");
    assert_eq!(entry.timite.nick, "alpha");

    let stored = entry.abilities;
    assert_eq!(stored.len(), abilities.len());

    for ability in &abilities {
        assert!(
            stored.iter().any(|stored_ability| stored_ability.name == ability.name),
            "expected to find ability {} in the stored list",
            ability.name
        );
    }
}

#[test]
fn tim_api_flow_abilities_call_cycle() {
    let mut api = TimApi::new(TimStorage::new());

    let alpha_session = api
        .trusted_register(
            &TrustedRegisterReq { nick: "alpha".into(), client_info: Some(client_info()) },
            now(),
        )
        .unwrap()
        .session
        .expect("missing alpha session");

    api.declare_abilities(&DeclareAbilitiesReq { abilities: sample_abilities() }, &alpha_session)
        .unwrap();

    let mut alpha_updates = api
        .subscribe(&SubscribeToSpaceReq { receive_own_messages: false }, &alpha_session, now())
        .unwrap();

    let beta_session = api
        .trusted_register(
            &TrustedRegisterReq { nick: "beta".into(), client_info: Some(client_info()) },
            now(),
        )
        .unwrap()
        .session
        .expect("missing beta session");

    let ability_payload = "ping beta -> alpha";
    let ability_name = "echo";
    let call_res = api
        .send_call_ability(
            &SendCallAbilityReq {
                call_ability: Some(CallAbility {
                    timite_id: alpha_session.timite_id,
                    sender_id: 0,
                    name: ability_name.into(),
                    payload: ability_payload.into(),
                    call_ability_id: 0,
                }),
            },
            &beta_session,
            now(),
        )
        .unwrap();

    let call_ability_id = call_res.call_ability_id;
    assert!(call_ability_id > 0, "call ability ids should be positive integers");

    let alpha_call_update =
        next_update(&mut alpha_updates).expect("alpha should receive call ability update");

    let call_event = match alpha_call_update.data {
        EventData::CallAbility(event) => event,
        other => panic!("unexpected alpha update event: {:?}", other),
    };

    assert_eq!(
        call_event.call_ability_id, call_ability_id,
        "call ability update should carry the stored id"
    );
    assert_eq!(
        call_event.timite_id, alpha_session.timite_id,
        "call ability target should match alpha timite"
    );
    assert_eq!(
        call_event.sender_id, beta_session.timite_id,
        "call ability sender should be rewritten to beta"
    );
    assert_eq!(call_event.name, ability_name);
    assert_eq!(call_event.payload, ability_payload);

    let mut beta_updates = api
        .subscribe(&SubscribeToSpaceReq { receive_own_messages: false }, &beta_session, now())
        .unwrap();

    let outcome_payload = "echo-complete";
    api.send_call_ability_outcome(
        &SendCallAbilityOutcomeReq {
            outcome: Some(CallAbilityOutcome {
                call_ability_id,
                payload: Some(outcome_payload.into()),
                error: None,
            }),
        },
        &alpha_session,
        now(),
    )
    .unwrap();

    let beta_outcome_update =
        next_update(&mut beta_updates).expect("beta should receive call ability outcome");

    let outcome_event = match beta_outcome_update.data {
        EventData::CallAbilityOutcome(event) => event,
        other => panic!("unexpected beta update event: {:?}", other),
    };

    assert_eq!(
        outcome_event.call_ability_id, call_ability_id,
        "outcome should reference the original call id"
    );
    assert_eq!(
        outcome_event.payload.as_deref(),
        Some(outcome_payload),
        "payload should match what alpha sent back"
    );
    assert!(outcome_event.error.is_none(), "success outcome must not include an error");
}

#[test]
fn outcome_from_anybody_but_the_target_is_refused_and_publishes_nothing() {
    let mut api = TimApi::new(TimStorage::new());
    let alpha = api
        .trusted_register(
            &TrustedRegisterReq { nick: "alpha".into(), client_info: Some(client_info()) },
            now(),
        )
        .unwrap()
        .session
        .unwrap();
    let beta = api
        .trusted_register(
            &TrustedRegisterReq { nick: "beta".into(), client_info: Some(client_info()) },
            now(),
        )
        .unwrap()
        .session
        .unwrap();
    let call_id = api
        .send_call_ability(
            &SendCallAbilityReq {
                call_ability: Some(CallAbility {
                    timite_id: alpha.timite_id,
                    sender_id: 999,
                    name: "echo".into(),
                    payload: "hi".into(),
                    call_ability_id: 77,
                }),
            },
            &beta,
            now(),
        )
        .unwrap()
        .call_ability_id;
    assert_eq!(call_id, 1);
    let before = api.last_event_id();

    let refused = api.send_call_ability_outcome(
        &SendCallAbilityOutcomeReq {
            outcome: Some(CallAbilityOutcome {
                call_ability_id: call_id,
                payload: Some("done".into()),
                error: None,
            }),
        },
        &beta,
        now(),
    );
    assert_eq!(
        refused,
        Err(TimApiError::CallAbilityTargetMismatch {
            call_ability_timite: alpha.timite_id,
            sender_timite: beta.timite_id,
        })
    );
    assert_eq!(api.last_event_id(), before);

    let missing = api.send_call_ability_outcome(
        &SendCallAbilityOutcomeReq {
            outcome: Some(CallAbilityOutcome { call_ability_id: 42, payload: None, error: None }),
        },
        &alpha,
        now(),
    );
    assert_eq!(
        missing,
        Err(TimApiError::AbilityError(TimAbilityError::CallAbilityMissing(42)))
    );
    assert_eq!(api.last_event_id(), before);

    let no_outcome =
        api.send_call_ability_outcome(&SendCallAbilityOutcomeReq { outcome: None }, &alpha, now());
    assert!(matches!(no_outcome, Err(TimApiError::InvalidArgError(_))));

    api.send_call_ability_outcome(
        &SendCallAbilityOutcomeReq {
            outcome: Some(CallAbilityOutcome {
                call_ability_id: call_id,
                payload: Some("done".into()),
                error: None,
            }),
        },
        &alpha,
        now(),
    )
    .unwrap();
    assert_eq!(api.last_event_id(), before + 1);
}

#[test]
fn latest_declaration_replaces_the_ability_set() {
    let mut api = TimApi::new(TimStorage::new());
    let alpha = api
        .trusted_register(
            &TrustedRegisterReq { nick: "alpha".into(), client_info: Some(client_info()) },
            now(),
        )
        .unwrap()
        .session
        .unwrap();
    api.declare_abilities(&DeclareAbilitiesReq { abilities: sample_abilities() }, &alpha).unwrap();
    let only = vec![Ability {
        name: "sum".into(),
        description: "Adds".into(),
        params: vec![tim_code::api::AbilityParameter {
            name: "a".into(),
            description: "first".into(),
        }],
    }];
    api.declare_abilities(&DeclareAbilitiesReq { abilities: only.clone() }, &alpha).unwrap();
    let listed = api.list_abilities().unwrap().abilities;
    assert_eq!(listed.len(), 1);
    assert_eq!(listed[0].abilities, only);
}

use byok_server::bidi::{
    decode_payload, AgentClientMessage, BidiAppendRequest, ClientMessage, DecodedAppend,
    RequestId, StoredModels, SubagentRoutingSettings,
};
use byok_server::error::Error;
use byok_server::protocol::{
    AgentRunRequest, ModelDetails, ModelParameterValue, RequestedModel, SubagentModelOverride,
    SubagentSelection,
};

const HASH: &str = "model-hash-1";

fn empty_run_request() -> AgentRunRequest {
    AgentRunRequest {
        conversation_state: None,
        action: None,
        conversation_id: None,
        conversation_group_id: None,
        subagent_type_name: None,
        requested_model: None,
        model_details: None,
        subagent_model_overrides: Vec::new(),
    }
}

fn requested(model_id: &str) -> RequestedModel {
    RequestedModel { model_id: model_id.to_owned(), parameters: Vec::new() }
}

fn run_request(model_id: &str) -> AgentRunRequest {
    AgentRunRequest {
        requested_model: Some(requested(model_id)),
        model_details: Some(ModelDetails { model_id: model_id.to_owned() }),
        ..empty_run_request()
    }
}

fn append(request_id: &str, seqno: i64, request: AgentRunRequest) -> DecodedAppend {
    DecodedAppend {
        request_id: request_id.to_owned(),
        seqno,
        message: AgentClientMessage { message: Some(ClientMessage::RunRequest(request)) },
    }
}

/// A store holding one model, found by its hash.
fn store_with_model() -> StoredModels {
    StoredModels {
        hashes: vec![(HASH.to_owned(), HASH.to_owned())],
        models: vec![HASH.to_owned()],
        first_hash: Some(HASH.to_owned()),
    }
}

fn empty_store() -> StoredModels {
    StoredModels { hashes: Vec::new(), models: Vec::new(), first_hash: None }
}

fn run_of(decoded: &DecodedAppend) -> &AgentRunRequest {
    match &decoded.message.message {
        Some(ClientMessage::RunRequest(request)) => request,
        _ => unreachable!(),
    }
}

#[test]
fn explore_subagent_intercepted_and_routed_to_byok_model() {
    let store = store_with_model();
    let settings = SubagentRoutingSettings { enabled: true, ..Default::default() };
    let mut decoded = append(
        "test-req-1",
        1,
        AgentRunRequest { subagent_type_name: Some("explore".into()), ..run_request("composer-2.5-fast") },
    );
    decoded.resolve_subagent_and_model_aliases(&settings, &store, false);
    assert_eq!(decoded.model_id(), Some(HASH));
}

#[test]
fn model_less_run_defaults_to_first_configured_model() {
    let store = store_with_model();
    let mut decoded = append("test-default-1", 0, empty_run_request());
    let injected = decoded.ensure_default_model(&SubagentRoutingSettings::default(), &store);
    assert_eq!(injected.as_deref(), Some(HASH));
    assert_eq!(decoded.model_id(), Some(HASH));
}

#[test]
fn model_less_run_without_configured_models_stays_model_less() {
    let mut decoded = append("test-default-2", 0, empty_run_request());
    let injected = decoded.ensure_default_model(&SubagentRoutingSettings::default(), &empty_store());
    assert_eq!(injected, None);
    assert_eq!(decoded.model_id(), None);
}

#[test]
fn subagent_header_intercepted_and_routed_to_byok_model() {
    let store = store_with_model();
    let settings = SubagentRoutingSettings { enabled: true, ..Default::default() };
    let mut decoded = append("test-req-2", 1, run_request("composer-2.5-fast"));
    decoded.resolve_subagent_and_model_aliases(&settings, &store, true);
    assert_eq!(decoded.model_id(), Some(HASH));
}

#[test]
fn model_alias_intercepted_for_regular_request() {
    let store = store_with_model();
    let mut aliases = SubagentRoutingSettings::default().model_aliases;
    for entry in aliases.iter_mut() {
        if entry.0 == "composer-2.5-fast" {
            entry.1 = HASH.to_owned();
        }
    }
    let settings = SubagentRoutingSettings {
        enabled: true,
        apply_to_normal_chats: true,
        model_aliases: aliases,
        ..Default::default()
    };
    let mut decoded = append("test-req-3", 1, run_request("composer-2.5-fast"));
    decoded.resolve_subagent_and_model_aliases(&settings, &store, false);
    assert_eq!(decoded.model_id(), Some(HASH));
}

#[test]
fn interception_disabled_keeps_hosted_model() {
    let store = store_with_model();
    let mut decoded = append("test-req-4", 1, run_request("composer-2.5-fast"));
    decoded.resolve_subagent_and_model_aliases(&SubagentRoutingSettings::default(), &store, false);
    assert_eq!(decoded.model_id(), Some("composer-2.5-fast"));
}

#[test]
fn blank_alias_key_falls_back_to_target_model() {
    let store = store_with_model();
    let settings = SubagentRoutingSettings {
        enabled: true,
        apply_to_normal_chats: true,
        target_model_id: HASH.to_owned(),
        ..Default::default()
    };
    let mut decoded = append("test-req-5", 1, run_request("composer-2.5-fast"));
    decoded.resolve_subagent_and_model_aliases(&settings, &store, false);
    assert_eq!(decoded.model_id(), Some(HASH));
}

#[test]
fn resolves_all_explicit_selections_but_preserves_inheritance_and_parameters() {
    let store = store_with_model();
    let aliases = vec![("hosted-model".to_owned(), HASH.to_owned())];
    let selection = || RequestedModel {
        model_id: "hosted-model".into(),
        parameters: vec![ModelParameterValue { id: "effort".into(), value: "high".into() }],
    };
    let request = AgentRunRequest {
        requested_model: Some(selection()),
        model_details: Some(ModelDetails { model_id: "hosted-model".into() }),
        subagent_model_overrides: vec![
            SubagentModelOverride {
                subagent_type: "generalPurpose".into(),
                selection: Some(SubagentSelection::Model(selection())),
            },
            SubagentModelOverride {
                subagent_type: "explore".into(),
                selection: Some(SubagentSelection::Inherit(true)),
            },
        ],
        ..empty_run_request()
    };
    let mut decoded = append("aliases", 0, request);
    decoded.resolve_model_aliases(&aliases, &store).unwrap();
    let run = run_of(&decoded);
    let requested = run.requested_model.as_ref().unwrap();
    assert_eq!(requested.model_id, HASH);
    assert_eq!(requested.parameters.len(), 1);
    assert_eq!(requested.parameters[0].id, "effort");
    assert_eq!(requested.parameters[0].value, "high");
    assert_eq!(run.model_details.as_ref().unwrap().model_id, HASH);
    match &run.subagent_model_overrides[0].selection {
        Some(SubagentSelection::Model(child)) => {
            assert_eq!(child.model_id, HASH);
            assert_eq!(child.parameters.len(), 1);
            assert_eq!(child.parameters[0].value, "high");
        }
        _ => unreachable!(),
    }
    assert!(matches!(
        run.subagent_model_overrides[1].selection,
        Some(SubagentSelection::Inherit(true))
    ));
}

#[test]
fn an_alias_onto_a_missing_model_is_refused_and_changes_nothing() {
    let aliases = vec![
        ("other".to_owned(), "gone".to_owned()),
        ("hosted-model".to_owned(), "missing-hash".to_owned()),
    ];
    let mut decoded = append("aliases", 0, run_request("hosted-model"));
    match decoded.resolve_model_aliases(&aliases, &store_with_model()) {
        Err(Error::Config(message)) => assert_eq!(
            message,
            "Cursor model alias hosted-model targets a missing BYOK model"
        ),
        _ => panic!("expected a configuration error"),
    }
    assert_eq!(decoded.model_id(), Some("hosted-model"));
}

#[test]
fn a_refused_alias_keeps_the_selections_moved_before_it() {
    let aliases = vec![
        ("hosted-model".to_owned(), HASH.to_owned()),
        ("other-model".to_owned(), "missing-hash".to_owned()),
    ];
    let request = AgentRunRequest {
        requested_model: Some(requested("hosted-model")),
        model_details: Some(ModelDetails { model_id: "other-model".to_owned() }),
        subagent_model_overrides: vec![SubagentModelOverride {
            subagent_type: "explore".into(),
            selection: Some(SubagentSelection::Model(requested("hosted-model"))),
        }],
        ..empty_run_request()
    };
    let mut decoded = append("aliases", 0, request);
    match decoded.resolve_model_aliases(&aliases, &store_with_model()) {
        Err(Error::Config(message)) => assert_eq!(
            message,
            "Cursor model alias other-model targets a missing BYOK model"
        ),
        _ => panic!("expected a configuration error"),
    }
    let run = run_of(&decoded);
    assert_eq!(run.requested_model.as_ref().unwrap().model_id, HASH);
    assert_eq!(run.model_details.as_ref().unwrap().model_id, "other-model");
    match &run.subagent_model_overrides[0].selection {
        Some(SubagentSelection::Model(child)) => assert_eq!(child.model_id, "hosted-model"),
        _ => unreachable!(),
    }
}

#[test]
fn no_aliases_leave_the_request_alone() {
    let mut decoded = append("aliases", 0, run_request("hosted-model"));
    decoded.resolve_model_aliases(&Vec::new(), &empty_store()).unwrap();
    assert_eq!(decoded.model_id(), Some("hosted-model"));
}

#[test]
fn a_parent_request_routes_its_subagents_and_adds_missing_ones() {
    let store = store_with_model();
    let settings = SubagentRoutingSettings { enabled: true, ..Default::default() };
    let request = AgentRunRequest {
        subagent_model_overrides: vec![SubagentModelOverride {
            subagent_type: "explore".into(),
            selection: Some(SubagentSelection::Model(requested("composer-2.5"))),
        }],
        ..run_request("composer-2.5-fast")
    };
    let mut decoded = append("parent", 1, request);
    decoded.resolve_subagent_and_model_aliases(&settings, &store, false);
    // Normal chats are not covered by default: the parent keeps its own model.
    assert_eq!(decoded.model_id(), Some("composer-2.5-fast"));
    let overrides = &run_of(&decoded).subagent_model_overrides;
    assert_eq!(overrides.len(), 2);
    assert_eq!(overrides[0].subagent_type, "explore");
    assert!(matches!(&overrides[0].selection, Some(SubagentSelection::Model(m)) if m.model_id == HASH));
    assert_eq!(overrides[1].subagent_type, "generalPurpose");
    assert!(matches!(&overrides[1].selection, Some(SubagentSelection::Model(m)) if m.model_id == HASH));
}

#[test]
fn a_subagent_on_a_stored_model_keeps_it() {
    let store = store_with_model();
    let settings = SubagentRoutingSettings { enabled: true, ..Default::default() };
    let mut decoded = append(
        "sub",
        1,
        AgentRunRequest { subagent_type_name: Some("explore".into()), ..run_request(HASH) },
    );
    decoded.resolve_subagent_and_model_aliases(&settings, &store, false);
    assert_eq!(decoded.model_id(), Some(HASH));
    let mut decoded = append(
        "sub",
        1,
        AgentRunRequest { subagent_type_name: Some("explore".into()), ..run_request("unknown") },
    );
    decoded.resolve_subagent_and_model_aliases(&settings, &store, false);
    assert_eq!(decoded.model_id(), Some(HASH));
}

#[test]
fn a_selected_model_is_not_replaced_by_the_default() {
    let mut decoded = append("sel", 0, run_request("chosen"));
    let injected = decoded.ensure_default_model(&SubagentRoutingSettings::default(), &store_with_model());
    assert_eq!(injected, None);
    assert_eq!(decoded.model_id(), Some("chosen"));
}

#[test]
fn model_id_prefers_a_non_empty_requested_model() {
    let decoded = append(
        "m",
        0,
        AgentRunRequest {
            requested_model: Some(requested("")),
            model_details: Some(ModelDetails { model_id: "details".into() }),
            ..empty_run_request()
        },
    );
    assert_eq!(decoded.model_id(), Some("details"));
    let heartbeat = DecodedAppend {
        request_id: "h".into(),
        seqno: 0,
        message: AgentClientMessage { message: Some(ClientMessage::ClientHeartbeat) },
    };
    assert_eq!(heartbeat.model_id(), None);
    assert_eq!(heartbeat.conversation_id(), None);
    assert!(!heartbeat.is_background_task_completion());
    let with_conversation = append(
        "c",
        0,
        AgentRunRequest { conversation_id: Some("conv".into()), ..empty_run_request() },
    );
    assert_eq!(with_conversation.conversation_id(), Some("conv"));
}

fn bidi(request_id: Option<&str>, data: &str, binary: &[u8]) -> BidiAppendRequest {
    BidiAppendRequest {
        request_id: request_id.map(|id| RequestId { request_id: id.to_owned() }),
        data: data.to_owned(),
        data_binary: binary.to_vec(),
        append_seqno: 7,
    }
}

fn protocol_message(result: Result<byok_server::bidi::EncodedAppend, Error>) -> String {
    match result {
        Err(Error::Protocol(message)) => message,
        _ => panic!("expected a protocol error"),
    }
}

#[test]
fn an_append_payload_is_checked_and_hex_decoded() {
    let decoded = decode_payload(&bidi(Some("req"), "0aFf10", b"")).unwrap();
    assert_eq!(decoded.request_id, "req");
    assert_eq!(decoded.seqno, 7);
    assert_eq!(decoded.payload, vec![0x0a, 0xff, 0x10]);
    assert_eq!(
        protocol_message(decode_payload(&bidi(None, "00", b""))),
        "BidiAppend request_id is required"
    );
    assert_eq!(
        protocol_message(decode_payload(&bidi(Some(""), "00", b""))),
        "BidiAppend request_id is required"
    );
    assert_eq!(
        protocol_message(decode_payload(&bidi(Some("req"), "00", b"x"))),
        "BidiAppend data_binary is not part of the captured protocol"
    );
    assert_eq!(
        protocol_message(decode_payload(&bidi(Some("req"), "", b""))),
        "BidiAppend contains no AgentClientMessage"
    );
    assert_eq!(
        protocol_message(decode_payload(&bidi(Some("req"), "abc", b""))),
        "invalid BidiAppend hex: Odd number of digits"
    );
    assert_eq!(
        protocol_message(decode_payload(&bidi(Some("req"), "zz", b""))),
        "invalid BidiAppend hex: Invalid character 'z' at position 0"
    );
}

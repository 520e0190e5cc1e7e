use opensovd::component::ComponentId;
use opensovd::error::SovdError;
use opensovd::filter::FaultQuery;
use opensovd::in_memory::InMemoryServer;
use opensovd::json::JsonValue;
use opensovd::resources::{ExecutionStatus, FaultFilter, StartExecutionRequest};

#[test]
fn demo_server_lists_three_components() {
    let server = InMemoryServer::new_with_demo_data();
    let entities = server.list_entities().expect("list entities");
    let ids: Vec<String> = entities.items.iter().map(|e| e.id.clone()).collect();
    assert_eq!(ids, vec!["cvc", "fzc", "rzc"]);
}

#[test]
fn list_faults_returns_canned_faults() {
    let server = InMemoryServer::new_with_demo_data();
    let view = server.component_server(&ComponentId::new("cvc")).expect("component view");
    let list = view.list_faults(&server, &FaultFilter::all()).expect("list faults");
    assert_eq!(list.items.len(), 2);
    assert!(list.items.iter().any(|f| f.code == "P0A1F"));
}

#[test]
fn get_fault_returns_environment_data() {
    let server = InMemoryServer::new_with_demo_data();
    let view = server.component_server(&ComponentId::new("cvc")).expect("component view");
    let details = view.get_fault(&server, "P0A1F").expect("get fault");
    assert_eq!(details.item.code, "P0A1F");
    assert!(details.environment_data.is_some());
}

#[test]
fn clear_fault_removes_from_list() {
    let mut server = InMemoryServer::new_with_demo_data();
    let view = server.component_server(&ComponentId::new("cvc")).expect("component view");
    view.clear_fault(&mut server, "P0A1F").expect("clear fault");
    let list = view.list_faults(&server, &FaultFilter::all()).expect("list faults");
    assert!(list.items.iter().all(|f| f.code != "P0A1F"));
}

#[test]
fn clear_all_faults_empties_list() {
    let mut server = InMemoryServer::new_with_demo_data();
    let view = server.component_server(&ComponentId::new("cvc")).expect("component view");
    view.clear_all_faults(&mut server).expect("clear all");
    let list = view.list_faults(&server, &FaultFilter::all()).expect("list faults");
    assert!(list.items.is_empty());
}

#[test]
fn start_execution_creates_tracked_execution() {
    let mut server = InMemoryServer::new_with_demo_data();
    let view = server.component_server(&ComponentId::new("cvc")).expect("component view");
    let started = view
        .start_execution(
            &mut server,
            "motor_self_test",
            StartExecutionRequest {
                timeout: Some(30),
                parameters: Some(JsonValue::from_text("{\"mode\":\"quick\"}")),
                proximity_response: None,
            },
            [7u8; 16],
        )
        .expect("start execution");
    let status = view
        .execution_status(&server, "motor_self_test", &started.id)
        .expect("exec status");
    assert_eq!(status.status, Some(ExecutionStatus::Running));
}

#[test]
fn unknown_component_is_not_found() {
    let server = InMemoryServer::new_with_demo_data();
    let err = server
        .component_server(&ComponentId::new("nope"))
        .expect_err("should not find");
    assert!(matches!(err, SovdError::NotFound { .. }));
}

#[test]
fn entity_capabilities_round_trip() {
    let server = InMemoryServer::new_with_demo_data();
    let view = server.component_server(&ComponentId::new("cvc")).expect("component view");
    let caps = view.entity_capabilities(&server).expect("capabilities");
    assert_eq!(caps.id, "cvc");
    assert!(caps.faults.is_some());
}

#[test]
fn severity_filter_below_threshold() {
    let server = InMemoryServer::new_with_demo_data();
    let view = server.component_server(&ComponentId::new("cvc")).expect("component view");
    let filter = FaultFilter { severity: Some(3), ..FaultFilter::all() };
    let list = view.list_faults(&server, &filter).expect("list");
    // P0A1F has severity 2 (< 3), P0562 has severity 3 (not < 3).
    assert!(list.items.iter().all(|f| f.severity.unwrap_or(0) < 3));
}

#[test]
fn severity_filter_keeps_exactly_the_lower_fault() {
    let server = InMemoryServer::new_with_demo_data();
    let filter = FaultFilter { severity: Some(3), ..FaultFilter::all() };
    let list = server
        .dispatch_list_faults(&ComponentId::new("cvc"), &filter)
        .expect("list");
    let codes: Vec<&str> = list.items.iter().map(|f| f.code.as_str()).collect();
    assert_eq!(codes, vec!["P0A1F"]);
}

#[test]
fn status_filter_matches_aggregated_status() {
    let server = InMemoryServer::new_with_demo_data();
    let query = FaultQuery {
        severity: None,
        scope: None,
        status_key: Some("aggregatedStatus:pending".to_owned()),
    };
    let list = server
        .dispatch_list_faults(&ComponentId::new("cvc"), &query.into_filter())
        .expect("list");
    let codes: Vec<&str> = list.items.iter().map(|f| f.code.as_str()).collect();
    assert_eq!(codes, vec!["P0562"]);
}

#[test]
fn scope_filter_requires_equal_scope() {
    let server = InMemoryServer::new_with_demo_data();
    let other = FaultFilter { scope: Some("Other".to_owned()), ..FaultFilter::all() };
    let same = FaultFilter { scope: Some("Default".to_owned()), ..FaultFilter::all() };
    let c = ComponentId::new("cvc");
    assert!(server.dispatch_list_faults(&c, &other).unwrap().items.is_empty());
    assert_eq!(server.dispatch_list_faults(&c, &same).unwrap().items.len(), 2);
}

#[test]
fn get_fault_after_clear_is_not_found() {
    let mut server = InMemoryServer::new_with_demo_data();
    let c = ComponentId::new("cvc");
    server.dispatch_clear_fault(&c, "P0A1F").expect("clear");
    match server.dispatch_get_fault(&c, "P0A1F") {
        Err(SovdError::NotFound { entity }) => assert_eq!(entity, "fault \"P0A1F\""),
        other => panic!("unexpected {other:?}"),
    }
    // The other fault is still there, with its environment data.
    let d = server.dispatch_get_fault(&c, "P0562").expect("still held");
    assert!(d.environment_data.is_some());
}

#[test]
fn clearing_an_unknown_fault_is_not_found_and_changes_nothing() {
    let mut server = InMemoryServer::new_with_demo_data();
    let c = ComponentId::new("cvc");
    match server.dispatch_clear_fault(&c, "XXXX") {
        Err(SovdError::NotFound { entity }) => assert_eq!(entity, "fault \"XXXX\""),
        other => panic!("unexpected {other:?}"),
    }
    assert_eq!(server.dispatch_list_faults(&c, &FaultFilter::all()).unwrap().items.len(), 2);
}

#[test]
fn clear_all_twice_is_not_an_error() {
    let mut server = InMemoryServer::new_with_demo_data();
    let c = ComponentId::new("rzc");
    server.dispatch_clear_all_faults(&c).expect("first");
    server.dispatch_clear_all_faults(&c).expect("second");
    assert!(server.dispatch_list_faults(&c, &FaultFilter::all()).unwrap().items.is_empty());
}

#[test]
fn clearing_one_component_leaves_the_others() {
    let mut server = InMemoryServer::new_with_demo_data();
    server.dispatch_clear_all_faults(&ComponentId::new("cvc")).expect("clear");
    let fzc = server
        .dispatch_list_faults(&ComponentId::new("fzc"), &FaultFilter::all())
        .unwrap();
    assert_eq!(fzc.items.len(), 1);
    assert_eq!(fzc.items[0].code, "U0100");
}

#[test]
fn unknown_component_messages_name_it() {
    let mut server = InMemoryServer::new_with_demo_data();
    let c = ComponentId::new("bcm");
    match server.dispatch_clear_all_faults(&c) {
        Err(SovdError::NotFound { entity }) => assert_eq!(entity, "component \"bcm\""),
        other => panic!("unexpected {other:?}"),
    }
    assert!(matches!(
        server.dispatch_list_operations(&c),
        Err(SovdError::NotFound { .. })
    ));
}

#[test]
fn unknown_operation_is_not_found() {
    let mut server = InMemoryServer::new_with_demo_data();
    let c = ComponentId::new("rzc");
    let req = StartExecutionRequest { timeout: None, parameters: None, proximity_response: None };
    match server.dispatch_start_execution(&c, "motor_self_test", req, [0u8; 16]) {
        Err(SovdError::NotFound { entity }) => assert_eq!(entity, "operation \"motor_self_test\""),
        other => panic!("unexpected {other:?}"),
    }
}

#[test]
fn execution_status_checks_operation_and_id() {
    let mut server = InMemoryServer::new_with_demo_data();
    let c = ComponentId::new("cvc");
    let params = JsonValue::from_text("{\"mode\":\"quick\"}");
    let req = StartExecutionRequest {
        timeout: None,
        parameters: Some(params.clone()),
        proximity_response: None,
    };
    let started = server
        .dispatch_start_execution_with_id(&c, "hv_precharge", req, "exec-1".to_owned())
        .expect("start");
    assert_eq!(started.id, "exec-1");
    assert_eq!(started.status, Some(ExecutionStatus::Running));
    let ok = server.dispatch_execution_status(&c, "hv_precharge", "exec-1").expect("status");
    assert_eq!(ok.parameters, Some(params));
    match server.dispatch_execution_status(&c, "read_vin", "exec-1") {
        Err(SovdError::NotFound { entity }) => {
            assert_eq!(entity, "execution \"exec-1\" of operation \"read_vin\"")
        }
        other => panic!("unexpected {other:?}"),
    }
    match server.dispatch_execution_status(&c, "hv_precharge", "exec-2") {
        Err(SovdError::NotFound { entity }) => assert_eq!(entity, "execution \"exec-2\""),
        other => panic!("unexpected {other:?}"),
    }
}

#[test]
fn execution_ids_are_version_4_uuids_of_the_random_bytes() {
    let mut server = InMemoryServer::new_with_demo_data();
    let c = ComponentId::new("cvc");
    let req = || StartExecutionRequest { timeout: None, parameters: None, proximity_response: None };
    let bytes_a = [70u8, 235, 208, 238, 14, 109, 67, 201, 185, 13, 204, 195, 90, 145, 63, 62];
    let a = server.dispatch_start_execution(&c, "read_vin", req(), bytes_a).expect("a");
    assert_eq!(a.id, "46ebd0ee-0e6d-43c9-b90d-ccc35a913f3e");
    let b = server.dispatch_start_execution(&c, "read_vin", req(), [0u8; 16]).expect("b");
    assert_eq!(b.id, "00000000-0000-4000-8000-000000000000");
    let d = server.dispatch_start_execution(&c, "read_vin", req(), [0xffu8; 16]).expect("d");
    assert_eq!(d.id, "ffffffff-ffff-4fff-bfff-ffffffffffff");
    assert!(server.dispatch_execution_status(&c, "read_vin", &a.id).is_ok());
    assert!(server.dispatch_execution_status(&c, "read_vin", &b.id).is_ok());
    assert!(server.dispatch_execution_status(&c, "read_vin", &d.id).is_ok());
}

#[test]
fn execution_status_survives_later_operations() {
    let mut server = InMemoryServer::new_with_demo_data();
    let c = ComponentId::new("cvc");
    let params = JsonValue::from_text("{\"mode\":\"full\"}");
    let req = StartExecutionRequest {
        timeout: None,
        parameters: Some(params.clone()),
        proximity_response: None,
    };
    let started = server
        .dispatch_start_execution(&c, "motor_self_test", req, [1u8; 16])
        .expect("start");
    server.dispatch_clear_fault(&c, "P0A1F").expect("clear one");
    server.dispatch_clear_all_faults(&c).expect("clear all");
    let other = StartExecutionRequest { timeout: None, parameters: None, proximity_response: None };
    server.dispatch_start_execution(&c, "read_vin", other, [2u8; 16]).expect("other");
    let status = server
        .dispatch_execution_status(&c, "motor_self_test", &started.id)
        .expect("status");
    assert_eq!(status.status, Some(ExecutionStatus::Running));
    assert_eq!(status.parameters, Some(params));
}

#[test]
fn read_data_returns_demo_values() {
    let server = InMemoryServer::new_with_demo_data();
    let c = ComponentId::new("cvc");
    let v = server.dispatch_read_data(&c, "battery_voltage").expect("data");
    assert_eq!(v.id, "battery_voltage");
    assert_eq!(v.data.text, "{\"unit\":\"V\",\"value\":12.8}");
    match server.dispatch_read_data(&ComponentId::new("rzc"), "vin") {
        Err(SovdError::NotFound { entity }) => assert_eq!(entity, "data \"vin\""),
        other => panic!("unexpected {other:?}"),
    }
}

#[test]
fn list_operations_and_entity_links() {
    let server = InMemoryServer::new_with_demo_data();
    let ops = server.dispatch_list_operations(&ComponentId::new("fzc")).expect("ops");
    let ids: Vec<&str> = ops.items.iter().map(|o| o.id.as_str()).collect();
    assert_eq!(ids, vec!["relay_self_test", "read_vin"]);
    assert!(!ops.items[1].asynchronous_execution);
    let entities = server.list_entities().unwrap();
    assert_eq!(entities.items[1].href, "/sovd/v1/components/fzc");
    let caps = server.dispatch_entity_capabilities(&ComponentId::new("rzc")).unwrap();
    assert_eq!(caps.operations.as_deref(), Some("/sovd/v1/components/rzc/operations"));
}

#[test]
fn empty_server_has_no_entities() {
    let server = InMemoryServer::new_empty();
    assert!(server.list_entities().unwrap().items.is_empty());
    assert!(server.component_server(&ComponentId::new("cvc")).is_err());
}

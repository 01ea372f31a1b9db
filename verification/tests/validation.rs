use snowman::node::{Node, NodeError};
use snowman::pool::validate_node_ids;
use snowman::response::SnowflakeResponse;
use snowman::snowflake::{CounterError, MAX_NODE_ID};

#[test]
fn a_valid_assignment_comes_back_in_order() {
    let ids: Vec<u16> = vec![4, 0, 17, MAX_NODE_ID - 1];
    let validated = validate_node_ids(&ids).ok().expect("all distinct and in range");
    assert_eq!(validated.len(), 4);
    assert_eq!(validated[0].value(), 4);
    assert_eq!(validated[1].value(), 0);
    assert_eq!(validated[2].value(), 17);
    assert_eq!(validated[3].value(), MAX_NODE_ID - 1);
}

#[test]
fn an_out_of_range_id_is_rejected() {
    let ids: Vec<u16> = vec![4, MAX_NODE_ID, 17];
    assert!(validate_node_ids(&ids).is_err());
}

#[test]
fn a_duplicate_id_is_rejected() {
    let ids: Vec<u16> = vec![4, 0, 17, 4];
    assert!(validate_node_ids(&ids).is_err());
}

#[test]
fn an_empty_assignment_is_valid() {
    let ids: Vec<u16> = Vec::new();
    let validated = validate_node_ids(&ids).ok().expect("nothing to reject");
    assert!(validated.is_empty());
}

#[test]
fn success_maps_to_a_success_status() {
    let id = validate_node_ids(&vec![2]).ok().expect("in range");
    let mut node = Node::new(id[0], 0);
    let s = node.generate_at(5).ok().expect("fresh millisecond");
    let response = SnowflakeResponse::Snowflake(s);
    assert_eq!(response.status_code(), 200);
}

#[test]
fn every_error_kind_maps_to_a_server_failure_status() {
    let kinds: [NodeError; 2] = [
        NodeError::ClockRegression,
        NodeError::RetriesExhausted,
    ];
    for kind in kinds {
        assert_eq!(SnowflakeResponse::Error(kind).status_code(), 500);
    }
    assert_eq!(
        SnowflakeResponse::Error(NodeError::Counter(CounterError)).status_code(),
        500
    );
}

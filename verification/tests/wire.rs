//! The wire-format tests: the subscribe-frame parser, the outbound
//! serializer, and the upgrade handshake.

use starbus::executor::ExecutionResult;
use starbus::frames::{execution_result_json, parse_json, parse_subscription_request, JsonValue};
use starbus::models::{Episode, Human};
use starbus::session::handshake_valid;

#[test]
fn parses_a_full_subscribe_frame() {
    let frame = "{\"query\": \"subscription { humanCreated { id } }\", \
                 \"operationName\": \"watch\", \
                 \"variables\": {\"limit\": 10, \"tag\": \"x\"}}";
    let req = parse_subscription_request(frame).expect("a well-formed frame parses");
    assert_eq!(req.query, "subscription { humanCreated { id } }");
    assert_eq!(req.operation_name.as_deref(), Some("watch"));
    assert_eq!(req.variables.len(), 2);
    assert_eq!(req.variables[0].0, "limit");
    assert!(matches!(&req.variables[0].1, JsonValue::Num(n) if n == "10"));
    assert_eq!(req.variables[1].0, "tag");
    assert!(matches!(&req.variables[1].1, JsonValue::Str(s) if s == "x"));
}

#[test]
fn query_alone_is_enough() {
    let req = parse_subscription_request("{\"query\":\"{ apiVersion }\"}").unwrap();
    assert_eq!(req.query, "{ apiVersion }");
    assert!(req.operation_name.is_none());
    assert!(req.variables.is_empty());
}

#[test]
fn missing_query_is_rejected() {
    assert!(parse_subscription_request("{\"operationName\":\"watch\"}").is_none());
}

#[test]
fn non_string_query_is_rejected() {
    assert!(parse_subscription_request("{\"query\": 42}").is_none());
    assert!(parse_subscription_request("{\"query\": null}").is_none());
}

#[test]
fn non_object_variables_are_rejected() {
    assert!(parse_subscription_request("{\"query\":\"q\",\"variables\":[1,2]}").is_none());
}

#[test]
fn invalid_json_is_rejected() {
    assert!(parse_subscription_request("").is_none());
    assert!(parse_subscription_request("{").is_none());
    assert!(parse_subscription_request("not json").is_none());
    assert!(parse_subscription_request("{\"query\":\"q\"} trailing").is_none());
    assert!(parse_subscription_request("[\"query\"]").is_none());
}

#[test]
fn first_occurrence_of_a_key_wins() {
    let req = parse_subscription_request("{\"query\":\"first\",\"query\":\"second\"}").unwrap();
    assert_eq!(req.query, "first");
}

#[test]
fn string_escapes_are_decoded() {
    let req = parse_subscription_request("{\"query\":\"a\\\"b\\\\c\\nd\\te\"}").unwrap();
    assert_eq!(req.query, "a\"b\\c\nd\te");
}

#[test]
fn json_values_parse() {
    assert!(matches!(parse_json("null"), Some(JsonValue::Null)));
    assert!(matches!(parse_json("true"), Some(JsonValue::Bool(true))));
    assert!(matches!(parse_json("false"), Some(JsonValue::Bool(false))));
    assert!(matches!(parse_json("  -12.5e3  "), Some(JsonValue::Num(n)) if n == "-12.5e3"));
    match parse_json("[1, [2], {\"k\": \"v\"}]") {
        Some(JsonValue::Arr(items)) => {
            assert_eq!(items.len(), 3);
            assert!(matches!(&items[0], JsonValue::Num(n) if n == "1"));
            assert!(matches!(&items[1], JsonValue::Arr(inner) if inner.len() == 1));
            match &items[2] {
                JsonValue::Obj(members) => {
                    assert_eq!(members.len(), 1);
                    assert_eq!(members[0].0, "k");
                }
                _ => panic!("an object was expected"),
            }
        }
        _ => panic!("an array was expected"),
    }
    assert!(parse_json("01 2").is_none());
    assert!(parse_json("[1,]").is_none());
    assert!(parse_json("{\"a\"}").is_none());
    assert!(parse_json("\"\\u0041\"").is_none());
}

#[test]
fn data_result_serialises_exactly() {
    let result = ExecutionResult::Data(Human {
        id: "generated-id".to_string(),
        name: "Han Solo".to_string(),
        appears_in: vec![Episode::NewHope, Episode::Empire, Episode::Jedi],
        home_planet: "Corellia".to_string(),
    });
    assert_eq!(
        execution_result_json(&result),
        "{\"data\":{\"id\":\"generated-id\",\"name\":\"Han Solo\",\
         \"appears_in\":[\"NEW_HOPE\",\"EMPIRE\",\"JEDI\"],\
         \"home_planet\":\"Corellia\"}}"
    );
}

#[test]
fn serialised_strings_are_escaped() {
    let result = ExecutionResult::Data(Human {
        id: "i".to_string(),
        name: "a\"b\\c\nd".to_string(),
        appears_in: vec![],
        home_planet: "p".to_string(),
    });
    assert_eq!(
        execution_result_json(&result),
        "{\"data\":{\"id\":\"i\",\"name\":\"a\\\"b\\\\c\\nd\",\
         \"appears_in\":[],\"home_planet\":\"p\"}}"
    );
}

#[test]
fn missed_events_serialise_as_an_error() {
    assert_eq!(
        execution_result_json(&ExecutionResult::EventsMissed),
        "{\"errors\":[{\"message\":\"events missed\"}]}"
    );
}

#[test]
fn handshake_accepts_case_insensitively() {
    assert!(handshake_valid(Some("websocket"), Some("upgrade")));
    assert!(handshake_valid(Some("WebSocket"), Some("Upgrade")));
    assert!(handshake_valid(Some("WEBSOCKET"), Some("keep-alive, UPGRADE")));
}

#[test]
fn handshake_rejects_bad_headers() {
    assert!(!handshake_valid(None, Some("upgrade")));
    assert!(!handshake_valid(Some("websocket"), None));
    assert!(!handshake_valid(None, None));
    assert!(!handshake_valid(Some("polling"), Some("upgrade")));
    assert!(!handshake_valid(Some("websocket"), Some("keep-alive")));
    assert!(!handshake_valid(Some("websocket "), Some("upgrade")));
}

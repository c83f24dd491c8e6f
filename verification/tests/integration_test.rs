//! Tests for the message model: roles, wire records, and the tool-call
//! round trip.

use agentic_optio_rs::{AIMessage, BaseMessage, Message, ToolCall};
use agentic_optio_rs::messages::assistant_wire_round_trip;
use agentic_optio_rs::messages_to_dict;

#[test]
fn test_message_types() {
    let system_msg = Message::system("You are helpful".to_string());
    assert_eq!(system_msg.role(), "system");

    let user_msg = Message::user("Hello".to_string());
    assert_eq!(user_msg.role(), "user");

    let assistant_msg = Message::assistant("Hi there".to_string());
    assert_eq!(assistant_msg.role(), "assistant");
}

#[test]
fn test_message_serialization() {
    let msg = Message::user("Test message".to_string());
    let dict = msg.to_dict();

    assert_eq!(dict.role, "user");
    assert_eq!(dict.content, "Test message");
}

#[test]
fn test_tool_message_role_and_record() {
    let msg = Message::tool("72 degrees".to_string(), "call_1".to_string());
    assert_eq!(msg.role(), "tool");
    assert_eq!(msg.content(), "72 degrees");

    let dict = msg.to_dict();
    assert_eq!(dict.role, "tool");
    assert_eq!(dict.content, "72 degrees");
    assert_eq!(dict.tool_call_id.as_deref(), Some("call_1"));
    assert!(dict.tool_calls.is_empty());
}

#[test]
fn test_system_record_has_no_tool_fields() {
    let msg = Message::system("Be brief".to_string());
    let dict = msg.to_dict();
    assert_eq!(dict.role, "system");
    assert_eq!(dict.content, "Be brief");
    assert!(dict.tool_call_id.is_none());
    assert!(dict.tool_calls.is_empty());
}

#[test]
fn test_assistant_record_encodes_tool_calls() {
    let args: serde_json::Value = serde_json::from_str("{\"city\":\"Paris\",\"days\":3}").unwrap();
    let tc = ToolCall { id: "call_7".to_string(), name: "get_weather".to_string(), args };
    let msg = AIMessage::with_tool_calls("Checking".to_string(), vec![tc]);

    let dict = msg.to_dict();
    assert_eq!(dict.role, "assistant");
    assert_eq!(dict.content, "Checking");
    assert_eq!(dict.tool_calls.len(), 1);
    assert_eq!(dict.tool_calls[0].id, "call_7");
    assert_eq!(dict.tool_calls[0].name, "get_weather");

    let decoded: serde_json::Value = serde_json::from_str(&dict.tool_calls[0].arguments).unwrap();
    let expected: serde_json::Value =
        serde_json::from_str("{\"city\":\"Paris\",\"days\":3}").unwrap();
    assert_eq!(decoded, expected);
}

#[test]
fn test_assistant_wire_round_trip_preserves_tool_calls() {
    let args: serde_json::Value =
        serde_json::from_str("{\"query\":\"rust verification\",\"limit\":10}").unwrap();
    let tc = ToolCall { id: "call_42".to_string(), name: "search".to_string(), args: args.clone() };
    let msg = AIMessage::with_tool_calls("Let me look".to_string(), vec![tc]);

    let back = assistant_wire_round_trip(&msg);
    assert_eq!(back.content, "Let me look");
    assert_eq!(back.tool_calls.len(), 1);
    assert_eq!(back.tool_calls[0].id, "call_42");
    assert_eq!(back.tool_calls[0].name, "search");
    assert_eq!(back.tool_calls[0].args, args);
}

#[test]
fn test_round_trip_float_arguments_exact() {
    // Shortest-form float texts must re-parse to the same values: the build
    // uses the codec's correctly rounding float parser.
    let args: serde_json::Value =
        serde_json::from_str("{\"a\":51.2481783755054,\"b\":0.1,\"c\":1e308}").unwrap();
    let tc = ToolCall { id: "call_f".to_string(), name: "set_params".to_string(), args: args.clone() };
    let msg = AIMessage::with_tool_calls("tuning".to_string(), vec![tc]);

    let back = assistant_wire_round_trip(&msg);
    assert_eq!(back.tool_calls[0].args, args);
}

#[test]
fn test_round_trip_over_deep_arguments_degrade_to_null() {
    // The JSON parser enforces a nesting-depth limit that the serializer
    // does not: an argument value nested beyond it encodes to text the
    // parser rejects, so decoding falls back to null while id and name
    // survive.
    let mut args = serde_json::Value::Bool(true);
    for _ in 0..200 {
        args = serde_json::Value::Array(vec![args]);
    }
    let tc = ToolCall { id: "call_d".to_string(), name: "nest".to_string(), args };
    let msg = AIMessage::with_tool_calls("deep".to_string(), vec![tc]);

    let back = assistant_wire_round_trip(&msg);
    assert_eq!(back.tool_calls.len(), 1);
    assert_eq!(back.tool_calls[0].id, "call_d");
    assert_eq!(back.tool_calls[0].name, "nest");
    assert_eq!(back.tool_calls[0].args, serde_json::Value::Null);
}

#[test]
fn test_messages_to_dict_keeps_order() {
    let messages = vec![
        Message::system("Be brief".to_string()),
        Message::user("Hi".to_string()),
        Message::assistant("Hello".to_string()),
    ];
    let dicts = messages_to_dict(&messages);
    assert_eq!(dicts.len(), 3);
    assert_eq!(dicts[0].role, "system");
    assert_eq!(dicts[1].role, "user");
    assert_eq!(dicts[2].role, "assistant");
    assert_eq!(dicts[1].content, "Hi");
}

#[test]
fn test_assistant_without_tool_calls() {
    let msg = AIMessage::new("Plain reply".to_string());
    assert!(msg.tool_calls.is_empty());
    let dict = msg.to_dict();
    assert_eq!(dict.role, "assistant");
    assert!(dict.tool_calls.is_empty());
}

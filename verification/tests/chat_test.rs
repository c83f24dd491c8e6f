//! Tests for chat invocation: request building, status classification, and
//! response parsing.

use agentic_optio_rs::{
    ChatResponse, Choice, FunctionCall, Message, ModelError, OllamaChat, ResponseMessage,
    ResponseToolCall,
};
use agentic_optio_rs::ollama::check_status;

#[test]
fn test_chat_builder_defaults() {
    let llm = OllamaChat::new("llama3.2".to_string());
    assert_eq!(llm.model, "llama3.2");
    assert_eq!(llm.host, "http://localhost:11434");
    assert_eq!(llm.temperature_bits, 0);
    assert_eq!(llm.max_tokens, None);
    assert_eq!(llm.timeout_ms, 60000);
    assert_eq!(llm.max_retries, 2);
}

#[test]
fn test_chat_builder_settings() {
    let llm = OllamaChat::builder("llama3.2".to_string())
        .host("http://example.com:11434".to_string())
        .temperature_bits(0.7f32.to_bits())
        .max_tokens(100)
        .timeout(30000)
        .max_retries(5)
        .build();
    assert_eq!(llm.host, "http://example.com:11434");
    assert_eq!(f32::from_bits(llm.temperature_bits), 0.7);
    assert_eq!(llm.max_tokens, Some(100));
    assert_eq!(llm.timeout_ms, 30000);
    assert_eq!(llm.max_retries, 5);
}

#[test]
fn test_build_request_single_shot() {
    let llm = OllamaChat::new("llama3.2".to_string());
    let messages = vec![
        Message::system("Be brief".to_string()),
        Message::user("Hi".to_string()),
    ];
    let request = llm.build_request(&messages, false);
    assert_eq!(request.model, "llama3.2");
    assert_eq!(request.messages.len(), 2);
    assert_eq!(request.messages[0].role, "system");
    assert_eq!(request.messages[1].role, "user");
    assert_eq!(request.messages[1].content, "Hi");
    assert!(request.tools.is_none());
    assert_eq!(request.stream, None);
}

#[test]
fn test_build_request_streaming_flag() {
    let llm = OllamaChat::new("llama3.2".to_string());
    let messages = vec![Message::user("Hi".to_string())];
    let request = llm.build_request(&messages, true);
    assert_eq!(request.stream, Some(true));
}

#[test]
fn test_completions_url_trims_trailing_slashes() {
    let llm = OllamaChat::new("llama3.2".to_string());
    assert_eq!(llm.completions_url(), "http://localhost:11434/v1/chat/completions");

    let llm = OllamaChat::builder("llama3.2".to_string())
        .host("http://example.com:11434///".to_string())
        .build();
    assert_eq!(llm.completions_url(), "http://example.com:11434/v1/chat/completions");
}

#[test]
fn test_check_status_success_passes_body() {
    let r = check_status(200, "{\"ok\":true}".to_string());
    assert_eq!(r.unwrap(), "{\"ok\":true}");
    assert!(check_status(299, String::new()).is_ok());
}

#[test]
fn test_check_status_failure_carries_status_and_body() {
    let r = check_status(404, "model not found".to_string());
    match r {
        Err(ModelError::ApiError { status, body }) => {
            assert_eq!(status, 404);
            assert_eq!(body, "model not found");
        }
        _ => panic!("expected an API error"),
    }
    assert!(check_status(500, String::new()).is_err());
}

#[test]
fn test_parse_response_no_choices_is_invalid() {
    let response = ChatResponse { choices: vec![] };
    let r = OllamaChat::parse_response(response);
    match r {
        Err(ModelError::InvalidResponse(s)) => assert_eq!(s, "No choices in response"),
        _ => panic!("expected InvalidResponse"),
    }
}

#[test]
fn test_parse_response_plain_content() {
    let response = ChatResponse {
        choices: vec![Choice {
            message: ResponseMessage { content: Some("Hello!".to_string()), tool_calls: vec![] },
        }],
    };
    let m = OllamaChat::parse_response(response).unwrap();
    assert_eq!(m.content, "Hello!");
    assert!(m.tool_calls.is_empty());
}

#[test]
fn test_parse_response_missing_content_defaults_empty() {
    let response = ChatResponse {
        choices: vec![Choice {
            message: ResponseMessage { content: None, tool_calls: vec![] },
        }],
    };
    let m = OllamaChat::parse_response(response).unwrap();
    assert_eq!(m.content, "");
}

#[test]
fn test_parse_response_decodes_tool_calls() {
    let response = ChatResponse {
        choices: vec![Choice {
            message: ResponseMessage {
                content: None,
                tool_calls: vec![ResponseToolCall {
                    id: "call_9".to_string(),
                    function: FunctionCall {
                        name: "get_time".to_string(),
                        arguments: "{\"zone\":\"UTC\"}".to_string(),
                    },
                }],
            },
        }],
    };
    let m = OllamaChat::parse_response(response).unwrap();
    assert_eq!(m.tool_calls.len(), 1);
    assert_eq!(m.tool_calls[0].id, "call_9");
    assert_eq!(m.tool_calls[0].name, "get_time");
    let expected: serde_json::Value = serde_json::from_str("{\"zone\":\"UTC\"}").unwrap();
    assert_eq!(m.tool_calls[0].args, expected);
}

#[test]
fn test_parse_response_bad_arguments_soft_fail() {
    let response = ChatResponse {
        choices: vec![Choice {
            message: ResponseMessage {
                content: Some("done".to_string()),
                tool_calls: vec![ResponseToolCall {
                    id: "call_x".to_string(),
                    function: FunctionCall {
                        name: "noop".to_string(),
                        arguments: "not json at all".to_string(),
                    },
                }],
            },
        }],
    };
    let m = OllamaChat::parse_response(response).unwrap();
    assert_eq!(m.tool_calls.len(), 1);
    assert_eq!(m.tool_calls[0].args, serde_json::Value::Null);
}

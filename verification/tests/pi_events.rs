use pipeline::agent::decode::{decode_event, parse_event, EventError};
use pipeline::agent::json::{parse, JsonNumber, JsonValue};
use pipeline::agent::{AssistantMessageEvent, PiJsonEvent};

#[test]
fn test_parse_agent_start() {
    let json = r#"{"type":"agent_start"}"#;
    let event = parse_event(json).unwrap();
    assert!(matches!(event, PiJsonEvent::AgentStart));
}

#[test]
fn test_parse_agent_end() {
    let json = r#"{"type":"agent_end"}"#;
    let event = parse_event(json).unwrap();
    assert!(matches!(event, PiJsonEvent::AgentEnd));
}

#[test]
fn test_parse_session() {
    let json = r#"{"type":"session","version":3,"id":"abc","timestamp":"2024-01-01T00:00:00Z","cwd":"/test"}"#;
    let event = parse_event(json).unwrap();
    match event {
        PiJsonEvent::Session { version, id, timestamp: _, cwd } => {
            assert_eq!(version, 3);
            assert_eq!(id, "abc");
            assert_eq!(cwd, "/test");
        }
        _ => panic!("Expected Session event"),
    }
}

#[test]
fn test_parse_message_update_with_text_delta() {
    let json = r#"{"type":"message_update","assistantMessageEvent":{"type":"text_delta","contentIndex":1,"delta":"Hello"}}"#;
    let event = parse_event(json).unwrap();
    match event {
        PiJsonEvent::MessageUpdate { assistant_message_event, .. } => {
            assert!(assistant_message_event.is_some());
            match assistant_message_event.unwrap() {
                AssistantMessageEvent::TextDelta { delta, .. } => {
                    assert_eq!(delta, "Hello");
                }
                _ => panic!("Expected TextDelta"),
            }
        }
        _ => panic!("Expected MessageUpdate"),
    }
}

#[test]
fn test_parse_message_update_with_text_end() {
    let json = r#"{"type":"message_update","assistantMessageEvent":{"type":"text_end","contentIndex":1,"content":"Full text"}}"#;
    let event = parse_event(json).unwrap();
    match event {
        PiJsonEvent::MessageUpdate { assistant_message_event, .. } => {
            assert!(assistant_message_event.is_some());
            match assistant_message_event.unwrap() {
                AssistantMessageEvent::TextEnd { content, .. } => {
                    assert_eq!(content, Some("Full text".to_string()));
                }
                _ => panic!("Expected TextEnd"),
            }
        }
        _ => panic!("Expected MessageUpdate"),
    }
}

#[test]
fn test_parse_message_update_with_thinking_delta() {
    let json = r#"{"type":"message_update","assistantMessageEvent":{"type":"thinking_delta","contentIndex":0,"delta":"Thinking"}}"#;
    let event = parse_event(json).unwrap();
    match event {
        PiJsonEvent::MessageUpdate { assistant_message_event, .. } => {
            assert!(assistant_message_event.is_some());
            match assistant_message_event.unwrap() {
                AssistantMessageEvent::ThinkingDelta { delta, .. } => {
                    assert_eq!(delta, "Thinking");
                }
                _ => panic!("Expected ThinkingDelta"),
            }
        }
        _ => panic!("Expected MessageUpdate"),
    }
}

#[test]
fn test_events_are_send_sync() {
    fn assert_send_sync<T: Send + Sync>() {}
    assert_send_sync::<PiJsonEvent>();
}

/// Test: thinking_start event has contentIndex and partial message
#[test]
fn test_parse_thinking_start_event() {
    let json = r#"{
      "type": "message_update",
      "assistantMessageEvent": {
        "type": "thinking_start",
        "contentIndex": 0,
        "partial": {
          "role": "assistant",
          "content": [{
            "type": "thinking",
            "thinking": "The user",
            "thinkingSignature": "reasoning_content"
          }],
          "api": "openai-completions",
          "provider": "zai",
          "model": "glm-4.7",
          "usage": {
            "input": 0,
            "output": 0,
            "cacheRead": 0,
            "cacheWrite": 0,
            "totalTokens": 0,
            "cost": {
              "input": 0,
              "output": 0,
              "cacheRead": 0,
              "cacheWrite": 0,
              "total": 0
            }
          },
          "stopReason": "stop",
          "timestamp": 1768585654198
        }
      },
      "message": {
        "role": "assistant",
        "content": [{
          "type": "thinking",
          "thinking": "The user",
          "thinkingSignature": "reasoning_content"
        }],
        "api": "openai-completions",
        "provider": "zai",
        "model": "glm-4.7",
        "usage": {
          "input": 0,
          "output": 0,
          "cacheRead": 0,
          "cacheWrite": 0,
          "totalTokens": 0,
          "cost": {
            "input": 0,
            "output": 0,
            "cacheRead": 0,
            "cacheWrite": 0,
            "total": 0
          }
        },
        "stopReason": "stop",
        "timestamp": 1768585654198
      }
    }"#;

    let event = parse_event(json).unwrap();

    match event {
        PiJsonEvent::MessageUpdate { assistant_message_event, message } => {
            // Verify outer MessageUpdate parsed correctly
            assert!(message.is_some());
            assert_eq!(message.unwrap().role, "assistant");

            // Verify the nested AssistantMessageEvent is ThinkingStart
            match assistant_message_event {
                Some(AssistantMessageEvent::ThinkingStart {
                    content_index,
                    partial,
                }) => {
                    assert_eq!(content_index, 0);
                    assert_eq!(partial.unwrap().role, "assistant");
                }
                other => panic!("Expected ThinkingStart, got: {:?}", other),
            }
        }
        _ => panic!("Expected MessageUpdate, got: {:?}", event),
    }
}

/// Test: thinking_delta event has contentIndex, delta, and partial
#[test]
fn test_parse_thinking_delta_event() {
    let json = r#"{
      "type": "message_update",
      "assistantMessageEvent": {
        "type": "thinking_delta",
        "contentIndex": 0,
        "delta": " just said",
        "partial": {
          "role": "assistant",
          "content": [{
            "type": "thinking",
            "thinking": "The user just said",
            "thinkingSignature": "reasoning_content"
          }],
          "api": "openai-completions",
          "provider": "zai",
          "model": "glm-4.7",
          "usage": {
            "input": 0,
            "output": 0,
            "cacheRead": 0,
            "cacheWrite": 0,
            "totalTokens": 0,
            "cost": {
              "input": 0,
              "output": 0,
              "cacheRead": 0,
              "cacheWrite": 0,
              "total": 0
            }
          },
          "stopReason": "stop",
          "timestamp": 1768585654198
        }
      },
      "message": {
        "role": "assistant",
        "content": [{
          "type": "thinking",
          "thinking": "The user just said",
          "thinkingSignature": "reasoning_content"
        }],
        "api": "openai-completions",
        "provider": "zai",
        "model": "glm-4.7",
        "usage": {
          "input": 0,
          "output": 0,
          "cacheRead": 0,
          "cacheWrite": 0,
          "totalTokens": 0,
          "cost": {
            "input": 0,
            "output": 0,
            "cacheRead": 0,
            "cacheWrite": 0,
            "total": 0
          }
        },
        "stopReason": "stop",
        "timestamp": 1768585654198
      }
    }"#;

    let event = parse_event(json).unwrap();

    match event {
        PiJsonEvent::MessageUpdate { assistant_message_event, .. } => {
            match assistant_message_event {
                Some(AssistantMessageEvent::ThinkingDelta {
                    content_index,
                    delta,
                    ..
                }) => {
                    assert_eq!(content_index, 0);
                    assert_eq!(delta, " just said");
                }
                other => panic!("Expected ThinkingDelta, got: {:?}", other),
            }
        }
        _ => panic!("Expected MessageUpdate, got: {:?}", event),
    }
}

/// Test: text_start event has contentIndex and partial message
#[test]
fn test_parse_text_start_event() {
    let json = r#"{
      "type": "message_update",
      "assistantMessageEvent": {
        "type": "text_start",
        "contentIndex": 1,
        "partial": {
          "role": "assistant",
          "content": [{
            "type": "thinking",
            "thinking": "The user said hi",
            "thinkingSignature": "reasoning_content"
          }, {
            "type": "text",
            "text": "Hello"
          }],
          "api": "openai-completions",
          "provider": "zai",
          "model": "glm-4.7",
          "usage": {
            "input": 0,
            "output": 0,
            "cacheRead": 0,
            "cacheWrite": 0,
            "totalTokens": 0,
            "cost": {
              "input": 0,
              "output": 0,
              "cacheRead": 0,
              "cacheWrite": 0,
              "total": 0
            }
          },
          "stopReason": "stop",
          "timestamp": 1768585654198
        }
      },
      "message": {
        "role": "assistant",
        "content": [{
          "type": "thinking",
          "thinking": "The user said hi",
          "thinkingSignature": "reasoning_content"
        }, {
          "type": "text",
          "text": "Hello"
        }],
        "api": "openai-completions",
        "provider": "zai",
        "model": "glm-4.7",
        "usage": {
          "input": 0,
          "output": 0,
          "cacheRead": 0,
          "cacheWrite": 0,
          "totalTokens": 0,
          "cost": {
            "input": 0,
            "output": 0,
            "cacheRead": 0,
            "cacheWrite": 0,
            "total": 0
          }
        },
        "stopReason": "stop",
        "timestamp": 1768585654198
      }
    }"#;

    let event = parse_event(json).unwrap();

    match event {
        PiJsonEvent::MessageUpdate { assistant_message_event, .. } => {
            match assistant_message_event {
                Some(AssistantMessageEvent::TextStart {
                    content_index,
                    ..
                }) => {
                    assert_eq!(content_index, 1);
                }
                other => panic!("Expected TextStart, got: {:?}", other),
            }
        }
        _ => panic!("Expected MessageUpdate, got: {:?}", event),
    }
}

/// Test: thinking_end event has contentIndex and content string
#[test]
fn test_parse_thinking_end_event() {
    let json = r#"{
      "type": "message_update",
      "assistantMessageEvent": {
        "type": "thinking_end",
        "contentIndex": 0,
        "content": "The user said hi",
        "partial": {
          "role": "assistant",
          "content": [{
            "type": "thinking",
            "thinking": "The user said hi",
            "thinkingSignature": "reasoning_content"
          }],
          "api": "openai-completions",
          "provider": "zai",
          "model": "glm-4.7",
          "usage": {
            "input": 0,
            "output": 0,
            "cacheRead": 0,
            "cacheWrite": 0,
            "totalTokens": 0,
            "cost": {
              "input": 0,
              "output": 0,
              "cacheRead": 0,
              "cacheWrite": 0,
              "total": 0
            }
          },
          "stopReason": "stop",
          "timestamp": 1768585654198
        }
      },
      "message": {
        "role": "assistant",
        "content": [{
          "type": "thinking",
          "thinking": "The user said hi",
          "thinkingSignature": "reasoning_content"
        }],
        "api": "openai-completions",
        "provider": "zai",
        "model": "glm-4.7",
        "usage": {
          "input": 0,
          "output": 0,
          "cacheRead": 0,
          "cacheWrite": 0,
          "totalTokens": 0,
          "cost": {
            "input": 0,
            "output": 0,
            "cacheRead": 0,
            "cacheWrite": 0,
            "total": 0
          }
        },
        "stopReason": "stop",
        "timestamp": 1768585654198
      }
    }"#;

    let event = parse_event(json).unwrap();

    match event {
        PiJsonEvent::MessageUpdate { assistant_message_event, .. } => {
            match assistant_message_event {
                Some(AssistantMessageEvent::ThinkingEnd {
                    content_index,
                    content,
                    ..
                }) => {
                    assert_eq!(content_index, 0);
                    assert_eq!(content, Some("The user said hi".to_string()));
                }
                other => panic!("Expected ThinkingEnd, got: {:?}", other),
            }
        }
        _ => panic!("Expected MessageUpdate, got: {:?}", event),
    }
}

/// Test: text_end event has contentIndex and content string
#[test]
fn test_parse_text_end_event() {
    let json = r#"{
      "type": "message_update",
      "assistantMessageEvent": {
        "type": "text_end",
        "contentIndex": 1,
        "content": "Hello world",
        "partial": {
          "role": "assistant",
          "content": [{
            "type": "thinking",
            "thinking": "The user said hi",
            "thinkingSignature": "reasoning_content"
          }, {
            "type": "text",
            "text": "Hello world"
          }],
          "api": "openai-completions",
          "provider": "zai",
          "model": "glm-4.7",
          "usage": {
            "input": 0,
            "output": 0,
            "cacheRead": 0,
            "cacheWrite": 0,
            "totalTokens": 0,
            "cost": {
              "input": 0,
              "output": 0,
              "cacheRead": 0,
              "cacheWrite": 0,
              "total": 0
            }
          },
          "stopReason": "stop",
          "timestamp": 1768585654198
        }
      },
      "message": {
        "role": "assistant",
        "content": [{
          "type": "thinking",
          "thinking": "The user said hi",
          "thinkingSignature": "reasoning_content"
        }, {
          "type": "text",
          "text": "Hello world"
        }],
        "api": "openai-completions",
        "provider": "zai",
        "model": "glm-4.7",
        "usage": {
          "input": 0,
          "output": 0,
          "cacheRead": 0,
          "cacheWrite": 0,
          "totalTokens": 0,
          "cost": {
            "input": 0,
            "output": 0,
            "cacheRead": 0,
            "cacheWrite": 0,
            "total": 0
          }
        },
        "stopReason": "stop",
        "timestamp": 1768585654198
      }
    }"#;

    let event = parse_event(json).unwrap();

    match event {
        PiJsonEvent::MessageUpdate { assistant_message_event, .. } => {
            match assistant_message_event {
                Some(AssistantMessageEvent::TextEnd {
                    content_index,
                    content,
                    ..
                }) => {
                    assert_eq!(content_index, 1);
                    assert_eq!(content, Some("Hello world".to_string()));
                }
                other => panic!("Expected TextEnd, got: {:?}", other),
            }
        }
        _ => panic!("Expected MessageUpdate, got: {:?}", event),
    }
}

/// Test: toolcall_start event has contentIndex and partial message with toolCall
#[test]
fn test_parse_toolcall_start_event() {
    let json = r#"{
      "type": "message_update",
      "assistantMessageEvent": {
        "type": "toolcall_start",
        "contentIndex": 1,
        "partial": {
          "role": "assistant",
          "content": [{
            "type": "thinking",
            "thinking": "Need to list files",
            "thinkingSignature": "reasoning_content"
          }, {
            "type": "toolCall",
            "id": "call_test123",
            "name": "bash",
            "arguments": {
              "command": "ls"
            }
          }],
          "api": "openai-completions",
          "provider": "zai",
          "model": "glm-4.7",
          "usage": {
            "input": 0,
            "output": 0,
            "cacheRead": 0,
            "cacheWrite": 0,
            "totalTokens": 0,
            "cost": {
              "input": 0,
              "output": 0,
              "cacheRead": 0,
              "cacheWrite": 0,
              "total": 0
            }
          },
          "stopReason": "stop",
          "timestamp": 1768585654198
        }
      },
      "message": {
        "role": "assistant",
        "content": [{
          "type": "thinking",
          "thinking": "Need to list files",
          "thinkingSignature": "reasoning_content"
        }, {
          "type": "toolCall",
          "id": "call_test123",
          "name": "bash",
          "arguments": {
            "command": "ls"
          }
        }],
        "api": "openai-completions",
        "provider": "zai",
        "model": "glm-4.7",
        "usage": {
          "input": 0,
          "output": 0,
          "cacheRead": 0,
          "cacheWrite": 0,
          "totalTokens": 0,
          "cost": {
            "input": 0,
            "output": 0,
            "cacheRead": 0,
            "cacheWrite": 0,
            "total": 0
          }
        },
        "stopReason": "stop",
        "timestamp": 1768585654198
      }
    }"#;

    let event = parse_event(json).unwrap();

    match event {
        PiJsonEvent::MessageUpdate { assistant_message_event, .. } => {
            match assistant_message_event {
                Some(AssistantMessageEvent::ToolcallStart {
                    content_index,
                    partial,
                }) => {
                    assert_eq!(content_index, 1);
                    assert_eq!(partial.unwrap().role, "assistant");
                }
                other => panic!("Expected ToolcallStart, got: {:?}", other),
            }
        }
        _ => panic!("Expected MessageUpdate, got: {:?}", event),
    }
}

/// Test: toolcall_delta event has contentIndex, delta, and partial
#[test]
fn test_parse_toolcall_delta_event() {
    let json = r#"{
      "type": "message_update",
      "assistantMessageEvent": {
        "type": "toolcall_delta",
        "contentIndex": 1,
        "delta": "{\"command\":\"ls -la\"}",
        "partial": {
          "role": "assistant",
          "content": [{
            "type": "toolCall",
            "id": "call_test123",
            "name": "bash",
            "arguments": {
              "command": "ls -la"
            }
          }],
          "api": "openai-completions",
          "provider": "zai",
          "model": "glm-4.7",
          "usage": {
            "input": 0,
            "output": 0,
            "cacheRead": 0,
            "cacheWrite": 0,
            "totalTokens": 0,
            "cost": {
              "input": 0,
              "output": 0,
              "cacheRead": 0,
              "cacheWrite": 0,
              "total": 0
            }
          },
          "stopReason": "stop",
          "timestamp": 1768585654198
        }
      },
      "message": {
        "role": "assistant",
        "content": [{
          "type": "toolCall",
          "id": "call_test123",
          "name": "bash",
          "arguments": {
            "command": "ls -la"
          }
        }],
        "api": "openai-completions",
        "provider": "zai",
        "model": "glm-4.7",
        "usage": {
          "input": 0,
          "output": 0,
          "cacheRead": 0,
          "cacheWrite": 0,
          "totalTokens": 0,
          "cost": {
            "input": 0,
            "output": 0,
            "cacheRead": 0,
            "cacheWrite": 0,
            "total": 0
          }
        },
        "stopReason": "stop",
        "timestamp": 1768585654198
      }
    }"#;

    let event = parse_event(json).unwrap();

    match event {
        PiJsonEvent::MessageUpdate { assistant_message_event, .. } => {
            match assistant_message_event {
                Some(AssistantMessageEvent::ToolcallDelta {
                    content_index,
                    delta,
                    ..
                }) => {
                    assert_eq!(content_index, 1);
                    assert_eq!(delta, r#"{"command":"ls -la"}"#);
                }
                other => panic!("Expected ToolcallDelta, got: {:?}", other),
            }
        }
        _ => panic!("Expected MessageUpdate, got: {:?}", event),
    }
}

/// Test: toolcall_end event has contentIndex, toolCall, and partial
#[test]
fn test_parse_toolcall_end_event() {
    let json = r#"{
      "type": "message_update",
      "assistantMessageEvent": {
        "type": "toolcall_end",
        "contentIndex": 1,
        "toolCall": {
          "type": "toolCall",
          "id": "call_test123",
          "name": "bash",
          "arguments": {
            "command": "ls -la"
          }
        },
        "partial": {
          "role": "assistant",
          "content": [{
            "type": "toolCall",
            "id": "call_test123",
            "name": "bash",
            "arguments": {
              "command": "ls -la"
            }
          }],
          "api": "openai-completions",
          "provider": "zai",
          "model": "glm-4.7",
          "usage": {
            "input": 0,
            "output": 0,
            "cacheRead": 0,
            "cacheWrite": 0,
            "totalTokens": 0,
            "cost": {
              "input": 0,
              "output": 0,
              "cacheRead": 0,
              "cacheWrite": 0,
              "total": 0
            }
          },
          "stopReason": "stop",
          "timestamp": 1768585654198
        }
      },
      "message": {
        "role": "assistant",
        "content": [{
          "type": "toolCall",
          "id": "call_test123",
          "name": "bash",
          "arguments": {
            "command": "ls -la"
          }
        }],
        "api": "openai-completions",
        "provider": "zai",
        "model": "glm-4.7",
        "usage": {
          "input": 0,
          "output": 0,
          "cacheRead": 0,
          "cacheWrite": 0,
          "totalTokens": 0,
          "cost": {
            "input": 0,
            "output": 0,
            "cacheRead": 0,
            "cacheWrite": 0,
            "total": 0
          }
        },
        "stopReason": "stop",
        "timestamp": 1768585654198
      }
    }"#;

    let event = parse_event(json).unwrap();

    match event {
        PiJsonEvent::MessageUpdate { assistant_message_event, .. } => {
            match assistant_message_event {
                Some(AssistantMessageEvent::ToolcallEnd {
                    content_index,
                    tool_call,
                    partial,
                }) => {
                    assert_eq!(content_index, 1);
                    let tool_call = tool_call.unwrap();
                    assert_eq!(tool_call.name, "bash");
                    assert_eq!(tool_call.id, "call_test123");
                }
                other => panic!("Expected ToolcallEnd, got: {:?}", other),
            }
        }
        _ => panic!("Expected MessageUpdate, got: {:?}", event),
    }
}

/// Test: tool_execution_start event has toolCallId, toolName, and args
#[test]
fn test_parse_tool_execution_start_event() {
    let json = r#"{
      "type": "tool_execution_start",
      "toolCallId": "call_test123",
      "toolName": "bash",
      "args": {
        "command": "ls -la"
      }
    }"#;

    let event = parse_event(json).unwrap();

    match event {
        PiJsonEvent::ToolExecutionStart {
            tool_call_id,
            tool_name,
            args,
        } => {
            assert_eq!(tool_call_id, "call_test123");
            assert_eq!(tool_name, "bash");
        }
        _ => panic!("Expected ToolExecutionStart, got: {:?}", event),
    }
}

/// Test: tool_execution_update event has toolCallId, toolName, args, and partialResult
#[test]
fn test_parse_tool_execution_update_event() {
    let json = r#"{
      "type": "tool_execution_update",
      "toolCallId": "call_test123",
      "toolName": "bash",
      "args": {
        "command": "ls -la"
      },
      "partialResult": {
        "content": [{
          "type": "text",
          "text": "total 280\ndrwxr-xr-x"
        }]
      }
    }"#;

    let event = parse_event(json).unwrap();

    match event {
        PiJsonEvent::ToolExecutionUpdate {
            tool_call_id,
            tool_name,
            ..
        } => {
            assert_eq!(tool_call_id, "call_test123");
            assert_eq!(tool_name, "bash");
        }
        _ => panic!("Expected ToolExecutionUpdate, got: {:?}", event),
    }
}

/// Test: tool_execution_end event has toolCallId, toolName, result, and isError
#[test]
fn test_parse_tool_execution_end_event() {
    let json = r#"{
      "type": "tool_execution_end",
      "toolCallId": "call_test123",
      "toolName": "bash",
      "result": {
        "content": [{
          "type": "text",
          "text": "total 280\ndrwxr-xr-x   21 kaofelix  staff    672 Jan 16 18:28 .\n"
        }]
      },
      "isError": false
    }"#;

    let event = parse_event(json).unwrap();

    match event {
        PiJsonEvent::ToolExecutionEnd {
            tool_call_id,
            tool_name,
            is_error,
            ..
        } => {
            assert_eq!(tool_call_id, "call_test123");
            assert_eq!(tool_name, "bash");
            assert_eq!(is_error, false);
        }
        _ => panic!("Expected ToolExecutionEnd, got: {:?}", event),
    }
}

/// Test: turn_start event (simple no-payload event)
#[test]
fn test_parse_turn_start_event() {
    let json = r#"{"type":"turn_start"}"#;
    let event = parse_event(json).unwrap();
    assert!(matches!(event, PiJsonEvent::TurnStart));
}

/// Test: turn_end event has message and toolResults
#[test]
fn test_parse_turn_end_event() {
    let json = r#"{
      "type": "turn_end",
      "message": {
        "role": "assistant",
        "content": [{
          "type": "toolCall",
          "id": "call_test123",
          "name": "bash",
          "arguments": {
            "command": "ls -la"
          }
        }],
        "api": "openai-completions",
        "provider": "zai",
        "model": "glm-4.7",
        "usage": {
          "input": 29,
          "output": 67,
          "cacheRead": 1575,
          "cacheWrite": 0,
          "totalTokens": 1671,
          "cost": {
            "input": 0.0000174,
            "output": 0.0001474,
            "cacheRead": 0.00017325,
            "cacheWrite": 0,
            "total": 0.00033805
          }
        },
        "stopReason": "toolUse",
        "timestamp": 1768587010813
      },
      "toolResults": [{
        "role": "toolResult",
        "toolCallId": "call_test123",
        "toolName": "bash",
        "content": [{
          "type": "text",
          "text": "total 280\ndrwxr-xr-x"
        }],
        "isError": false,
        "timestamp": 1768587010811
      }]
    }"#;

    let event = parse_event(json).unwrap();

    match event {
        PiJsonEvent::TurnEnd { message, tool_results } => {
            assert!(message.is_some());
            assert_eq!(message.unwrap().role, "assistant");
            assert_eq!(tool_results.len(), 1);
        }
        _ => panic!("Expected TurnEnd, got: {:?}", event),
    }
}

#[test]
fn snake_case_names_are_read_like_camel_case_names() {
    let camel = parse_event(
        r#"{"type":"tool_execution_end","toolCallId":"c1","toolName":"bash","result":"ok","isError":true}"#,
    )
    .unwrap();
    let snake = parse_event(
        r#"{"type":"tool_execution_end","tool_call_id":"c1","tool_name":"bash","result":"ok","is_error":true}"#,
    )
    .unwrap();
    for event in [camel, snake] {
        match event {
            PiJsonEvent::ToolExecutionEnd { tool_call_id, tool_name, result, is_error } => {
                assert_eq!(tool_call_id, "c1");
                assert_eq!(tool_name, "bash");
                assert!(is_error);
                assert!(matches!(result, JsonValue::String(s) if s == "ok"));
            }
            other => panic!("expected the end of a tool execution, got {:?}", other),
        }
    }
}

#[test]
fn nested_event_reads_both_spellings() {
    let outer_snake = parse_event(
        r#"{"type":"message_update","assistant_message_event":{"type":"text_delta","content_index":2,"delta":"Hi"}}"#,
    )
    .unwrap();
    match outer_snake {
        PiJsonEvent::MessageUpdate {
            assistant_message_event: Some(AssistantMessageEvent::TextDelta { content_index, delta }),
            message: None,
        } => {
            assert_eq!(content_index, 2);
            assert_eq!(delta, "Hi");
        }
        other => panic!("expected a text delta, got {:?}", other),
    }
}

#[test]
fn missing_members_have_their_usual_values() {
    match parse_event(r#"{"type":"tool_execution_end","toolCallId":"c","toolName":"t"}"#).unwrap() {
        PiJsonEvent::ToolExecutionEnd { result, is_error, .. } => {
            assert!(!is_error);
            assert!(matches!(result, JsonValue::Null));
        }
        other => panic!("unexpected event {:?}", other),
    }
    match parse_event(r#"{"type":"tool_execution_update","toolCallId":"c","toolName":"t","args":{}}"#)
        .unwrap()
    {
        PiJsonEvent::ToolExecutionUpdate { partial_result, .. } => {
            assert!(matches!(partial_result, JsonValue::Null));
        }
        other => panic!("unexpected event {:?}", other),
    }
    match parse_event(r#"{"type":"message_update"}"#).unwrap() {
        PiJsonEvent::MessageUpdate { assistant_message_event: None, message: None } => {}
        other => panic!("unexpected event {:?}", other),
    }
    match parse_event(
        r#"{"type":"message_update","assistantMessageEvent":{"type":"thinking_start","contentIndex":0}}"#,
    )
    .unwrap()
    {
        PiJsonEvent::MessageUpdate {
            assistant_message_event:
                Some(AssistantMessageEvent::ThinkingStart { content_index: 0, partial: None }),
            ..
        } => {}
        other => panic!("unexpected event {:?}", other),
    }
}

#[test]
fn unknown_members_are_passed_over() {
    let event = parse_event(r#"{"extra":[1,2,3],"type":"agent_end","more":{"a":null}}"#).unwrap();
    assert!(matches!(event, PiJsonEvent::AgentEnd));
    let event = parse_event(r#"{"type":"message_start","message":{"role":"assistant"}}"#).unwrap();
    assert!(matches!(event, PiJsonEvent::MessageStart));
    let event = parse_event(r#"{"type":"message_end"}"#).unwrap();
    assert!(matches!(event, PiJsonEvent::MessageEnd));
}

#[test]
fn unknown_kinds_are_refused_as_unknown() {
    match parse_event(r#"{"type":"heartbeat","n":1}"#) {
        Err(EventError::UnknownType(kind)) => assert_eq!(kind, "heartbeat"),
        other => panic!("expected an unknown kind, got {:?}", other),
    }
    match parse_event(
        r#"{"type":"message_update","assistantMessageEvent":{"type":"citation_start"}}"#,
    )
    .unwrap()
    {
        PiJsonEvent::MessageUpdate {
            assistant_message_event: Some(AssistantMessageEvent::Other),
            ..
        } => {}
        other => panic!("unexpected event {:?}", other),
    }
}

#[test]
fn what_is_no_event_is_refused() {
    assert!(matches!(parse_event("not json at all"), Err(EventError::InvalidJson(_))));
    assert!(matches!(parse_event(r#"{"type":"agent_start""#), Err(EventError::InvalidJson(_))));
    assert!(matches!(parse_event("[1,2]"), Err(EventError::NotAnEvent)));
    assert!(matches!(parse_event(r#"{"kind":"agent_start"}"#), Err(EventError::NotAnEvent)));
    assert!(matches!(parse_event(r#"{"type":7}"#), Err(EventError::NotAnEvent)));
    assert!(matches!(
        parse_event(r#"{"type":"session","version":"3","id":"a","timestamp":"t","cwd":"/"}"#),
        Err(EventError::InvalidField)
    ));
    assert!(matches!(
        parse_event(r#"{"type":"tool_execution_start","toolCallId":"c","toolName":"t"}"#),
        Err(EventError::InvalidField)
    ));
    assert!(matches!(
        parse_event(r#"{"type":"turn_end","message":null}"#),
        Err(EventError::InvalidField)
    ));
    assert!(matches!(
        parse_event(
            r#"{"type":"message_update","assistantMessageEvent":{"type":"text_delta","delta":"x"}}"#
        ),
        Err(EventError::InvalidField)
    ));
    assert!(matches!(
        parse_event(
            r#"{"type":"message_update","assistantMessageEvent":{"type":"text_delta","contentIndex":-1,"delta":"x"}}"#
        ),
        Err(EventError::InvalidField)
    ));
}

#[test]
fn json_values_are_read_as_they_stand() {
    let value = parse(r#"{"a":[1,-2,1.5,"x",true,null],"b":{"c":"d"}}"#).unwrap();
    let a = value.get("a").unwrap().as_array().unwrap();
    assert_eq!(a.len(), 6);
    assert!(matches!(a[0], JsonValue::Number(JsonNumber::Unsigned(1))));
    assert!(matches!(a[1], JsonValue::Number(JsonNumber::Signed(-2))));
    assert!(matches!(&a[2], JsonValue::Number(JsonNumber::Decimal(s)) if s == "1.5"));
    assert_eq!(a[3].as_str().unwrap(), "x");
    assert!(matches!(a[4], JsonValue::Bool(true)));
    assert!(matches!(a[5], JsonValue::Null));
    assert_eq!(value.get("b").unwrap().get("c").unwrap().as_str().unwrap(), "d");
    assert_eq!(value.get("b").unwrap().text_at("c"), "d");
    assert_eq!(value.text_at("a"), "");
    assert_eq!(value.text_at("missing"), "");
    assert!(value.get("missing").is_none());
    assert!(a[0].get("a").is_none());
    assert!(parse("{").is_err());
    assert!(!parse("{").unwrap_err().is_empty());
    assert_ne!(parse("{").unwrap_err(), "{");
    assert!(parse("").is_err());
    assert!(parse("1 2").is_err());
}

#[test]
fn decode_event_takes_the_first_member_of_a_name() {
    let json = JsonValue::Object(vec![
        ("type".to_string(), JsonValue::String("agent_start".to_string())),
        ("type".to_string(), JsonValue::String("agent_end".to_string())),
    ]);
    assert!(matches!(decode_event(json), Ok(PiJsonEvent::AgentStart)));
    let cloned = JsonValue::Array(vec![JsonValue::Object(vec![(
        "k".to_string(),
        JsonValue::Number(JsonNumber::Unsigned(7)),
    )])])
    .clone();
    match cloned {
        JsonValue::Array(items) => {
            assert!(matches!(items[0].get("k"), Some(JsonValue::Number(JsonNumber::Unsigned(7)))))
        }
        other => panic!("unexpected value {:?}", other),
    }
}

#[test]
fn a_copy_of_a_json_value_is_the_same_value() {
    let value = parse(r#"{"n": null, "t": true, "u": 7, "i": -3, "d": 2.5, "s": "text", "a": [1, "two", [3]], "o": {"k": "v"}}"#)
        .expect("the text is JSON");
    let copy = value.clone();
    assert_eq!(format!("{:?}", copy), format!("{:?}", value));
    match (&value, &copy) {
        (JsonValue::Object(members), JsonValue::Object(copied)) => {
            assert_eq!(members.len(), 8);
            assert_eq!(copied.len(), 8);
            let names: Vec<&str> = copied.iter().map(|(name, _)| name.as_str()).collect();
            assert_eq!(names, vec!["a", "d", "i", "n", "o", "s", "t", "u"]);
            assert!(matches!(&copied[1].1, JsonValue::Number(JsonNumber::Decimal(s)) if s == "2.5"));
        }
        other => panic!("unexpected values {:?}", other),
    }
}

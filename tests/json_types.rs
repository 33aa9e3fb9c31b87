use booker::json::JsonValue;
use booker::types::message::{
    AssistantMessage, Message, SystemMessage, ToolCall, ToolFunction, ToolMessage, UserMessage,
};
use booker::types::request::{ChatRequest, JSONSchema, JsonSchemaProp, ResponseFormat, Tool, ToolChoice};
use booker::types::response::{
    ChatCompletionChoice, FinishReason, InputTokensDetails, OutputTokensDetails, UsageStats,
};
use booker::types::ModelId;
use booker::types::ToJson;
use rand::Rng;

const N_TESTS: usize = 32;

fn gen_string(rng: &mut impl Rng) -> String {
    let len = rng.gen_range(0..12);
    (0..len)
        .map(|_| {
            let options = ['a', 'Z', '7', ' ', '"', '\\', '\n', '\u{1}', 'é', '✓'];
            options[rng.gen_range(0..options.len())]
        })
        .collect()
}

fn gen_opt_string(rng: &mut impl Rng) -> Option<String> {
    if rng.gen() {
        Some(gen_string(rng))
    } else {
        None
    }
}

fn gen_tool_function(rng: &mut impl Rng) -> ToolFunction {
    ToolFunction { name: gen_string(rng), arguments: gen_string(rng) }
}

fn gen_tool_call(rng: &mut impl Rng) -> ToolCall {
    ToolCall { id: gen_string(rng), function: gen_tool_function(rng) }
}

fn gen_user_message(rng: &mut impl Rng) -> UserMessage {
    UserMessage { content: gen_string(rng), name: gen_opt_string(rng) }
}

fn gen_system_message(rng: &mut impl Rng) -> SystemMessage {
    SystemMessage { content: gen_string(rng), name: gen_opt_string(rng) }
}

fn gen_tool_message(rng: &mut impl Rng) -> ToolMessage {
    ToolMessage { content: gen_string(rng), tool_call_id: gen_string(rng) }
}

fn gen_assistant_message(rng: &mut impl Rng) -> AssistantMessage {
    let tool_calls = if rng.gen_bool(0.2) {
        let n = rng.gen_range(0..=4);
        Some((0..n).map(|_| gen_tool_call(rng)).collect())
    } else {
        None
    };
    AssistantMessage { content: gen_opt_string(rng), name: gen_opt_string(rng), tool_calls }
}

fn gen_message(rng: &mut impl Rng) -> Message {
    match rng.gen_range(0..3) {
        0 => Message::UserMessage(gen_user_message(rng)),
        1 => Message::AssistantMessage(gen_assistant_message(rng)),
        _ => Message::ToolMessage(gen_tool_message(rng)),
    }
}

fn object(members: Vec<(&str, JsonValue)>) -> JsonValue {
    JsonValue::Object(members.into_iter().map(|(k, v)| (k.to_string(), v)).collect())
}

fn text(s: &str) -> JsonValue {
    JsonValue::Str(s.to_string())
}

fn gen_schema(rng: &mut impl Rng) -> JSONSchema {
    if rng.gen() {
        JSONSchema(object(vec![]))
    } else {
        JSONSchema(object(vec![("type", text("string"))]))
    }
}

fn gen_schema_prop(rng: &mut impl Rng) -> JsonSchemaProp {
    JsonSchemaProp {
        name: gen_string(rng),
        description: gen_opt_string(rng),
        schema: gen_schema(rng),
        strict: if rng.gen() { Some(rng.gen()) } else { None },
    }
}

fn gen_response_format(rng: &mut impl Rng) -> ResponseFormat {
    match rng.gen_range(0..=2) {
        0 => ResponseFormat::JSON,
        1 => ResponseFormat::Text,
        _ => ResponseFormat::JsonSchema(gen_schema_prop(rng)),
    }
}

fn gen_tool(rng: &mut impl Rng) -> Tool {
    Tool {
        description: gen_opt_string(rng),
        name: gen_string(rng),
        parameters: if rng.gen() { Some(gen_schema(rng)) } else { None },
    }
}

#[test]
fn ping_pong_tool_call() {
    let mut rng = rand::thread_rng();
    for _ in 0..N_TESTS {
        let value = gen_tool_call(&mut rng);
        let copy = ToolCall::from_json(&value.to_json()).unwrap();
        assert_eq!(value, copy);
    }
}

#[test]
fn ping_pong_tool_function() {
    let mut rng = rand::thread_rng();
    for _ in 0..N_TESTS {
        let value = gen_tool_function(&mut rng);
        let copy = ToolFunction::from_json(&value.to_json()).unwrap();
        assert_eq!(value, copy);
    }
}

#[test]
fn ping_pong_message() {
    let mut rng = rand::thread_rng();
    for _ in 0..N_TESTS {
        let value = gen_message(&mut rng);
        let copy = Message::from_json(&value.to_json()).unwrap();
        assert_eq!(value, copy);
    }
}

#[test]
fn ping_pong_system_message() {
    let mut rng = rand::thread_rng();
    for _ in 0..N_TESTS {
        let value = gen_system_message(&mut rng);
        let copy = SystemMessage::from_json(&value.to_json()).unwrap();
        assert_eq!(value, copy);
    }
}

#[test]
fn ping_pong_user_message() {
    let mut rng = rand::thread_rng();
    for _ in 0..N_TESTS {
        let value = gen_user_message(&mut rng);
        let copy = UserMessage::from_json(&value.to_json()).unwrap();
        assert_eq!(value, copy);
    }
}

#[test]
fn ping_pong_assistant_message() {
    let mut rng = rand::thread_rng();
    for _ in 0..N_TESTS {
        let value = gen_assistant_message(&mut rng);
        let copy = AssistantMessage::from_json(&value.to_json()).unwrap();
        assert_eq!(value, copy);
    }
}

#[test]
fn ping_pong_tool_message() {
    let mut rng = rand::thread_rng();
    for _ in 0..N_TESTS {
        let value = gen_tool_message(&mut rng);
        let copy = ToolMessage::from_json(&value.to_json()).unwrap();
        assert_eq!(value, copy);
    }
}

#[test]
fn ping_pong_response_format() {
    let mut rng = rand::thread_rng();
    for _ in 0..N_TESTS {
        let value = gen_response_format(&mut rng);
        let copy = ResponseFormat::from_json(&value.to_json()).unwrap();
        assert_eq!(value, copy);
    }
}

#[test]
fn ping_pong_tool() {
    let mut rng = rand::thread_rng();
    for _ in 0..N_TESTS {
        let value = gen_tool(&mut rng);
        let copy = Tool::from_json(&value.to_json()).unwrap();
        assert_eq!(value, copy);
    }
}

#[test]
fn test_json_schema_prop_from_json() {
    let json = object(vec![
        ("name", text("test")),
        ("description", text("a test schema")),
        (
            "schema",
            object(vec![
                ("type", text("object")),
                ("properties", object(vec![("foo", object(vec![("type", text("string"))]))])),
            ]),
        ),
        ("strict", JsonValue::Bool(true)),
    ]);

    let prop = JsonSchemaProp::from_json(&json).unwrap();
    assert_eq!(prop.name, "test");
    assert_eq!(prop.description, Some("a test schema".to_string()));
    assert_eq!(prop.strict, Some(true));
}

#[test]
fn test_response_format_to_json() {
    let format = ResponseFormat::JSON;
    assert_eq!(format.to_json(), object(vec![("type", text("json_object"))]));

    let format = ResponseFormat::Text;
    assert_eq!(format.to_json(), object(vec![("type", text("text"))]));

    let schema = JsonSchemaProp {
        name: "test".to_string(),
        description: None,
        schema: JSONSchema(object(vec![("type", text("string"))])),
        strict: None,
    };
    let format = ResponseFormat::JsonSchema(schema);
    assert_eq!(
        format.to_json(),
        object(vec![
            (
                "json_schema",
                object(vec![
                    ("name", text("test")),
                    ("schema", object(vec![("type", text("string"))])),
                ]),
            ),
            ("type", text("json_schema")),
        ])
    );
}

#[test]
fn test_response_format_from_json() {
    let json = object(vec![("type", text("json_object"))]);
    let format = ResponseFormat::from_json(&json).unwrap();
    assert_eq!(format, ResponseFormat::JSON);

    let json = object(vec![("type", text("text"))]);
    let format = ResponseFormat::from_json(&json).unwrap();
    assert_eq!(format, ResponseFormat::Text);

    let json = object(vec![
        ("type", text("json_schema")),
        (
            "json_schema",
            object(vec![
                ("name", text("test")),
                ("schema", object(vec![("type", text("string"))])),
            ]),
        ),
    ]);
    let format = ResponseFormat::from_json(&json).unwrap();
    let expected_schema = JsonSchemaProp {
        name: "test".to_string(),
        description: None,
        schema: JSONSchema(object(vec![("type", text("string"))])),
        strict: None,
    };
    assert_eq!(format, ResponseFormat::JsonSchema(expected_schema));
}

fn gen_chat_request(rng: &mut impl Rng) -> ChatRequest {
    let models = ModelId::values();
    let model = models[rng.gen_range(0..models.len())];
    let mut result = ChatRequest::new(model, vec![gen_message(rng), gen_message(rng)]);
    if rng.gen() {
        result = result.with_response_format(gen_response_format(rng));
    }
    if rng.gen() {
        result = result.with_seed(rng.gen());
    }
    if rng.gen() {
        result = result.with_store(rng.gen());
    }
    if rng.gen() {
        result = result.with_tools(vec![gen_tool(rng), gen_tool(rng)]);
    }
    if rng.gen() {
        result = result.with_tool_choice(ToolChoice::Auto);
    }
    if rng.gen() {
        result = result.with_previous_response_id(gen_string(rng));
    }
    if rng.gen() {
        result = result.with_instructions(gen_string(rng));
    }
    result
}

#[test]
fn ping_pong_chat_request() {
    let mut rng = rand::thread_rng();
    for _ in 0..N_TESTS {
        let value = gen_chat_request(&mut rng);
        let copy = ChatRequest::from_json(&value.to_json()).unwrap();
        assert_eq!(value, copy);
    }
}

#[test]
fn ping_pong_usage_stats() {
    let mut rng = rand::thread_rng();
    for _ in 0..N_TESTS {
        let value = UsageStats {
            input_tokens: rng.gen(),
            input_tokens_details: Some(InputTokensDetails { cached_tokens: Some(rng.gen()) }),
            output_tokens: rng.gen(),
            output_tokens_details: Some(OutputTokensDetails { reasoning_tokens: Some(rng.gen()) }),
            total_tokens: rng.gen(),
        };
        let copy = UsageStats::from_json(&value.to_json()).unwrap();
        assert_eq!(value, copy);
    }
}

#[test]
fn ping_pong_finish_reason() {
    let mut rng = rand::thread_rng();
    for _ in 0..N_TESTS {
        let value = if rng.gen() { FinishReason::Stop } else { FinishReason::ToolCalls };
        let copy = FinishReason::from_json(&value.to_json()).unwrap();
        assert_eq!(value, copy);
    }
}

#[test]
fn ping_pong_chat_completion_choice() {
    let mut rng = rand::thread_rng();
    for _ in 0..N_TESTS {
        let value = ChatCompletionChoice {
            id: Some(gen_string(&mut rng)),
            output_type: Some("function_call".to_string()),
            status: Some("completed".to_string()),
            name: Some("test_function".to_string()),
            arguments: Some("{}".to_string()),
            content: Some(text("Hello!")),
            summary: Some(JsonValue::Array(vec![])),
            role: Some("assistant".to_string()),
        };
        let copy = ChatCompletionChoice::from_json(&value.to_json()).unwrap();
        assert_eq!(value, copy);
    }
}

#[test]
fn decoding_errors() {
    assert_eq!(UserMessage::from_json(&JsonValue::Null), Err(booker::types::Error::InvalidJsonStructure));
    assert_eq!(
        ResponseFormat::from_json(&object(vec![("type", text("xml"))])),
        Err(booker::types::Error::InvalidResponseFormat)
    );
    assert_eq!(ToolChoice::from_json(&text("none")), Err(booker::types::Error::InvalidToolChoice));
    assert_eq!(FinishReason::from_json(&text("length")), Err(booker::types::Error::InvalidFinishReason));
    assert_eq!(
        JsonSchemaProp::from_json(&object(vec![("name", text("n")), ("strict", text("yes"))])),
        Err(booker::types::Error::JsonExpectedBool)
    );
    assert_eq!(
        JsonSchemaProp::from_json(&object(vec![("description", text("d"))])),
        Err(booker::types::Error::JsonExpectedString)
    );
    assert_eq!(
        UsageStats::from_json(&object(vec![("input_tokens", JsonValue::Int(1))])),
        Err(booker::types::Error::JsonExpectedI64)
    );
    let bad_role = object(vec![("role", text("system")), ("content", text("x"))]);
    assert_eq!(Message::from_json(&bad_role), Err(booker::types::Error::InvalidJsonStructure));
    let request = object(vec![("model", text("gpt-5")), ("input", JsonValue::Array(vec![])), ("seed", text("1"))]);
    assert_eq!(ChatRequest::from_json(&request), Err(booker::types::Error::JsonExpectedI64));
    let request = object(vec![("model", text("gpt-1")), ("input", JsonValue::Array(vec![]))]);
    assert_eq!(ChatRequest::from_json(&request), Err(booker::types::Error::InvalidModelName));
    let request = object(vec![("model", text("gpt-5")), ("input", JsonValue::Array(vec![])), ("tools", text("t"))]);
    assert_eq!(ChatRequest::from_json(&request), Err(booker::types::Error::JsonExpectedArray));
    let tool = object(vec![("function", object(vec![("description", JsonValue::Int(3)), ("name", text("n"))]))]);
    assert_eq!(Tool::from_json(&tool), Err(booker::types::Error::JsonExpectedString));
}

#[test]
fn tool_json_writes_missing_description_as_null() {
    let tool = Tool { description: None, name: "f".to_string(), parameters: None };
    assert_eq!(
        tool.to_json(),
        object(vec![
            ("function", object(vec![("description", JsonValue::Null), ("name", text("f"))])),
            ("type", text("function")),
        ])
    );
}

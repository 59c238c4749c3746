use ivaldi_core::advisory::{AdvisoryLevel, AdvisoryMessage, AdvisorySource};
use ivaldi_core::checkbox::generate_checkbox_line;
use ivaldi_core::edit_context::extract_target_name_from_query;
use ivaldi_core::json_edit::{apply_json_operation, get_value, parse_json_path, JsonEntry, JsonOperation, JsonValue};
use ivaldi_core::response::IvaldiResponse;
use ivaldi_core::section::{prepare_code_content, prepare_markdown_content};
use ivaldi_core::session::{ConversationContext, ConversationMode};
use ivaldi_core::similarity::{find_similar_names, levenshtein_distance};

fn text(s: &str) -> JsonValue {
    JsonValue::Str(s.to_string())
}

fn obj(entries: Vec<(&str, JsonValue)>) -> JsonValue {
    JsonValue::Object(entries.into_iter().map(|(k, v)| JsonEntry { key: k.to_string(), value: v }).collect())
}

fn json_eq(a: &JsonValue, b: &JsonValue) -> bool {
    match (a, b) {
        (JsonValue::Null, JsonValue::Null) => true,
        (JsonValue::Bool(x), JsonValue::Bool(y)) => x == y,
        (JsonValue::Number(x), JsonValue::Number(y)) => x == y,
        (JsonValue::Str(x), JsonValue::Str(y)) => x == y,
        (JsonValue::Array(x), JsonValue::Array(y)) => {
            x.len() == y.len() && x.iter().zip(y.iter()).all(|(p, q)| json_eq(p, q))
        }
        (JsonValue::Object(x), JsonValue::Object(y)) => {
            x.len() == y.len()
                && x.iter().zip(y.iter()).all(|(p, q)| p.key == q.key && json_eq(&p.value, &q.value))
        }
        _ => false,
    }
}

fn at<'a>(v: &'a JsonValue, keys: &[&str]) -> Option<&'a JsonValue> {
    let mut cur = v;
    for k in keys {
        cur = get_value(cur, k)?;
    }
    Some(cur)
}

#[test]
fn edit_test_levenshtein_distance() {
    assert_eq!(levenshtein_distance("foo", "foo"), 0);
    assert_eq!(levenshtein_distance("foo", "bar"), 3);
    assert_eq!(levenshtein_distance("foo", "foobar"), 3);
    assert_eq!(levenshtein_distance("process", "procces"), 2);
    assert_eq!(levenshtein_distance("", "abc"), 3);
}

#[test]
fn checkbox_test_levenshtein_distance() {
    assert_eq!(levenshtein_distance("cache", "caching"), 3);
    assert_eq!(levenshtein_distance("test", "tests"), 1);
    assert_eq!(levenshtein_distance("exact", "exact"), 0);
}

#[test]
fn test_extract_target_name() {
    assert_eq!(
        extract_target_name_from_query(r#".functions[] | select(.name == "main")"#),
        Some("main".to_string())
    );
    assert_eq!(
        extract_target_name_from_query(r#".functions[] | select(.name == 'process')"#),
        Some("process".to_string())
    );
    assert_eq!(extract_target_name_from_query(".functions[]"), None);
}

#[test]
fn test_find_similar_names() {
    let candidates = vec![
        ("process_input", "function"),
        ("process_output", "function"),
        ("main", "function"),
    ];
    let similar = find_similar_names("proccess_input", &candidates, 5);
    assert!(!similar.is_empty());
    assert_eq!(similar[0].name, "process_input");
    assert!(similar[0].distance <= 2);
}

#[test]
fn test_prepare_markdown_content() {
    let file_content = "## Header\nSome content\n";
    let content = "- [ ] New item\n- [ ] Another item";
    let result = prepare_markdown_content(content, file_content, 1);
    assert_eq!(result, "- [ ] New item\n- [ ] Another item");
}

#[test]
fn test_prepare_code_content() {
    let file_content = "struct Config {\n    field1: String,\n}\n";
    let content = "pub new_field: String,";
    let result = prepare_code_content(content, file_content, 3);
    assert!(result.contains("pub new_field: String,"));
}

#[test]
fn test_generate_checkbox_line() {
    assert_eq!(generate_checkbox_line("- [ ] Implement caching", true), "- [x] Implement caching");
    assert_eq!(generate_checkbox_line("- [x] Write tests", false), "- [ ] Write tests");
}

#[test]
fn test_parse_json_path() {
    assert_eq!(parse_json_path("$").unwrap(), Vec::<String>::new());
    assert_eq!(parse_json_path("$.provider").unwrap(), vec!["provider".to_string()]);
    assert_eq!(
        parse_json_path("$.provider.openrouter").unwrap(),
        vec!["provider".to_string(), "openrouter".to_string()]
    );
}

#[test]
fn test_apply_json_operation_replace() {
    let mut json = obj(vec![("provider", obj(vec![("old", text("value"))]))]);
    let operation = JsonOperation::Replace { value: obj(vec![("new", text("value"))]) };
    let changed = apply_json_operation(&mut json, "$.provider", &operation).unwrap();
    assert!(changed);
    assert!(json_eq(at(&json, &["provider"]).unwrap(), &obj(vec![("new", text("value"))])));
}

#[test]
fn test_apply_json_operation_add() {
    let mut json = obj(vec![("provider", obj(vec![]))]);
    let operation = JsonOperation::Add {
        key: "openrouter".to_string(),
        value: obj(vec![("models", obj(vec![]))]),
    };
    let changed = apply_json_operation(&mut json, "$.provider", &operation).unwrap();
    assert!(changed);
    assert!(json_eq(
        at(&json, &["provider", "openrouter"]).unwrap(),
        &obj(vec![("models", obj(vec![]))])
    ));
}

#[test]
fn test_provider_replacement_preserves_other_keys() {
    let mut json = obj(vec![
        ("$schema", text("https://opencode.ai/config.json")),
        ("provider", obj(vec![("old", text("value"))])),
        ("other_key", text("preserved")),
    ]);
    let new_provider = obj(vec![(
        "openrouter",
        obj(vec![("models", obj(vec![("gpt-3.5-turbo", obj(vec![("name", text("GPT-3.5 Turbo"))]))]))]),
    )]);
    let operation = JsonOperation::Replace { value: new_provider };
    let changed = apply_json_operation(&mut json, "$.provider", &operation).unwrap();
    assert!(changed);
    assert!(json_eq(
        at(&json, &["provider", "openrouter", "models", "gpt-3.5-turbo", "name"]).unwrap(),
        &text("GPT-3.5 Turbo")
    ));
    assert!(json_eq(at(&json, &["$schema"]).unwrap(), &text("https://opencode.ai/config.json")));
    assert!(json_eq(at(&json, &["other_key"]).unwrap(), &text("preserved")));
    assert!(at(&json, &["provider", "old"]).is_none());
}

#[test]
fn test_tool_info() {
    let msg = AdvisoryMessage::tool_info(JsonValue::text("File has trailing whitespace"));
    assert_eq!(msg.source, AdvisorySource::Tool);
    assert_eq!(msg.level, AdvisoryLevel::Info);
    assert!(json_eq(&msg.content, &text("File has trailing whitespace")));
}

#[test]
fn test_adt_suggest_with_action() {
    let msg = AdvisoryMessage::adt_suggest(
        JsonValue::text("This pattern failed before"),
        "Consider using Arc<Mutex<T>>".to_string(),
    );
    assert_eq!(msg.source, AdvisorySource::Adt);
    assert!(msg.action.is_some());
}

#[test]
fn test_success_response() {
    let resp: IvaldiResponse<String> = IvaldiResponse::success("hello".to_string());
    assert!(!resp.is_error);
    assert!(resp.error.is_none());
}

#[test]
fn test_error_response() {
    let resp: IvaldiResponse<()> =
        IvaldiResponse::error("file_not_found".to_string(), "Path does not exist".to_string());
    assert!(resp.is_error);
    assert!(resp.content.is_none());
    assert!(resp.error.is_some());
}

#[test]
fn test_conversation_mode_default() {
    assert_eq!(ConversationMode::default(), ConversationMode::Persist);
}

#[test]
fn test_conversation_mode_from_str() {
    assert_eq!("persist".parse::<ConversationMode>().unwrap(), ConversationMode::Persist);
    assert_eq!("incognito".parse::<ConversationMode>().unwrap(), ConversationMode::Incognito);
    assert_eq!("PERSIST".parse::<ConversationMode>().unwrap(), ConversationMode::Persist);
    assert!("invalid".parse::<ConversationMode>().is_err());
}

#[test]
fn test_conversation_context_new() {
    let ctx = ConversationContext::new("test-123");
    assert_eq!(ctx.id, "test-123");
    assert_eq!(ctx.mode, ConversationMode::Persist);
    assert!(ctx.is_persist());
    assert!(!ctx.is_incognito());
}

#[test]
fn test_conversation_context_new_incognito() {
    let ctx = ConversationContext::new_incognito("test-456");
    assert_eq!(ctx.id, "test-456");
    assert_eq!(ctx.mode, ConversationMode::Incognito);
    assert!(!ctx.is_persist());
    assert!(ctx.is_incognito());
}

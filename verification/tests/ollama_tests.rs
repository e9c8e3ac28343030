use doctor_git::achievement::Verdict;
use doctor_git::ollama::{
    answer_in_content, assess_reply, chat_request_body, pull_command, read_reply, reply_step,
    user_prompt_for, Assessment, OllamaSettings, ReplyFields, ReplyStep, DEFAULT_MODEL, DEFAULT_URL,
    SYSTEM_PROMPT,
};
use serde_json::Value;

type JsonObject = serde_json::Map<String, Value>;

fn message(role: &str, content: &str) -> Value {
    let mut m = JsonObject::new();
    m.insert("role".to_string(), Value::String(role.to_string()));
    m.insert("content".to_string(), Value::String(content.to_string()));
    Value::Object(m)
}

fn expected_body(model: &str, diff: &str) -> String {
    let mut options = JsonObject::new();
    options.insert("temperature".to_string(), Value::from(0.1));
    let mut body = JsonObject::new();
    body.insert("model".to_string(), Value::String(model.to_string()));
    body.insert("format".to_string(), Value::String("json".to_string()));
    body.insert(
        "messages".to_string(),
        Value::Array(vec![
            message("system", SYSTEM_PROMPT),
            message("user", &format!("AVALIE ESTE DIFF:\n\n{}", diff)),
        ]),
    );
    body.insert("options".to_string(), Value::Object(options));
    body.insert("stream".to_string(), Value::Bool(false));
    serde_json::to_string(&Value::Object(body)).unwrap()
}

fn reply_with_content(content: &str) -> Vec<u8> {
    let mut m = JsonObject::new();
    m.insert("model".to_string(), Value::String("llama3.2".to_string()));
    m.insert("message".to_string(), message("assistant", content));
    m.insert("done".to_string(), Value::Bool(true));
    serde_json::to_vec(&Value::Object(m)).unwrap()
}

#[test]
fn settings_fall_back_to_defaults() {
    let s = OllamaSettings::from_values(None, None);
    assert_eq!(s.model, "llama3.2");
    assert_eq!(s.url, "http://localhost:11434/api/chat");
    assert_eq!(DEFAULT_MODEL, "llama3.2");
    assert_eq!(DEFAULT_URL, "http://localhost:11434/api/chat");
    let s = OllamaSettings::from_values(Some("qwen2".to_string()), Some("http://h:1/x".to_string()));
    assert_eq!(s.model, "qwen2");
    assert_eq!(s.url, "http://h:1/x");
}

#[test]
fn system_prompt_asks_for_the_conquista_member() {
    assert!(SYSTEM_PROMPT.starts_with("Você é um Juiz Analista de Código extremamente exigente. \nREGRAS"));
    assert!(SYSTEM_PROMPT.contains("{\"conquista\": \"FALSE\"}\n2) Se o diff revelar"));
    assert!(SYSTEM_PROMPT.ends_with("{\"conquista\": \"TITULO AQUI\"}"));
}

#[test]
fn request_body_is_what_serde_json_writes() {
    assert_eq!(user_prompt_for("d"), "AVALIE ESTE DIFF:\n\nd");
    assert_eq!(chat_request_body("llama3.2", "+ \"x\"\n"), expected_body("llama3.2", "+ \"x\"\n"));
    let body = chat_request_body("m", "d");
    assert!(body.starts_with("{\"format\":\"json\",\"messages\":[{\"content\":\"Você"));
    assert!(body.ends_with(
        "\"role\":\"system\"},{\"content\":\"AVALIE ESTE DIFF:\\n\\nd\",\"role\":\"user\"}],\"model\":\"m\",\"options\":{\"temperature\":0.1},\"stream\":false}"
    ));
}

#[test]
fn missing_model_asks_for_a_download() {
    let body = br#"{"error":"model \"llama3.2\" not found, try pulling it first"}"#;
    assert!(matches!(assess_reply(Some(body), true), Assessment::PullModel));
    assert!(matches!(assess_reply(Some(body), false), Assessment::PullModel));
}

#[test]
fn other_errors_are_reported() {
    match assess_reply(Some(br#"{"error":"boom"}"#), false) {
        Assessment::ApiError(m) => assert_eq!(m, "boom"),
        _ => panic!("expected an API error"),
    }
    match assess_reply(Some(br#"{"error":42,"message":{"content":"x"}}"#), true) {
        Assessment::ApiError(m) => assert_eq!(m, ""),
        _ => panic!("expected an API error"),
    }
}

#[test]
fn unreadable_bodies_depend_on_the_status() {
    assert!(matches!(assess_reply(Some(b"<html>"), false), Assessment::HttpError));
    assert!(matches!(assess_reply(Some(b"<html>"), true), Assessment::Silent));
    assert!(matches!(assess_reply(None, false), Assessment::HttpError));
    assert!(matches!(assess_reply(None, true), Assessment::Silent));
}

#[test]
fn answers_are_judged() {
    let body = reply_with_content("{\"conquista\": \"FALSE\"}");
    match assess_reply(Some(&body), true) {
        Assessment::Judged(Verdict::Trivial(t)) => assert_eq!(t, "FALSE"),
        _ => panic!("expected a trivial verdict"),
    }
    let body = reply_with_content("{\"conquista\": \"Conquista: **Exportação de relatórios**\"}");
    match assess_reply(Some(&body), true) {
        Assessment::Judged(Verdict::Achievement(t)) => assert_eq!(t, "Exportação de relatórios"),
        _ => panic!("expected an achievement"),
    }
}

#[test]
fn replies_without_an_answer_are_silent() {
    assert!(matches!(assess_reply(Some(&reply_with_content("não é json")), true), Assessment::Silent));
    assert!(matches!(assess_reply(Some(&reply_with_content("{\"titulo\": \"x\"}")), true), Assessment::Silent));
    assert!(matches!(assess_reply(Some(&reply_with_content("{\"conquista\": 7}")), true), Assessment::Silent));
    assert!(matches!(assess_reply(Some(br#"{"message":{"role":"assistant"}}"#), true), Assessment::Silent));
    assert!(matches!(assess_reply(Some(br#"[1,2]"#), false), Assessment::Silent));
}

#[test]
fn reply_fields_are_read() {
    match read_reply(br#"{"message":{"content":"abc"}}"#) {
        ReplyFields::Answered(Some(c)) => assert_eq!(c, "abc"),
        _ => panic!("expected content"),
    }
    assert!(matches!(read_reply(b"nope"), ReplyFields::NotJson));
    assert_eq!(answer_in_content("{\"conquista\": \"Busca\"}"), Some("Busca".to_string()));
    assert_eq!(answer_in_content("Busca"), None);
}

#[test]
fn reply_steps_follow_the_fields() {
    assert!(matches!(reply_step(ReplyFields::NotJson, true), ReplyStep::Nothing));
    assert!(matches!(reply_step(ReplyFields::NotJson, false), ReplyStep::HttpError));
    assert!(matches!(reply_step(ReplyFields::Failed("model not found".to_string()), true), ReplyStep::PullModel));
    assert!(matches!(reply_step(ReplyFields::Failed("Not Found".to_string()), true), ReplyStep::ApiError(_)));
    assert!(matches!(reply_step(ReplyFields::Answered(None), false), ReplyStep::Nothing));
    match reply_step(ReplyFields::Answered(Some("c".to_string())), false) {
        ReplyStep::ReadContent(c) => assert_eq!(c, "c"),
        _ => panic!("expected content to read"),
    }
}

#[test]
fn pull_commands_per_platform() {
    let c = pull_command("llama3.2", false);
    assert_eq!(c.program, "ollama");
    assert_eq!(c.args, vec!["pull".to_string(), "llama3.2".to_string()]);
    let c = pull_command("llama3.2", true);
    assert_eq!(c.program, "cmd");
    assert_eq!(&c.args[..4], &["/C", "start", "cmd", "/K"]);
    let script = format!("echo ----------------------------------------------------- && echo DOCTOR GIT - Download automatico do modelo de Inteligencia && echo ----------------------------------------------------- && echo. && echo O seu computador ainda nao tem o modelo '{}' instalado. && echo Iniciaremos o Download oficial pelo Ollama (pode demorar MUITO dependendo da internet). && echo. && ollama pull {} && echo. && echo [SUCESSO] Concluido! Esse terminal ja pode ser fechado. && pause", "llama3.2", "llama3.2");
    assert_eq!(c.args[4], script);
    assert_eq!(c.args.len(), 5);
}

//! Talking to the local Ollama server: its settings, the chat request that
//! asks the model to judge a diff, what its reply means, and the command
//! that downloads a missing model.
use vstd::prelude::*;
use crate::achievement::{judge_answer, judged, Verdict};
use crate::json::{
    json_member, json_parse_bytes, json_parse_text, json_quoted, json_text, member,
    parse_json_bytes, parse_json_text, quote, text_of,
};
use crate::text::{chars_of, contains, contains_chars, lemma_find_from, occurs_at};

verus! {

/// The model asked when none is configured.
pub const DEFAULT_MODEL: &'static str = "llama3.2";

/// The chat endpoint used when none is configured.
pub const DEFAULT_URL: &'static str = "http://localhost:11434/api/chat";

/// What the model is told to do with a diff.
pub const SYSTEM_PROMPT: &'static str = "Você é um Juiz Analista de Código extremamente exigente. \
            \nREGRAS DE FORMATAÇÃO: Você DEVE retornar APENAS um objeto JSON válido, sem NENHUM texto em markdown em volta.\n\
            1) Se o diff for um bugfix, refatoração de pastas, correção de sintaxe, ou inútil, você deve retornar estritamente: {\"conquista\": \"FALSE\"}\n\
            2) Se o diff revelar a criação de uma FUNCIONALIDADE NOVA que agregue valor ao projeto, retorne o nome curto dela em Português do Brasil de acordo com os dados lidos: {\"conquista\": \"TITULO AQUI\"}";

/// What comes before the diff in the message the model judges.
pub const USER_PROMPT_PREFIX: &'static str = "AVALIE ESTE DIFF:\n\n";

/// Where the server is and which model it runs.
pub struct OllamaSettings {
    pub model: String,
    pub url: String,
}

impl OllamaSettings {
    /// Settings from the configured values, each falling back to its
    /// default when it is not set.
    pub fn from_values(model: Option<String>, url: Option<String>) -> (s: OllamaSettings)
        ensures
            s.model@ == (match model {
                Some(m) => m@,
                None => DEFAULT_MODEL@,
            }),
            s.url@ == (match url {
                Some(u) => u@,
                None => DEFAULT_URL@,
            }),
    {
        let model = match model {
            Some(m) => m,
            None => DEFAULT_MODEL.to_owned(),
        };
        let url = match url {
            Some(u) => u,
            None => DEFAULT_URL.to_owned(),
        };
        OllamaSettings { model, url }
    }
}

/// The message that asks the model to judge `diff`.
pub open spec fn user_prompt(diff: Seq<char>) -> Seq<char> {
    USER_PROMPT_PREFIX@ + diff
}

/// The JSON body of the chat request: the model, the system and the user
/// message, JSON output, temperature 0.1 and no streaming. Members stand in
/// the order `serde_json` writes an object's keys.
pub open spec fn chat_request(model: Seq<char>, diff: Seq<char>) -> Seq<char> {
    "{\"format\":\"json\",\"messages\":[{\"content\":"@ + json_quoted(SYSTEM_PROMPT@)
        + ",\"role\":\"system\"},{\"content\":"@ + json_quoted(user_prompt(diff))
        + ",\"role\":\"user\"}],\"model\":"@ + json_quoted(model)
        + ",\"options\":{\"temperature\":0.1},\"stream\":false}"@
}

/// The message that asks the model to judge `diff`.
pub fn user_prompt_for(diff: &str) -> (r: String)
    ensures
        r@ == user_prompt(diff@),
{
    let mut r = USER_PROMPT_PREFIX.to_owned();
    r.append(diff);
    r
}

/// The body of the chat request that asks `model` to judge `diff`.
pub fn chat_request_body(model: &str, diff: &str) -> (r: String)
    ensures
        r@ == chat_request(model@, diff@),
{
    let user = user_prompt_for(diff);
    let mut r = "{\"format\":\"json\",\"messages\":[{\"content\":".to_owned();
    r.append(quote(SYSTEM_PROMPT).as_str());
    r.append(",\"role\":\"system\"},{\"content\":");
    r.append(quote(user.as_str()).as_str());
    r.append(",\"role\":\"user\"}],\"model\":");
    r.append(quote(model).as_str());
    r.append(",\"options\":{\"temperature\":0.1},\"stream\":false}");
    r
}

/// What the logic reads of a reply body.
pub enum ReplyFields {
    /// The body is not JSON.
    NotJson,
    /// The reply has an `error` member: its text, empty when it is no string.
    Failed(String),
    /// The reply has no `error` member: the text of `message.content`, when
    /// there is one.
    Answered(Option<String>),
}

/// The text of an `error` member: the string itself, or empty.
pub open spec fn error_text(e: serde_json::Value) -> Seq<char> {
    match json_text(e) {
        Some(t) => t,
        None => Seq::empty(),
    }
}

/// The text of `message.content` in a reply.
pub open spec fn message_content(v: serde_json::Value) -> Option<Seq<char>> {
    match json_member(v, "message"@) {
        Some(m) => match json_member(m, "content"@) {
            Some(c) => json_text(c),
            None => None,
        },
        None => None,
    }
}

/// `r` holds the text `t`, or nothing when there is none.
pub open spec fn holds_text(r: Option<String>, t: Option<Seq<char>>) -> bool {
    match t {
        Some(t) => r matches Some(x) && x@ == t,
        None => r is None,
    }
}

/// What the logic reads of a reply body.
pub fn read_reply(body: &[u8]) -> (r: ReplyFields)
    ensures
        match json_parse_bytes(body@) {
            None => r is NotJson,
            Some(v) => match json_member(v, "error"@) {
                Some(e) => r matches ReplyFields::Failed(m) && m@ == error_text(e),
                None => r matches ReplyFields::Answered(c) && holds_text(c, message_content(v)),
            },
        },
{
    match parse_json_bytes(body) {
        None => ReplyFields::NotJson,
        Some(v) => match member(&v, "error") {
            Some(e) => {
                let text = match text_of(e) {
                    Some(t) => t.to_owned(),
                    None => String::new(),
                };
                ReplyFields::Failed(text)
            },
            None => {
                let content = match member(&v, "message") {
                    Some(m) => match member(m, "content") {
                        Some(c) => match text_of(c) {
                            Some(t) => Some(t.to_owned()),
                            None => None,
                        },
                        None => None,
                    },
                    None => None,
                };
                ReplyFields::Answered(content)
            },
        },
    }
}

/// The answer that a message content holds: the text of the `conquista`
/// member of the JSON document the content is.
pub open spec fn conquest_answer(content: Seq<char>) -> Option<Seq<char>> {
    match json_parse_text(content) {
        Some(d) => match json_member(d, "conquista"@) {
            Some(c) => json_text(c),
            None => None,
        },
        None => None,
    }
}

/// The answer that a message content holds, when it holds one.
pub fn answer_in_content(content: &str) -> (r: Option<String>)
    ensures
        holds_text(r, conquest_answer(content@)),
{
    match parse_json_text(content) {
        Some(d) => match member(&d, "conquista") {
            Some(c) => match text_of(c) {
                Some(t) => Some(t.to_owned()),
                None => None,
            },
            None => None,
        },
        None => None,
    }
}

/// The error text by which the server says that the model is not installed.
pub open spec fn missing_model_text() -> Seq<char> {
    "not found"@
}

/// What to do after reading a reply.
pub enum ReplyStep {
    /// The model is not installed: download it.
    PullModel,
    /// The server reported this error.
    ApiError(String),
    /// The body is not JSON and the HTTP status is not a success.
    HttpError,
    /// Read the answer in this message content.
    ReadContent(String),
    /// Nothing to do.
    Nothing,
}

/// The step that follows a reply with these fields and this HTTP outcome.
pub fn reply_step(fields: ReplyFields, http_ok: bool) -> (s: ReplyStep)
    ensures
        match fields {
            ReplyFields::NotJson => if http_ok {
                s is Nothing
            } else {
                s is HttpError
            },
            ReplyFields::Failed(m) => if contains(m@, missing_model_text()) {
                s is PullModel
            } else {
                s matches ReplyStep::ApiError(x) && x@ == m@
            },
            ReplyFields::Answered(Some(c)) => s matches ReplyStep::ReadContent(x) && x@ == c@,
            ReplyFields::Answered(None) => s is Nothing,
        },
{
    match fields {
        ReplyFields::NotJson => if http_ok {
            ReplyStep::Nothing
        } else {
            ReplyStep::HttpError
        },
        ReplyFields::Failed(m) => {
            let hay = chars_of(m.as_str());
            let needle = chars_of("not found");
            if contains_chars(&hay, &needle) {
                ReplyStep::PullModel
            } else {
                ReplyStep::ApiError(m)
            }
        },
        ReplyFields::Answered(Some(c)) => ReplyStep::ReadContent(c),
        ReplyFields::Answered(None) => ReplyStep::Nothing,
    }
}

/// What a reply from the server comes to.
pub enum Assessment {
    /// The model is not installed: download it.
    PullModel,
    /// The server reported this error.
    ApiError(String),
    /// The body is not JSON and the HTTP status is not a success.
    HttpError,
    /// The reply holds no answer.
    Silent,
    /// The model answered, and this is the judgement of its answer.
    Judged(Verdict),
}

/// What the reply comes to, given the fields of its body (`None` when the
/// body could not be read or is not JSON).
pub open spec fn assessed(a: Assessment, body: Option<Seq<u8>>, http_ok: bool) -> bool {
    let parsed = match body {
        Some(b) => json_parse_bytes(b),
        None => None,
    };
    match parsed {
        None => if http_ok {
            a is Silent
        } else {
            a is HttpError
        },
        Some(v) => match json_member(v, "error"@) {
            Some(e) => if contains(error_text(e), missing_model_text()) {
                a is PullModel
            } else {
                a matches Assessment::ApiError(m) && m@ == error_text(e)
            },
            None => match message_content(v) {
                None => a is Silent,
                Some(c) => match conquest_answer(c) {
                    None => a is Silent,
                    Some(raw) => a matches Assessment::Judged(j) && judged(j, raw),
                },
            },
        },
    }
}

/// Assesses the server's reply: its body (`None` when it could not be read)
/// and whether the HTTP status was a success.
pub fn assess_reply(body: Option<&[u8]>, http_ok: bool) -> (a: Assessment)
    ensures
        assessed(
            a,
            match body {
                Some(b) => Some(b@),
                None => None,
            },
            http_ok,
        ),
{
    let fields = match body {
        Some(b) => read_reply(b),
        None => ReplyFields::NotJson,
    };
    match reply_step(fields, http_ok) {
        ReplyStep::PullModel => Assessment::PullModel,
        ReplyStep::ApiError(m) => Assessment::ApiError(m),
        ReplyStep::HttpError => Assessment::HttpError,
        ReplyStep::Nothing => Assessment::Silent,
        ReplyStep::ReadContent(c) => match answer_in_content(c.as_str()) {
            Some(raw) => Assessment::Judged(judge_answer(raw.as_str())),
            None => Assessment::Silent,
        },
    }
}

/// The user message is the prompt's fixed opening followed by the whole
/// diff, nothing of it left out or changed.
pub proof fn law_user_prompt_holds_whole_diff(diff: Seq<char>)
    ensures
        user_prompt(diff).len() == 19 + diff.len(),
        user_prompt(diff).take(19) == "AVALIE ESTE DIFF:\n\n"@,
        user_prompt(diff).skip(19) == diff,
{
    reveal_strlit("AVALIE ESTE DIFF:\n\n");
    assert(user_prompt(diff).take(19) =~= "AVALIE ESTE DIFF:\n\n"@);
    assert(user_prompt(diff).skip(19) =~= diff);
}

/// A reply's error leads to a download exactly when the error text contains
/// the words `not found`.
pub proof fn law_download_exactly_on_not_found(message: Seq<char>)
    ensures
        contains(message, missing_model_text()) <==> exists|i: int|
            occurs_at(message, "not found"@, i),
{
    lemma_find_from(message, "not found"@, 0);
    if contains(message, missing_model_text()) {
        let k = find_from_witness(message);
        assert(occurs_at(message, "not found"@, k));
    }
}

spec fn find_from_witness(message: Seq<char>) -> int {
    crate::text::find_from(message, "not found"@, 0)->0
}

/// On Windows the download script runs `ollama pull` with exactly the model
/// that was asked for, at its end, and names that model as the one missing.
pub proof fn law_windows_script_pulls_given_model(model: Seq<char>)
    ensures
        exists|p: Seq<char>|
            windows_pull_script(model) == p + "ollama pull "@ + model + PULL_SCRIPT_END@,
        occurs_at(
            windows_pull_script(model),
            "modelo '"@ + model + "' instalado."@,
            PULL_SCRIPT_START@.len() - 8,
        ),
{
    reveal_strlit("echo ----------------------------------------------------- && echo DOCTOR GIT - Download automatico do modelo de Inteligencia && echo ----------------------------------------------------- && echo. && echo O seu computador ainda nao tem o modelo '");
    reveal_strlit("' instalado. && echo Iniciaremos o Download oficial pelo Ollama (pode demorar MUITO dependendo da internet). && echo. && ollama pull ");
    reveal_strlit("ollama pull ");
    reveal_strlit("modelo '");
    reveal_strlit("' instalado.");
    let st = PULL_SCRIPT_START@;
    let mid = PULL_SCRIPT_MIDDLE@;
    let k = mid.len() - 12;
    assert(mid =~= mid.take(k) + "ollama pull "@);
    let p = st + model + mid.take(k);
    assert(windows_pull_script(model) =~= p + "ollama pull "@ + model + PULL_SCRIPT_END@);
    assert(st =~= st.take(st.len() - 8) + "modelo '"@);
    assert(mid =~= "' instalado."@ + mid.skip(12));
    let w = windows_pull_script(model);
    let n = ("modelo '"@ + model + "' instalado."@).len();
    assert(w.subrange(st.len() - 8, st.len() - 8 + n) =~= "modelo '"@ + model + "' instalado."@);
}

/// A program to start and its arguments.
pub struct PullCommand {
    pub program: String,
    pub args: Vec<String>,
}

/// The views of a list of strings.
pub open spec fn string_views(v: Seq<String>) -> Seq<Seq<char>> {
    v.map_values(|s: String| s@)
}

/// The Windows console script that explains and runs the download of
/// `model`, then waits for a key.
pub open spec fn windows_pull_script(model: Seq<char>) -> Seq<char> {
    PULL_SCRIPT_START@ + model + PULL_SCRIPT_MIDDLE@ + model + PULL_SCRIPT_END@
}

/// Text of the Windows download script before the model's name.
pub const PULL_SCRIPT_START: &'static str = "echo ----------------------------------------------------- && echo DOCTOR GIT - Download automatico do modelo de Inteligencia && echo ----------------------------------------------------- && echo. && echo O seu computador ainda nao tem o modelo '";

/// Text of the Windows download script between the two mentions of the
/// model's name.
pub const PULL_SCRIPT_MIDDLE: &'static str = "' instalado. && echo Iniciaremos o Download oficial pelo Ollama (pode demorar MUITO dependendo da internet). && echo. && ollama pull ";

/// Text of the Windows download script after the model's name.
pub const PULL_SCRIPT_END: &'static str = " && echo. && echo [SUCESSO] Concluido! Esse terminal ja pode ser fechado. && pause";

/// The command that downloads `model`: on Windows, a new console window that
/// runs the download script; elsewhere `ollama pull <model>`.
pub fn pull_command(model: &str, on_windows: bool) -> (c: PullCommand)
    ensures
        on_windows ==> c.program@ == "cmd"@ && string_views(c.args@) == seq![
            "/C"@,
            "start"@,
            "cmd"@,
            "/K"@,
            windows_pull_script(model@),
        ],
        !on_windows ==> c.program@ == "ollama"@ && string_views(c.args@) == seq![
            "pull"@,
            model@,
        ],
{
    if on_windows {
        let mut script = PULL_SCRIPT_START.to_owned();
        script.append(model);
        script.append(PULL_SCRIPT_MIDDLE);
        script.append(model);
        script.append(PULL_SCRIPT_END);
        let mut args: Vec<String> = Vec::new();
        args.push("/C".to_owned());
        args.push("start".to_owned());
        args.push("cmd".to_owned());
        args.push("/K".to_owned());
        args.push(script);
        assert(string_views(args@) =~= seq!["/C"@, "start"@, "cmd"@, "/K"@, windows_pull_script(model@)]);
        PullCommand { program: "cmd".to_owned(), args }
    } else {
        let mut args: Vec<String> = Vec::new();
        args.push("pull".to_owned());
        args.push(model.to_owned());
        assert(string_views(args@) =~= seq!["pull"@, model@]);
        PullCommand { program: "ollama".to_owned(), args }
    }
}

} // verus!

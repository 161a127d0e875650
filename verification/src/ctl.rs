//! Asking the running server, over HTTP.
//!
//! The command line of the engine asks the same questions, but has to be installed to do so, and
//! they are asked when the installation is in doubt.

use crate::command::DEFAULT_PORT;
use crate::json::{
    empty_object, empty_value, json_of, json_parsed, member, parse_value, string_value, with_member, Json,
};
use crate::text::{
    chars_of, contains, decimal, is_digit, law_part_is_held, law_strip_takes_off_one_character,
    lemma_decimal, lemma_no_part_without_char, lemma_strip_end, push_decimal, starts_with,
    string_of, strip_chars_end, strip_end, CharSet,
};
use serde_json::Value;
use vstd::prelude::*;

verus! {

/// The URL of a server on this machine.
pub open spec fn local_url(port: nat) -> Seq<char> {
    "http://127.0.0.1:"@ + decimal(port)
}

/// The base URL of the server: the configured one without the slashes at its end, unless
/// nothing is left of it, and else that of the default port.
pub open spec fn base_of(endpoint: Option<Seq<char>>) -> Seq<char> {
    match endpoint {
        Some(endpoint) => {
            let base = strip_end(endpoint, CharSet::Only('/'));
            if base.len() > 0 {
                base
            } else {
                local_url(DEFAULT_PORT as nat)
            }
        },
        None => local_url(DEFAULT_PORT as nat),
    }
}

/// The base URL of the server, given the one that the application configured.
pub fn base_url(endpoint: Option<&str>) -> (base: String)
    ensures
        base@ == base_of(
            match endpoint {
                Some(endpoint) => Some(endpoint@),
                None => None,
            },
        ),
{
    if let Some(endpoint) = endpoint {
        let base = strip_chars_end(&chars_of(endpoint), CharSet::Only('/'));
        if base.len() > 0 {
            return string_of(&base);
        }
    }
    let mut base = "http://127.0.0.1:".to_string();
    push_decimal(&mut base, DEFAULT_PORT as u64);
    base
}

/// What the server is asked.
#[derive(Debug, Clone, Copy)]
pub enum Question {
    /// What it says of itself: loaded or loading, and which model.
    Health,
    /// Throughput, latency, video memory, queues.
    Stats,
    /// The caches: experts on the GPU, tokens of KV.
    CacheStatus,
    /// The models that it serves, by the names that clients are to use.
    Models,
    /// The last requests that it has seen, at most that many where a limit is given.
    Requests { limit: Option<u32> },
}

impl Question {
    /// Where on the server the question is asked.
    pub open spec fn path(self) -> Seq<char> {
        match self {
            Question::Health => "/health"@,
            Question::Stats => "/v1/stats"@,
            Question::CacheStatus => "/v1/cache/status"@,
            Question::Models => "/v1/models"@,
            Question::Requests { limit } => match limit {
                Some(limit) => "/v1/requests?limit="@ + decimal(limit as nat),
                None => "/v1/requests"@,
            },
        }
    }

    /// The URL that the question is asked at.
    pub fn url(self, base: &str) -> (url: String)
        ensures
            url@ == base@ + self.path(),
    {
        let mut url = base.to_string();
        match self {
            Question::Health => url.append("/health"),
            Question::Stats => url.append("/v1/stats"),
            Question::CacheStatus => url.append("/v1/cache/status"),
            Question::Models => url.append("/v1/models"),
            Question::Requests { limit } => match limit {
                Some(limit) => {
                    let mut path = "/v1/requests?limit=".to_string();
                    push_decimal(&mut path, limit as u64);
                    url.append(path.as_str());
                },
                None => url.append("/v1/requests"),
            },
        }
        url
    }
}

/// What is said of a server that did not answer a question.
pub open spec fn unanswered_question(url: Seq<char>, error: Seq<char>) -> Seq<char> {
    "le serveur ne répond pas sur "@ + url + " ("@ + error
        + ") — il n'est probablement pas démarré. Choisissez un modèle dans Réglages → Moteur pour le lancer."@
}

/// What is said of a server that did not answer a demand.
pub open spec fn unanswered_demand(url: Seq<char>, error: Seq<char>) -> Seq<char> {
    "le serveur ne répond pas sur "@ + url + " ("@ + error + ")"@
}

/// What is said of a server that did not answer a question.
pub fn no_answer(url: &str, error: &str) -> (message: String)
    ensures
        message@ == unanswered_question(url@, error@),
{
    let mut message = "le serveur ne répond pas sur ".to_string();
    message.append(url);
    message.append(" (");
    message.append(error);
    message.append(
        ") — il n'est probablement pas démarré. Choisissez un modèle dans Réglages → Moteur pour le lancer.",
    );
    message
}

/// What is said of a server that did not answer a demand.
pub fn no_reaction(url: &str, error: &str) -> (message: String)
    ensures
        message@ == unanswered_demand(url@, error@),
{
    let mut message = "le serveur ne répond pas sur ".to_string();
    message.append(url);
    message.append(" (");
    message.append(error);
    message.append(")");
    message
}

/// What an answer amounts to: the JSON that it holds or, where it holds none, its text under
/// `raw`.
pub open spec fn answer_of(body: Seq<char>) -> Json {
    match json_parsed(body) {
        Ok(json) => json,
        Err(_) => empty_object().with("raw"@, Json::Text(body)),
    }
}

/// What is said of an answer with a status that is no success.
pub open spec fn refusal(url: Seq<char>, status: Seq<char>, body: Seq<char>) -> Seq<char> {
    url + " a répondu "@ + status + " : "@ + body
}

/// Reads the answer that came from `url` with the given status.
pub fn read_answer(url: &str, success: bool, status: &str, body: &str) -> (answer: Result<
    Value,
    String,
>)
    ensures
        answer is Ok == success,
        answer matches Ok(value) ==> json_of(value) == answer_of(body@),
        answer matches Err(message) ==> message@ == refusal(url@, status@, body@),
{
    if !success {
        let mut message = url.to_string();
        message.append(" a répondu ");
        message.append(status);
        message.append(" : ");
        message.append(body);
        return Err(message);
    }
    Ok(parsed_answer(parse_value(body), body))
}

/// What an answer that was read as `parsed` amounts to: one that is no JSON is kept under `raw`.
pub fn parsed_answer(parsed: Result<Value, String>, body: &str) -> (value: Value)
    ensures
        json_of(value) == (match value_result(parsed) {
            Ok(json) => json,
            Err(_) => empty_object().with("raw"@, Json::Text(body@)),
        }),
{
    match parsed {
        Ok(value) => value,
        Err(_) => with_member(empty_value(), "raw", string_value(body.to_string())),
    }
}

/// What came of a request to the server.
#[derive(Debug, Clone)]
pub enum Exchange {
    /// The request could not be prepared.
    Unprepared { error: String },
    /// The server did not answer.
    Unanswered { error: String },
    /// The server answered, with the given status.
    Answered { success: bool, status: String, body: String },
}

/// What an exchange holds.
#[verifier::ext_equal]
pub enum ExchangeModel {
    Unprepared { error: Seq<char> },
    Unanswered { error: Seq<char> },
    Answered { success: bool, status: Seq<char>, body: Seq<char> },
}

impl View for Exchange {
    type V = ExchangeModel;

    open spec fn view(&self) -> ExchangeModel {
        match *self {
            Exchange::Unprepared { error } => ExchangeModel::Unprepared { error: error@ },
            Exchange::Unanswered { error } => ExchangeModel::Unanswered { error: error@ },
            Exchange::Answered { success, status, body } => ExchangeModel::Answered {
                success,
                status: status@,
                body: body@,
            },
        }
    }
}

/// What a result holds: a JSON value, or a message.
pub open spec fn value_result(result: Result<Value, String>) -> Result<Json, Seq<char>> {
    match result {
        Ok(value) => Ok(json_of(value)),
        Err(message) => Err(message@),
    }
}

/// What an exchange with `url` amounts to, given what is said where the server did not answer.
pub open spec fn exchange_result(
    url: Seq<char>,
    exchange: ExchangeModel,
    unanswered: spec_fn(Seq<char>) -> Seq<char>,
) -> Result<Json, Seq<char>> {
    match exchange {
        ExchangeModel::Unprepared { error } => Err(error),
        ExchangeModel::Unanswered { error } => Err(unanswered(error)),
        ExchangeModel::Answered { success, status, body } => if success {
            Ok(answer_of(body))
        } else {
            Err(refusal(url, status, body))
        },
    }
}

/// What a question that was asked at `url` amounts to.
pub open spec fn question_result(url: Seq<char>, exchange: ExchangeModel) -> Result<
    Json,
    Seq<char>,
> {
    exchange_result(url, exchange, |error: Seq<char>| unanswered_question(url, error))
}

/// What a demand that was made at `url` amounts to.
pub open spec fn demand_result(url: Seq<char>, exchange: ExchangeModel) -> Result<Json, Seq<char>> {
    exchange_result(url, exchange, |error: Seq<char>| unanswered_demand(url, error))
}

/// What a question that was asked at `url` amounts to.
pub fn answer_to_question(url: &str, exchange: &Exchange) -> (answer: Result<Value, String>)
    ensures
        value_result(answer) == question_result(url@, exchange@),
{
    match exchange {
        Exchange::Unprepared { error } => Err(error.clone()),
        Exchange::Unanswered { error } => Err(no_answer(url, error.as_str())),
        Exchange::Answered { success, status, body } => read_answer(
            url,
            *success,
            status.as_str(),
            body.as_str(),
        ),
    }
}

/// What a demand that was made at `url` amounts to.
pub fn answer_to_demand(url: &str, exchange: &Exchange) -> (answer: Result<Value, String>)
    ensures
        value_result(answer) == demand_result(url@, exchange@),
{
    match exchange {
        Exchange::Unprepared { error } => Err(error.clone()),
        Exchange::Unanswered { error } => Err(no_reaction(url, error.as_str())),
        Exchange::Answered { success, status, body } => read_answer(
            url,
            *success,
            status.as_str(),
            body.as_str(),
        ),
    }
}

// ---------------------------------------------------------------------------
// Resizing the caches
// ---------------------------------------------------------------------------

/// What resizing the caches asks for.
#[derive(Debug, Clone, Copy)]
pub struct CacheRebuild {
    /// Slots of the expert cache on the GPU.
    pub moe: Option<u64>,
    /// Capacity of the KV cache, in tokens.
    pub kv: Option<u64>,
}

impl Default for CacheRebuild {
    fn default() -> (demand: CacheRebuild)
        ensures
            demand == (CacheRebuild { moe: None, kv: None }),
    {
        CacheRebuild { moe: None, kv: None }
    }
}

impl CacheRebuild {
    /// The demand as JSON. A cache that is not to be resized has no member: a null would have the
    /// server empty it.
    pub open spec fn json_text(self) -> Seq<char> {
        match (self.moe, self.kv) {
            (Some(moe), Some(kv)) => "{\"moe\":"@ + decimal(moe as nat) + ",\"kv\":"@ + decimal(
                kv as nat,
            ) + "}"@,
            (Some(moe), None) => "{\"moe\":"@ + decimal(moe as nat) + "}"@,
            (None, Some(kv)) => "{\"kv\":"@ + decimal(kv as nat) + "}"@,
            (None, None) => "{}"@,
        }
    }

    pub fn is_empty(&self) -> (empty: bool)
        ensures
            empty == (self.moe is None && self.kv is None),
    {
        self.moe.is_none() && self.kv.is_none()
    }

    /// The demand as JSON.
    pub fn body(&self) -> (text: String)
        ensures
            text@ == self.json_text(),
    {
        match (self.moe, self.kv) {
            (Some(moe), Some(kv)) => {
                let mut text = "{\"moe\":".to_string();
                push_decimal(&mut text, moe);
                text.append(",\"kv\":");
                push_decimal(&mut text, kv);
                text.append("}");
                text
            },
            (Some(moe), None) => {
                let mut text = "{\"moe\":".to_string();
                push_decimal(&mut text, moe);
                text.append("}");
                text
            },
            (None, Some(kv)) => {
                let mut text = "{\"kv\":".to_string();
                push_decimal(&mut text, kv);
                text.append("}");
                text
            },
            (None, None) => "{}".to_string(),
        }
    }
}

/// A request to resize the caches.
#[derive(Debug, Clone)]
pub struct RebuildRequest {
    pub url: String,
    /// The JSON to post.
    pub body: String,
}

/// The request that resizes the caches without restarting the server. A demand that asks for
/// nothing is refused.
pub fn rebuild_request(demand: &CacheRebuild, base: &str) -> (request: Result<
    RebuildRequest,
    String,
>)
    ensures
        request is Err == (demand.moe is None && demand.kv is None),
        request matches Err(message) ==> message@ == "indiquez au moins « moe » ou « kv »"@,
        request matches Ok(request) ==> request.url@ == base@ + "/v1/cache/rebuild"@
            && request.body@ == demand.json_text(),
{
    if demand.is_empty() {
        return Err("indiquez au moins « moe » ou « kv »".to_string());
    }
    let mut url = base.to_string();
    url.append("/v1/cache/rebuild");
    Ok(RebuildRequest { url, body: demand.body() })
}

// ---------------------------------------------------------------------------
// Laws
// ---------------------------------------------------------------------------

/// Whatever was configured, the base URL is not empty and does not end in a slash, so that the
/// path that follows it begins with the only one.
pub proof fn law_base_url_has_no_final_slash(endpoint: Option<Seq<char>>)
    ensures
        base_of(endpoint).len() > 0,
        base_of(endpoint).last() != '/',
{
    reveal_strlit("http://127.0.0.1:");
    let port = DEFAULT_PORT as nat;
    lemma_decimal(port);
    assert(local_url(port).last() == decimal(port).last());
    assert(is_digit(decimal(port)[decimal(port).len() - 1]));
    if let Some(endpoint) = endpoint {
        lemma_strip_end(endpoint, CharSet::Only('/'));
    }
}

/// A configured URL that does not end in a slash is used as it is.
pub proof fn law_configured_url_is_used(endpoint: Seq<char>)
    requires
        endpoint.len() > 0,
        endpoint.last() != '/',
    ensures
        base_of(Some(endpoint)) == endpoint,
        base_of(Some(endpoint.push('/'))) == endpoint,
{
    assert(endpoint.push('/').drop_last() =~= endpoint);
    reveal_with_fuel(strip_end, 2);
}

/// A cache is named in a demand exactly where it is to be resized, and nothing in a demand is
/// null.
pub proof fn law_only_demanded_caches_are_sent(demand: CacheRebuild)
    ensures
        contains(demand.json_text(), "\"moe\":"@) == demand.moe is Some,
        contains(demand.json_text(), "\"kv\":"@) == demand.kv is Some,
        !contains(demand.json_text(), "null"@),
{
    reveal_strlit("{\"moe\":");
    reveal_strlit("{\"kv\":");
    reveal_strlit(",\"kv\":");
    reveal_strlit("\"moe\":");
    reveal_strlit("\"kv\":");
    reveal_strlit("null");
    reveal_strlit("}");
    reveal_strlit("{}");
    let text = demand.json_text();
    if let Some(moe) = demand.moe {
        lemma_decimal(moe as nat);
        let name = "\"moe\":"@;
        assert(text.subrange(1, 1int + name.len()) =~= name);
    }
    if let Some(kv) = demand.kv {
        lemma_decimal(kv as nat);
        let name = "\"kv\":"@;
        let at: int = match demand.moe {
            Some(moe) => 8int + decimal(moe as nat).len(),
            None => 1int,
        };
        assert(text.subrange(at, at + name.len()) =~= name);
    }
    assert forall|i: int| 0 <= i < text.len() implies text[i] != 'n' by {
        lemma_demand_char(demand, i);
    }
    lemma_no_part_without_char(text, "null"@, 0);
    if demand.moe is None {
        assert forall|i: int| 0 <= i < text.len() implies text[i] != 'm' by {
            lemma_demand_char(demand, i);
        }
        lemma_no_part_without_char(text, "\"moe\":"@, 1);
    }
    if demand.kv is None {
        assert forall|i: int| 0 <= i < text.len() implies text[i] != 'k' by {
            lemma_demand_char(demand, i);
        }
        lemma_no_part_without_char(text, "\"kv\":"@, 1);
    }
}

/// What a demand is written with.
proof fn lemma_demand_char(demand: CacheRebuild, i: int)
    requires
        0 <= i < demand.json_text().len(),
    ensures
        demand.json_text()[i] != 'n',
        demand.moe is None ==> demand.json_text()[i] != 'm',
        demand.kv is None ==> demand.json_text()[i] != 'k',
{
    reveal_strlit("{\"moe\":");
    reveal_strlit("{\"kv\":");
    reveal_strlit(",\"kv\":");
    reveal_strlit("}");
    reveal_strlit("{}");
    if let Some(moe) = demand.moe {
        lemma_decimal(moe as nat);
        let digits = decimal(moe as nat);
        assert(7 <= i < 7 + digits.len() ==> is_digit(digits[i - 7]));
        if let Some(kv) = demand.kv {
            lemma_decimal(kv as nat);
            let more = decimal(kv as nat);
            let from: int = 13int + digits.len();
            assert(from <= i < from + more.len() ==> is_digit(more[i - from]));
        }
    } else if let Some(kv) = demand.kv {
        lemma_decimal(kv as nat);
        let digits = decimal(kv as nat);
        assert(6 <= i < 6 + digits.len() ==> is_digit(digits[i - 6]));
    }
}

/// A demand names each cache that is to be resized with the number that it is to have, whether
/// the other is named or not.
pub proof fn law_demand_names_its_numbers(demand: CacheRebuild)
    ensures
        demand.moe matches Some(moe) ==> contains(
            demand.json_text(),
            "{\"moe\":"@ + decimal(moe as nat) + (if demand.kv is Some {
                ","@
            } else {
                "}"@
            }),
        ),
        demand.kv matches Some(kv) ==> contains(
            demand.json_text(),
            (if demand.moe is Some {
                ","@
            } else {
                "{"@
            }) + "\"kv\":"@ + decimal(kv as nat) + "}"@,
        ),
{
    reveal_strlit("{\"moe\":");
    reveal_strlit("{\"kv\":");
    reveal_strlit(",\"kv\":");
    reveal_strlit("\"kv\":");
    reveal_strlit(",");
    reveal_strlit("{");
    reveal_strlit("}");
    let text = demand.json_text();
    match (demand.moe, demand.kv) {
        (Some(moe), Some(kv)) => {
            let first = "{\"moe\":"@ + decimal(moe as nat) + ","@;
            let last = ","@ + "\"kv\":"@ + decimal(kv as nat) + "}"@;
            let head = "{\"moe\":"@ + decimal(moe as nat);
            let tail = "\"kv\":"@ + decimal(kv as nat) + "}"@;
            assert(text =~= seq![] + first + tail);
            law_part_is_held(seq![], first, tail, text);
            assert(text =~= head + last + seq![]);
            law_part_is_held(head, last, seq![], text);
        },
        (Some(moe), None) => {
            assert(text =~= seq![] + text + seq![]);
            law_part_is_held(seq![], text, seq![], text);
        },
        (None, Some(kv)) => {
            assert(text =~= "{"@ + "\"kv\":"@ + decimal(kv as nat) + "}"@);
            assert(text =~= seq![] + text + seq![]);
            law_part_is_held(seq![], text, seq![], text);
        },
        (None, None) => {},
    }
}

/// What an answer amounts to: the JSON that its body holds, and else its body under `raw` and
/// nothing else. An answer that is no success is an error that holds the URL, the status and the
/// body.
pub proof fn law_answer_is_handed_on(
    url: Seq<char>,
    status: Seq<char>,
    body: Seq<char>,
    key: Seq<char>,
)
    ensures
        ({
            let good = ExchangeModel::Answered { success: true, status, body };
            let bad = ExchangeModel::Answered { success: false, status, body };
            &&& question_result(url, good) == demand_result(url, good)
            &&& question_result(url, bad) == demand_result(url, bad)
            &&& question_result(url, good) is Ok
            &&& json_parsed(body) matches Ok(json) ==> question_result(url, good)->Ok_0 == json
            &&& json_parsed(body) is Err ==> {
                &&& member(question_result(url, good)->Ok_0, "raw"@) == Some(Json::Text(body))
                &&& key != "raw"@ ==> member(question_result(url, good)->Ok_0, key) is None
            }
            &&& question_result(url, bad) matches Err(message)
            &&& starts_with(message, url)
            &&& contains(message, " "@ + status + " "@)
            &&& message.skip(message.len() - body.len()) == body
        }),
{
    reveal_strlit(" a répondu ");
    reveal_strlit(" a répondu");
    reveal_strlit(" : ");
    reveal_strlit(": ");
    reveal_strlit(" ");
    let message = refusal(url, status, body);
    let head = url + " a répondu"@;
    let part = " "@ + status + " "@;
    assert(message =~= head + part + (": "@ + body));
    law_part_is_held(head, part, ": "@ + body, message);
    assert(message.take(url.len() as int) =~= url);
    assert(message.skip(message.len() - body.len()) =~= body);
}

/// A server that does not answer is an error that holds the URL and the reason, and a request that
/// could not be prepared is an error that is the reason.
pub proof fn law_silence_is_an_error(url: Seq<char>, error: Seq<char>)
    ensures
        ({
            let silent = ExchangeModel::Unanswered { error };
            let unprepared = ExchangeModel::Unprepared { error };
            &&& question_result(url, silent) matches Err(asked)
            &&& demand_result(url, silent) matches Err(demanded)
            &&& contains(asked, " "@ + url + " ("@ + error + ")"@)
            &&& contains(demanded, " "@ + url + " ("@ + error + ")"@)
            &&& question_result(url, unprepared) == Err::<Json, Seq<char>>(error)
            &&& demand_result(url, unprepared) == Err::<Json, Seq<char>>(error)
        }),
{
    reveal_strlit("le serveur ne répond pas sur ");
    reveal_strlit("le serveur ne répond pas sur");
    reveal_strlit(" ");
    reveal_strlit(" (");
    reveal_strlit(")");
    reveal_strlit(
        ") — il n'est probablement pas démarré. Choisissez un modèle dans Réglages → Moteur pour le lancer.",
    );
    let head = "le serveur ne répond pas sur"@;
    let part = " "@ + url + " ("@ + error + ")"@;
    let asked = unanswered_question(url, error);
    let demanded = unanswered_demand(url, error);
    let tail = asked.skip(head.len() + part.len() as int);
    assert(asked =~= head + part + tail);
    law_part_is_held(head, part, tail, asked);
    assert(demanded =~= head + part + seq![]);
    law_part_is_held(head, part, seq![], demanded);
}

/// However many slashes end the configured URL, it is used without them. Where nothing else was
/// configured, the server is the one on the default port of this machine.
pub proof fn law_final_slashes_are_taken_off(endpoint: Seq<char>, slashes: Seq<char>)
    requires
        endpoint.len() > 0,
        endpoint[0] != '/',
        endpoint.last() != '/',
        forall|i: int| 0 <= i < slashes.len() ==> #[trigger] slashes[i] == '/',
    ensures
        base_of(Some(endpoint + slashes)) == endpoint,
        base_of(Some(slashes)) == "http://127.0.0.1:"@ + decimal(1919),
        base_of(None) == "http://127.0.0.1:"@ + decimal(1919),
{
    assert(seq![] + endpoint + slashes =~= endpoint + slashes);
    assert(seq![] + endpoint =~= endpoint);
    law_strip_takes_off_one_character(seq![], endpoint, slashes, '/');
}

/// A question for the last requests asks for as many as the limit says.
pub proof fn law_limit_is_asked_for(limit: u32)
    ensures
        (Question::Requests { limit: Some(limit) }).path() == (Question::Requests { limit: None })
            .path() + "?limit="@ + decimal(limit as nat),
{
    reveal_strlit("/v1/requests");
    reveal_strlit("/v1/requests?limit=");
    reveal_strlit("?limit=");
    assert("/v1/requests?limit="@ =~= "/v1/requests"@ + "?limit="@);
}

/// What an exchange stands for holds all that came of the request.
pub proof fn law_exchange_is_held_whole(
    error: String,
    success: bool,
    status: String,
    body: String,
    value: Value,
)
    ensures
        (Exchange::Unprepared { error })@ == (ExchangeModel::Unprepared { error: error@ }),
        (Exchange::Unanswered { error })@ == (ExchangeModel::Unanswered { error: error@ }),
        (Exchange::Answered { success, status, body })@ == (ExchangeModel::Answered {
            success,
            status: status@,
            body: body@,
        }),
        value_result(Ok(value)) == Ok::<Json, Seq<char>>(json_of(value)),
        value_result(Err(error)) == Err::<Json, Seq<char>>(error@),
{
}

} // verus!

//! What is sent to a backend, and what is made of its reply.

use crate::adapter::{BackendConfig, BackendView, Protocol};
use crate::json::{field_of, json_text, parse, parse_outcome, print, with, Json, JsonView};
use crate::text::{chars_of, decimal, decimal_text};
use vstd::prelude::*;
use vstd::utf8::encode_utf8;

verus! {

/// The headers of a request, as `reqwest` takes them.
#[verifier::external_type_specification]
#[verifier::external_body]
#[verifier::reject_recursive_types(T)]
pub struct ExHeaderMap<T>(reqwest::header::HeaderMap<T>);

/// The value of a header, as `reqwest` takes it.
#[verifier::external_type_specification]
#[verifier::external_body]
pub struct ExHeaderValue(reqwest::header::HeaderValue);

/// The values under each name of a header map.
pub uninterp spec fn header_entries(map: reqwest::header::HeaderMap) -> Map<
    Seq<char>,
    Seq<Seq<u8>>,
>;

/// The bytes of a header value.
pub uninterp spec fn header_bytes(value: reqwest::header::HeaderValue) -> Seq<u8>;

/// Whether a text may stand in a header: it has no control characters but tabs.
pub open spec fn fits_header(text: Seq<char>) -> bool {
    forall|i: int|
        0 <= i < text.len() ==> {
            let c = #[trigger] text[i];
            c == '\t' || (c >= ' ' && c != '\x7f')
        }
}

/// Whether a text is a header name in its normal form.
pub open spec fn is_header_name(name: Seq<char>) -> bool {
    &&& 0 < name.len() <= 64
    &&& forall|i: int|
        0 <= i < name.len() ==> {
            let c = #[trigger] name[i];
            'a' <= c <= 'z' || c == '-'
        }
}

/// `HeaderMap::new` makes a map without headers.
#[verifier::external_body]
fn no_headers() -> (headers: reqwest::header::HeaderMap)
    ensures
        (header_entries(headers) == Map::<Seq<char>, Seq<Seq<u8>>>::empty()),
{
    reqwest::header::HeaderMap::new()
}

/// `HeaderMap::insert` puts a value under a name, in place of those that were there. It panics
/// on what is no name, and on a map that is too large.
#[verifier::external_body]
fn insert_header(
    map: &mut reqwest::header::HeaderMap,
    name: &'static str,
    value: reqwest::header::HeaderValue,
)
    requires
        is_header_name(name@),
        header_entries(*old(map)).dom().finite(),
        header_entries(*old(map)).len() < 64,
    ensures
        header_entries(*final(map)) == header_entries(*old(map)).insert(
            name@,
            seq![header_bytes(value)],
        ),
{
    map.insert(name, value);
}

/// `HeaderValue::from_str` takes the bytes of a text that may stand in a header, and nothing
/// else.
#[verifier::external_body]
fn header_value(text: &str) -> (value: Option<reqwest::header::HeaderValue>)
    ensures
        value is Some <==> fits_header(text@),
        value matches Some(v) ==> header_bytes(v) == encode_utf8(text@),
{
    reqwest::header::HeaderValue::from_str(text).ok()
}

/// How connections to the backends are kept.
pub struct HttpClient {
    pub user_agent: &'static str,
    pub pool_max_idle_per_host: usize,
    pub pool_idle_timeout_secs: u64,
    pub timeout_secs: u64,
}

/// A request that is ready to be sent.
pub struct OutboundCall {
    pub url: String,
    pub headers: reqwest::header::HeaderMap,
    pub body: String,
}

/// The headers that a backend is sent.
pub open spec fn headers_for(backend: BackendView) -> Map<Seq<char>, Seq<Seq<u8>>> {
    let plain = Map::<Seq<char>, Seq<Seq<u8>>>::empty().insert(
        "content-type"@,
        seq![encode_utf8("application/json"@)],
    );
    match backend.protocol {
        Protocol::OpenAI => plain.insert(
            "authorization"@,
            seq![encode_utf8("Bearer "@ + backend.api_key)],
        ),
        Protocol::Anthropic => plain.insert(
            "x-api-key"@,
            seq![encode_utf8(backend.api_key)],
        ).insert("anthropic-version"@, seq![encode_utf8("2023-06-01"@)]),
    }
}

/// Whether a status stands for success.
pub open spec fn is_success(status: u16) -> bool {
    200 <= status < 300
}

/// The OpenAI word for the kind of error that a status stands for.
pub open spec fn error_kind(status: u16) -> Seq<char> {
    if status == 400 {
        "invalid_request_error"@
    } else if status == 401 {
        "authentication_error"@
    } else if status == 403 {
        "permission_error"@
    } else if status == 404 {
        "not_found_error"@
    } else if status == 429 {
        "rate_limit_error"@
    } else if status == 500 || status == 502 || status == 503 || status == 504 {
        "server_error"@
    } else {
        "api_error"@
    }
}

/// What a backend says of its error: the text under `message` of `error`, or else the whole
/// body.
pub open spec fn backend_words(parsed: Option<JsonView>, body: Seq<char>) -> Seq<char> {
    match field_of(field_of(parsed, "error"@), "message"@) {
        Some(JsonView::Text(message)) => message,
        _ => body,
    }
}

/// The document that a body holds, where it holds one.
pub open spec fn document_in(body: Seq<char>) -> Option<JsonView> {
    match parse_outcome(body) {
        Ok(doc) => Some(doc),
        Err(_) => None,
    }
}

/// The message of an error: what the backend says, and the status.
pub open spec fn error_message(status: u16, words: Seq<char>) -> Seq<char> {
    words + " (HTTP "@ + decimal(status as nat) + ")"@
}

/// A backend's error as OpenAI words it.
pub open spec fn backend_error_view(status: u16, words: Seq<char>) -> JsonView {
    JsonView::Object(
        map!["error"@ => JsonView::Object(map![
            "message"@ => JsonView::Text(error_message(status, words)),
            "type"@ => JsonView::Text(error_kind(status)),
            "code"@ => JsonView::Number(decimal(status as nat))
        ])],
    )
}

/// Why a backend gave no completion.
pub enum ClientError {
    /// It answered with an error; this is the error as OpenAI words it.
    Backend(String),
    /// Its reply is no JSON document; this is what is wrong with it.
    Reply(String),
}

impl ClientError {
    /// The words of the error.
    pub open spec fn words(self) -> Seq<char> {
        match self {
            ClientError::Backend(text) => text@,
            ClientError::Reply(text) => text@,
        }
    }

    /// The words of the error.
    pub fn message(&self) -> (message: String)
        ensures
            message@ == self.words(),
    {
        match self {
            ClientError::Backend(text) => text.clone(),
            ClientError::Reply(text) => text.clone(),
        }
    }
}

impl HttpClient {
    /// Up to 20 idle connections to a host, for 30 seconds, and 120 seconds for a reply.
    pub fn new() -> (client: HttpClient)
        ensures
            client.user_agent@ == "curl/8.5.0"@,
            client.pool_max_idle_per_host == 20,
            client.pool_idle_timeout_secs == 30,
            client.timeout_secs == 120,
    {
        HttpClient {
            user_agent: "curl/8.5.0",
            pool_max_idle_per_host: 20,
            pool_idle_timeout_secs: 30,
            timeout_secs: 120,
        }
    }

    /// The headers that `backend` is sent.
    pub fn build_headers(&self, backend: &BackendConfig) -> (headers: reqwest::header::HeaderMap)
        requires
            fits_header(backend.api_key@),
        ensures
            header_entries(headers) == headers_for(backend@),
    {
        proof {
            reveal_strlit("content-type");
            reveal_strlit("authorization");
            reveal_strlit("x-api-key");
            reveal_strlit("anthropic-version");
            reveal_strlit("application/json");
            reveal_strlit("2023-06-01");
            reveal_strlit("Bearer ");
        }
        let mut headers = no_headers();
        insert_text(&mut headers, "content-type", "application/json");
        match backend.protocol {
            Protocol::OpenAI => {
                let bearer = "Bearer ".to_string().concat(backend.api_key.as_str());
                insert_text(&mut headers, "authorization", bearer.as_str());
            },
            Protocol::Anthropic => {
                insert_text(&mut headers, "x-api-key", backend.api_key.as_str());
                insert_text(&mut headers, "anthropic-version", "2023-06-01");
            },
        }
        headers
    }

    /// The request that carries `payload` to `backend`.
    pub fn prepare_request(&self, backend: &BackendConfig, payload: &Json) -> (call: OutboundCall)
        requires
            fits_header(backend.api_key@),
        ensures
            call.url@ == backend.url@,
            header_entries(call.headers) == headers_for(backend@),
            call.body@ == json_text(payload@),
    {
        OutboundCall {
            url: backend.url.clone(),
            headers: self.build_headers(backend),
            body: print(payload),
        }
    }

    /// The document in a backend's reply, or why there is none.
    pub fn receive_response(&self, status: u16, body: &str) -> (outcome: Result<Json, ClientError>)
        ensures
            is_success(status) ==> match parse_outcome(body@) {
                Ok(doc) => outcome is Ok && outcome->Ok_0@ == doc,
                Err(words) => outcome is Err && outcome->Err_0 is Reply && outcome->Err_0.words()
                    == words,
            },
            !is_success(status) ==> outcome is Err && outcome->Err_0 is Backend
                && outcome->Err_0.words() == json_text(
                backend_error_view(status, backend_words(document_in(body@), body@)),
            ),
    {
        if succeeded(status) {
            match parse(body) {
                Ok(doc) => Ok(doc),
                Err(words) => Err(ClientError::Reply(words)),
            }
        } else {
            Err(backend_error(status, body))
        }
    }
}

/// Puts a text under a name.
fn insert_text(map: &mut reqwest::header::HeaderMap, name: &'static str, text: &str)
    requires
        is_header_name(name@),
        fits_header(text@),
        header_entries(*old(map)).dom().finite(),
        header_entries(*old(map)).len() < 64,
    ensures
        header_entries(*final(map)) == header_entries(*old(map)).insert(
            name@,
            seq![encode_utf8(text@)],
        ),
{
    match header_value(text) {
        Some(value) => insert_header(map, name, value),
        None => vstd::pervasive::unreached(),
    }
}

/// Whether the key of a backend may stand in a header.
pub fn key_fits_header(backend: &BackendConfig) -> (fits: bool)
    ensures
        fits == fits_header(backend.api_key@),
{
    let chars = chars_of(backend.api_key.as_str());
    for i in 0..chars.len()
        invariant
            chars@ == backend.api_key@,
            forall|j: int|
                0 <= j < i ==> {
                    let c = #[trigger] chars@[j];
                    c == '\t' || (c >= ' ' && c != '\x7f')
                },
    {
        let c = chars[i];
        if c != '\t' && (c < ' ' || c == '\x7f') {
            assert(!fits_header(backend.api_key@)) by {
                assert(backend.api_key@[i as int] == c);
            }
            return false;
        }
    }
    true
}

/// Whether a status stands for success.
pub fn succeeded(status: u16) -> (yes: bool)
    ensures
        yes == is_success(status),
{
    200 <= status && status < 300
}

/// What a backend says of its error, from the document in its reply, where there is one.
pub fn words_of_backend(parsed: Option<&Json>, body: &str) -> (words: String)
    ensures
        words@ == backend_words(
            match parsed {
                Some(doc) => Some(doc@),
                None => None,
            },
            body@,
        ),
{
    let error = match parsed {
        Some(doc) => doc.get("error"),
        None => None,
    };
    let message = match error {
        Some(error) => error.get("message"),
        None => None,
    };
    let text = match message {
        Some(message) => message.as_str(),
        None => None,
    };
    match text {
        Some(text) => text.to_string(),
        None => body.to_string(),
    }
}

/// The OpenAI kind and message of a backend's error.
pub fn map_backend_error(status: u16, body: &str) -> (error: (String, String))
    ensures
        error.0@ == error_kind(status),
        error.1@ == error_message(status, backend_words(document_in(body@), body@)),
{
    let words = match parse(body) {
        Ok(doc) => words_of_backend(Some(&doc), body),
        Err(_) => words_of_backend(None, body),
    };
    let kind = if status == 400 {
        "invalid_request_error"
    } else if status == 401 {
        "authentication_error"
    } else if status == 403 {
        "permission_error"
    } else if status == 404 {
        "not_found_error"
    } else if status == 429 {
        "rate_limit_error"
    } else if status == 500 || status == 502 || status == 503 || status == 504 {
        "server_error"
    } else {
        "api_error"
    };
    let message = words.concat(" (HTTP ").concat(decimal_text(status as u64).as_str()).concat(")");
    (kind.to_string(), message)
}

/// A backend's error as OpenAI words it.
pub fn backend_error(status: u16, body: &str) -> (error: ClientError)
    ensures
        error is Backend,
        error.words() == json_text(
            backend_error_view(status, backend_words(document_in(body@), body@)),
        ),
{
    let (kind, message) = map_backend_error(status, body);
    let inner = with(
        with(
            with(Vec::new(), "message", Json::text(message.as_str())),
            "type",
            Json::text(kind.as_str()),
        ),
        "code",
        Json::count(status as u64),
    );
    let doc = Json::Object(with(Vec::new(), "error", Json::Object(inner)));
    ClientError::Backend(print(&doc))
}

/// Every error of a backend reads like one of OpenAI: under `error` stand its message, which
/// ends in the status, its type, and the status as its code.
pub proof fn law_errors_read_like_openai(status: u16, body: Seq<char>)
    ensures
        ({
            let words = backend_words(document_in(body), body);
            let error = backend_error_view(status, words).field("error"@);
            &&& field_of(error, "message"@) == Some(
                JsonView::Text(words + " (HTTP "@ + decimal(status as nat) + ")"@),
            )
            &&& field_of(error, "type"@) == Some(JsonView::Text(error_kind(status)))
            &&& field_of(error, "code"@) == Some(JsonView::Number(decimal(status as nat)))
        }),
{
    reveal_strlit("message");
    reveal_strlit("type");
    reveal_strlit("code");
    assert("message"@.len() != "type"@.len());
    assert("message"@.len() != "code"@.len());
    assert("type"@[0] != "code"@[0]);
}

/// A backend is told the key in the one header that its protocol has for it.
pub proof fn law_key_in_one_header(backend: BackendView)
    ensures
        headers_for(backend).contains_key("authorization"@) <==> backend.protocol == Protocol::OpenAI,
        headers_for(backend).contains_key("x-api-key"@) <==> backend.protocol == Protocol::Anthropic,
        headers_for(backend)["content-type"@] == seq![encode_utf8("application/json"@)],
{
    reveal_strlit("content-type");
    reveal_strlit("authorization");
    reveal_strlit("x-api-key");
    reveal_strlit("anthropic-version");
    assert("content-type"@.len() == 12);
    assert("authorization"@.len() == 13);
    assert("x-api-key"@.len() == 9);
    assert("anthropic-version"@.len() == 17);
}

/// A backend is sent its key as its protocol wants it, and the headers of its protocol, and no
/// others.
pub proof fn law_headers(backend: BackendView, name: Seq<char>)
    ensures
        headers_for(backend)["content-type"@] == seq![encode_utf8("application/json"@)],
        backend.protocol is OpenAI ==> headers_for(backend)["authorization"@] == seq![
            encode_utf8("Bearer "@ + backend.api_key),
        ],
        backend.protocol is Anthropic ==> headers_for(backend)["x-api-key"@] == seq![
            encode_utf8(backend.api_key),
        ],
        backend.protocol is Anthropic ==> headers_for(backend)["anthropic-version"@] == seq![
            encode_utf8("2023-06-01"@),
        ],
        headers_for(backend).contains_key(name) <==> match backend.protocol {
            Protocol::OpenAI => name == "content-type"@ || name == "authorization"@,
            Protocol::Anthropic => name == "content-type"@ || name == "x-api-key"@ || name
                == "anthropic-version"@,
        },
{
    reveal_strlit("content-type");
    reveal_strlit("authorization");
    reveal_strlit("x-api-key");
    reveal_strlit("anthropic-version");
    assert("content-type"@.len() == 12);
    assert("authorization"@.len() == 13);
    assert("x-api-key"@.len() == 9);
    assert("anthropic-version"@.len() == 17);
}

/// A status stands for success where its first of three digits is a two, and for the error that
/// OpenAI gives the same status; statuses that OpenAI has no word for are errors of the API.
pub proof fn law_statuses(status: u16)
    ensures
        is_success(status) <==> status / 100 == 2,
        status == 400 ==> error_kind(status) == "invalid_request_error"@,
        status == 401 ==> error_kind(status) == "authentication_error"@,
        status == 403 ==> error_kind(status) == "permission_error"@,
        status == 404 ==> error_kind(status) == "not_found_error"@,
        status == 429 ==> error_kind(status) == "rate_limit_error"@,
        status == 500 || 502 <= status <= 504 ==> error_kind(status) == "server_error"@,
        status < 400 || status == 402 || 404 < status < 429 || 429 < status < 500 || status == 501
            || status > 504 ==> error_kind(status) == "api_error"@,
{
}

/// What a backend says of its error is the text under `message` of the object under `error` of its
/// reply, where that is there, and else the whole reply, letter for letter.
pub proof fn law_words_of_the_backend(parsed: Option<JsonView>, body: Seq<char>)
    ensures
        ({
            let doc = parsed->0->Object_0;
            let inner = doc["error"@]->Object_0;
            let told = parsed is Some && parsed->0 is Object && doc.contains_key("error"@)
                && doc["error"@] is Object && inner.contains_key("message"@)
                && inner["message"@] is Text;
            &&& told ==> backend_words(parsed, body) == inner["message"@]->Text_0
            &&& !told ==> backend_words(parsed, body) == body
        }),
        parse_outcome(body) is Err ==> backend_words(document_in(body), body) == body,
        parse_outcome(body) is Ok ==> document_in(body) == Some(parse_outcome(body)->Ok_0),
{
}

/// The error that is made of a backend's has a message, which is the backend's words with the
/// digits of the status, a type and a code, and nothing else.
pub proof fn law_error_has_three_fields(status: u16, words: Seq<char>, key: Seq<char>)
    ensures
        ({
            let doc = backend_error_view(status, words);
            let inner = doc->Object_0["error"@];
            &&& doc is Object
            &&& doc->Object_0.contains_key(key) <==> key == "error"@
            &&& inner is Object
            &&& inner->Object_0.contains_key(key) <==> key == "message"@ || key == "type"@ || key
                == "code"@
            &&& inner->Object_0["message"@] == JsonView::Text(
                words + " (HTTP "@ + decimal(status as nat) + ")"@,
            )
            &&& inner->Object_0["type"@] == JsonView::Text(error_kind(status))
            &&& inner->Object_0["code"@] == JsonView::Number(decimal(status as nat))
        }),
{
    reveal_strlit("message");
    reveal_strlit("type");
    reveal_strlit("code");
    assert("message"@.len() != "type"@.len());
    assert("message"@.len() != "code"@.len());
    assert("type"@[0] != "code"@[0]);
}

/// The words of an error are the ones that it was made with.
pub proof fn law_words(text: String)
    ensures
        ClientError::Backend(text).words() == text@,
        ClientError::Reply(text).words() == text@,
{
}

} // verus!

use xingdu::adapter::Protocol;
use xingdu::json::{parse, print, with, Json};
use xingdu::server::chat::{
    token_accepted, Answer, ChatEvent, ChatExchange, Command, Note, Outbound, Turn, BAD_GATEWAY,
    SERVICE_UNAVAILABLE, UNAUTHORIZED,
};
use xingdu::types::{Choice, Message, OpenAIRequest, OpenAIResponse, Usage};

fn request(stream: Option<bool>) -> OpenAIRequest {
    OpenAIRequest {
        model: "DeepSeek-Chat".to_string(),
        messages: vec![Message { role: "user".to_string(), content: Json::text("hi") }],
        stream,
        extra: Vec::new(),
    }
}

fn response(content: &str, usage: Option<Usage>) -> OpenAIResponse {
    OpenAIResponse {
        model: "deepseek-v4".to_string(),
        choices: vec![Choice {
            content: Some(content.to_string()),
            message_extra: Vec::new(),
            extra: Vec::new(),
        }],
        usage,
        extra: Vec::new(),
    }
}

fn open_config() -> ChatEvent {
    ChatEvent::ConfigRead { auth_enabled: false, has_api_keys: true }
}

fn processed() -> ChatEvent {
    ChatEvent::RequestProcessed {
        request: request(None),
        selected_model: "deepseek-coder".to_string(),
        modified_messages: Vec::new(),
        api_key: Some("sk".to_string()),
    }
}

fn step(exchange: ChatExchange, event: ChatEvent) -> Turn {
    assert!(exchange.expects(&event));
    exchange.turn(event)
}

/// Takes the events in turn; notes and commands of all but the last turn are dropped.
fn run(start: ChatExchange, events: Vec<ChatEvent>) -> Turn {
    let mut events = events.into_iter();
    let mut turn = step(start, events.next().unwrap());
    for event in events {
        turn = step(turn.exchange, event);
    }
    turn
}

fn notes(turn: &Turn) -> Vec<String> {
    turn.notes
        .iter()
        .map(|note| match note {
            Note::CountError => "error".to_string(),
            Note::CountCacheHit => "cache hit".to_string(),
            Note::CountRequest { model, tokens_in, tokens_out, latency_ms } => {
                format!("request {model} {tokens_in} {tokens_out} {latency_ms}")
            }
            Note::BreakerSuccess { backend } => format!("success {backend}"),
            Note::BreakerFailure { backend } => format!("failure {backend}"),
            Note::StoreInCache { request, raw } => {
                format!("store {} for {}", print(raw), request.model)
            }
        })
        .collect()
}

fn failure(turn: Turn) -> (u16, String) {
    match turn.command {
        Command::Reply { answer: Answer::Failure { status, body } } => (status, print(&body)),
        _ => panic!("not a failure"),
    }
}

fn completion(turn: Turn) -> OpenAIResponse {
    match turn.command {
        Command::Reply { answer: Answer::Completion { response } } => response,
        _ => panic!("not a completion"),
    }
}

fn sent(turn: &Turn) -> &Outbound {
    match &turn.command {
        Command::Send { outbound } => outbound,
        Command::OpenStream { outbound } => outbound,
        _ => panic!("not sent"),
    }
}

#[test]
fn keys_are_asked_for() {
    for (auth_enabled, has_api_keys) in [(false, false), (false, true), (true, false)] {
        let turn = step(
            ChatExchange::new(request(None), true, true),
            ChatEvent::ConfigRead { auth_enabled, has_api_keys },
        );
        match turn.command {
            Command::RunRequestPipeline { request, env_key } => {
                assert_eq!(request.model, "DeepSeek-Chat");
                assert_eq!(env_key, "DEEPSEEK_API_KEY");
            }
            _ => panic!("not let in"),
        }
    }
    let turn = step(
        ChatExchange::new(request(None), true, true),
        ChatEvent::ConfigRead { auth_enabled: true, has_api_keys: true },
    );
    assert!(matches!(turn.command, Command::CheckToken));
    let turn = step(turn.exchange, ChatEvent::TokenChecked { accepted: true });
    assert!(matches!(turn.command, Command::RunRequestPipeline { env_key: "DEEPSEEK_API_KEY", .. }));
}

#[test]
fn refused_client() {
    let turn = run(
        ChatExchange::new(request(None), true, true),
        vec![
            ChatEvent::ConfigRead { auth_enabled: true, has_api_keys: true },
            ChatEvent::TokenChecked { accepted: false },
        ],
    );
    assert_eq!(notes(&turn), Vec::<String>::new());
    assert_eq!(
        failure(turn),
        (
            UNAUTHORIZED,
            "{\"error\":{\"message\":\"Unauthorized\",\"type\":\"auth_error\"}}".to_string()
        )
    );
    assert_eq!(UNAUTHORIZED, 401);
}

#[test]
fn open_breaker() {
    let turn = run(
        ChatExchange::new(request(None), true, true),
        vec![open_config(), processed()],
    );
    match &turn.command {
        Command::AskBreaker { model } => assert_eq!(model, "deepseek-coder"),
        _ => panic!("the breaker is not asked"),
    }
    let turn = step(turn.exchange, ChatEvent::BreakerAnswered { allowed: false });
    assert_eq!(notes(&turn), vec!["error"]);
    assert_eq!(
        failure(turn),
        (
            SERVICE_UNAVAILABLE,
            "{\"error\":{\"message\":\"circuit breaker open\",\"type\":\"server_error\"}}".to_string()
        )
    );
    assert_eq!(SERVICE_UNAVAILABLE, 503);
}

#[test]
fn cached_completion() {
    let turn = run(
        ChatExchange::new(request(Some(true)), false, true),
        vec![open_config(), processed()],
    );
    assert!(matches!(turn.command, Command::ReadCache { .. }));
    let turn = step(
        turn.exchange,
        ChatEvent::CacheHit { cached: Some(response("  kept as it is  ", None)) },
    );
    assert_eq!(notes(&turn), vec!["cache hit"]);
    assert_eq!(completion(turn).choices[0].content.as_deref(), Some("  kept as it is  "));
}

#[test]
fn cached_document_that_is_no_completion() {
    let turn = run(
        ChatExchange::new(request(None), true, true),
        vec![
            open_config(),
            processed(),
            ChatEvent::BreakerAnswered { allowed: true },
            ChatEvent::CacheHit { cached: None },
        ],
    );
    assert_eq!(notes(&turn), vec!["cache hit"]);
    assert_eq!(sent(&turn).backend.name, "deepseek");
}

#[test]
fn what_is_sent() {
    let turn = run(
        ChatExchange::new(request(None), false, false),
        vec![
            open_config(),
            ChatEvent::RequestProcessed {
                request: request(None),
                selected_model: "kimi-v4".to_string(),
                modified_messages: vec![parse("{\"content\": \"changed\"}").ok().unwrap()],
                api_key: None,
            },
        ],
    );
    assert!(matches!(turn.command, Command::Send { .. }));
    let outbound = sent(&turn);
    assert_eq!(outbound.backend.name, "deepseek");
    assert_eq!(outbound.backend.url, "https://api.deepseek.com/v1/chat/completions");
    assert_eq!(outbound.backend.protocol, Protocol::OpenAI);
    assert_eq!(outbound.backend.api_key, "");
    assert_eq!(outbound.backend.model, "kimi-v4");
    assert_eq!(outbound.request.model, "kimi-v4");
    assert_eq!(outbound.request.messages.len(), 1);
    assert_eq!(outbound.request.messages[0].role, "user");
    assert_eq!(outbound.request.messages[0].content.as_str(), Some("changed"));
}

#[test]
fn stream_that_opens() {
    let turn = run(
        ChatExchange::new(request(Some(true)), true, false),
        vec![open_config(), processed(), ChatEvent::BreakerAnswered { allowed: true }],
    );
    assert!(matches!(turn.command, Command::OpenStream { .. }));
    assert_eq!(sent(&turn).backend.api_key, "sk");
    let turn = step(turn.exchange, ChatEvent::StreamOpened);
    assert_eq!(notes(&turn), vec!["request deepseek-coder 0 0 0", "success deepseek"]);
    match turn.command {
        Command::Reply { answer: Answer::Stream { protocol, model } } => {
            assert_eq!(protocol, Protocol::OpenAI);
            assert_eq!(model, "deepseek-coder");
        }
        _ => panic!("no stream"),
    }
}

#[test]
fn backend_that_fails() {
    for (stream, has_breaker) in [(true, true), (true, false), (false, true), (false, false)] {
        let mut events = vec![open_config(), processed()];
        if has_breaker {
            events.push(ChatEvent::BreakerAnswered { allowed: true });
        }
        events.push(ChatEvent::BackendFailed { error: "no \"route\"".to_string() });
        let turn = run(ChatExchange::new(request(Some(stream)), has_breaker, false), events);
        if has_breaker {
            assert_eq!(notes(&turn), vec!["error", "failure deepseek"]);
        } else {
            assert_eq!(notes(&turn), vec!["error"]);
        }
        assert_eq!(
            failure(turn),
            (
                BAD_GATEWAY,
                "{\"error\":{\"message\":\"no \\\"route\\\"\",\"type\":\"server_error\"}}".to_string()
            )
        );
    }
    assert_eq!(BAD_GATEWAY, 502);
}

#[test]
fn longest_exchange() {
    let mut exchange = ChatExchange::new(request(Some(false)), true, true);
    let usage = Usage { prompt_tokens: 11, completion_tokens: 22, extra: Vec::new() };
    let events = vec![
        ChatEvent::ConfigRead { auth_enabled: true, has_api_keys: true },
        ChatEvent::TokenChecked { accepted: true },
        processed(),
        ChatEvent::BreakerAnswered { allowed: true },
        ChatEvent::CacheMissed,
        ChatEvent::ReplyReceived { response: response(" hi\n", Some(usage)), latency_ms: 33 },
        ChatEvent::ResponseProcessed { raw: Some(Json::text("raw")) },
    ];
    let mut left = Vec::new();
    let mut last = None;
    for event in events {
        let turn = step(exchange, event);
        left.extend(notes(&turn));
        exchange = turn.exchange;
        last = Some(turn.command);
    }
    assert_eq!(left, vec!["request deepseek-v4 11 22 33", "success deepseek", "store \"raw\" for DeepSeek-Chat"]);
    match last {
        Some(Command::Reply { answer: Answer::Completion { response } }) => {
            assert_eq!(response.choices[0].content.as_deref(), Some("hi"));
            assert_eq!(response.model, "deepseek-v4");
        }
        _ => panic!("no completion"),
    }
    assert!(!exchange.expects(&ChatEvent::CacheMissed));
    assert!(!exchange.expects(&open_config()));
}

#[test]
fn completion_without_usage_or_cache() {
    let turn = run(
        ChatExchange::new(request(None), false, false),
        vec![open_config(), processed()],
    );
    let turn = step(
        turn.exchange,
        ChatEvent::ReplyReceived { response: response("x", None), latency_ms: 5 },
    );
    assert_eq!(notes(&turn), vec!["request deepseek-v4 0 0 5"]);
    match &turn.command {
        Command::RunResponsePipeline { request, response } => {
            assert_eq!(request.model, "DeepSeek-Chat");
            assert_eq!(response.choices[0].content.as_deref(), Some("x"));
        }
        _ => panic!("no response pipeline"),
    }
    let turn = step(turn.exchange, ChatEvent::ResponseProcessed { raw: Some(Json::Null) });
    assert_eq!(notes(&turn), Vec::<String>::new());
    assert_eq!(completion(turn).choices[0].content.as_deref(), Some("x"));
}

#[test]
fn pipeline_that_leaves_nothing_to_store() {
    let turn = run(
        ChatExchange::new(request(None), false, true),
        vec![
            open_config(),
            processed(),
            ChatEvent::CacheMissed,
            ChatEvent::ReplyReceived { response: response("x", None), latency_ms: 0 },
            ChatEvent::ResponseProcessed { raw: None },
        ],
    );
    assert_eq!(notes(&turn), Vec::<String>::new());
}

#[test]
fn events_out_of_turn() {
    let exchange = ChatExchange::new(request(None), true, true);
    assert!(exchange.expects(&open_config()));
    assert!(!exchange.expects(&ChatEvent::StreamOpened));
    assert!(!exchange.expects(&ChatEvent::TokenChecked { accepted: true }));
    let turn = step(exchange, open_config());
    assert!(!turn.exchange.expects(&open_config()));
    assert!(turn.exchange.expects(&processed()));
    let turn = step(turn.exchange, processed());
    assert!(!turn.exchange.expects(&ChatEvent::BackendFailed { error: String::new() }));
}

/// The client's request after a pipeline has changed every field of it.
fn edited(stream: Option<bool>) -> OpenAIRequest {
    OpenAIRequest {
        model: "glm-5.1".to_string(),
        messages: vec![Message { role: "system".to_string(), content: Json::text("edited") }],
        stream,
        extra: with(Vec::new(), "max_tokens", Json::count(9)),
    }
}

fn edited_by_pipeline(stream: Option<bool>) -> ChatEvent {
    ChatEvent::RequestProcessed {
        request: edited(stream),
        selected_model: "deepseek-v4-pro".to_string(),
        modified_messages: Vec::new(),
        api_key: None,
    }
}

#[test]
fn what_the_pipeline_changes_is_sent() {
    for (asked, left) in [(None, Some(true)), (Some(true), Some(false)), (Some(true), None)] {
        let turn = run(
            ChatExchange::new(request(asked), false, false),
            vec![open_config(), edited_by_pipeline(left)],
        );
        // The client decides whether a stream is opened.
        assert_eq!(matches!(turn.command, Command::OpenStream { .. }), asked == Some(true));
        let outbound = sent(&turn);
        assert_eq!(outbound.request.stream, left);
        assert_eq!(outbound.request.model, "deepseek-v4-pro");
        assert_eq!(outbound.request.messages.len(), 1);
        assert_eq!(outbound.request.messages[0].role, "system");
        assert_eq!(outbound.request.messages[0].content.as_str(), Some("edited"));
        assert_eq!(outbound.request.extra.len(), 1);
        assert_eq!(outbound.request.extra[0].key, "max_tokens");
        assert_eq!(print(&outbound.request.extra[0].value), "9");
        assert_eq!(outbound.backend.name, "deepseek");
        assert_eq!(outbound.backend.model, "deepseek-v4-pro");
    }
}

#[test]
fn cache_goes_by_the_client_request() {
    let turn = run(
        ChatExchange::new(request(None), false, true),
        vec![open_config(), edited_by_pipeline(None)],
    );
    match &turn.command {
        Command::ReadCache { request } => {
            assert_eq!(request.model, "DeepSeek-Chat");
            assert_eq!(request.messages[0].content.as_str(), Some("hi"));
            assert!(request.extra.is_empty());
        }
        _ => panic!("the cache is not read"),
    }
    let turn = step(turn.exchange, ChatEvent::CacheMissed);
    let turn = step(
        turn.exchange,
        ChatEvent::ReplyReceived { response: response(" x ", None), latency_ms: 0 },
    );
    let turn = step(turn.exchange, ChatEvent::ResponseProcessed { raw: Some(Json::text(" x ")) });
    match &turn.notes[0] {
        Note::StoreInCache { request, raw } => {
            assert_eq!(request.model, "DeepSeek-Chat");
            assert_eq!(request.messages[0].content.as_str(), Some("hi"));
            assert!(request.extra.is_empty());
            assert_eq!(raw.as_str(), Some(" x "));
        }
        _ => panic!("nothing is stored"),
    }
    assert_eq!(turn.notes.len(), 1);
}

#[test]
fn accepted_tokens() {
    assert!(token_accepted(Some(true)));
    assert!(!token_accepted(Some(false)));
    assert!(!token_accepted(None));
}

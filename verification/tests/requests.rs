use xingdu::json::{parse, print, with, Json, Member};
use xingdu::server::requests::{build_backend_request, tidy, RequestContext};
use xingdu::types::{Choice, Message, OpenAIRequest, OpenAIResponse, Usage};

fn doc(text: &str) -> Json {
    parse(text).ok().unwrap()
}

fn members(text: &str) -> Vec<Member> {
    match doc(text) {
        Json::Object(members) => members,
        _ => panic!("not an object"),
    }
}

fn request() -> OpenAIRequest {
    OpenAIRequest {
        model: "deepseek-chat".to_string(),
        messages: vec![Message { role: "user".to_string(), content: Json::text("hello") }],
        stream: Some(false),
        extra: members("{\"temperature\": 0.5, \"tools\": []}"),
    }
}

#[test]
fn messages_of_the_client_are_kept() {
    let ctx = RequestContext {
        request: request(),
        modified_messages: Vec::new(),
        selected_model: "deepseek-coder".to_string(),
    };
    let built = build_backend_request(&ctx);
    assert_eq!(built.model, "deepseek-coder");
    assert_eq!(built.messages.len(), 1);
    assert_eq!(built.messages[0].role, "user");
    assert_eq!(built.messages[0].content.as_str(), Some("hello"));
    assert_eq!(built.stream, Some(false));
    assert_eq!(print(&Json::Object(built.extra)), "{\"temperature\":0.5,\"tools\":[]}");
}

#[test]
fn modified_messages_take_over() {
    let ctx = RequestContext {
        request: request(),
        modified_messages: vec![
            doc("{\"role\": \"system\", \"content\": \"be brief\"}"),
            doc("{\"content\": [{\"type\": \"text\", \"text\": \"hi\"}]}"),
            doc("{\"role\": 7}"),
            doc("null"),
            doc("{\"role\": \"assistant\", \"content\": null}"),
        ],
        selected_model: "glm-5.1".to_string(),
    };
    let built = build_backend_request(&ctx);
    let said: Vec<(String, String)> = built
        .messages
        .iter()
        .map(|message| (message.role.clone(), print(&message.content)))
        .collect();
    let expected = [
        ("system", "\"be brief\""),
        ("user", "[{\"text\":\"hi\",\"type\":\"text\"}]"),
        ("user", "\"\""),
        ("user", "\"\""),
        ("assistant", "null"),
    ];
    assert_eq!(said.len(), expected.len());
    for (i, (role, content)) in expected.iter().enumerate() {
        assert_eq!(said[i].0, *role);
        assert_eq!(said[i].1, *content);
    }
    assert_eq!(built.model, "glm-5.1");
}

fn choice(content: Option<&str>) -> Choice {
    Choice {
        content: content.map(|text| text.to_string()),
        message_extra: members("{\"role\": \"assistant\"}"),
        extra: members("{\"index\": 0}"),
    }
}

fn response(choices: Vec<Choice>) -> OpenAIResponse {
    OpenAIResponse {
        model: "m".to_string(),
        choices,
        usage: Some(Usage {
            prompt_tokens: 3,
            completion_tokens: 4,
            extra: with(Vec::new(), "total_tokens", Json::count(7)),
        }),
        extra: members("{\"id\": \"x\"}"),
    }
}

#[test]
fn first_answer_is_trimmed() {
    let tidied = tidy(response(vec![choice(Some(" \n\u{3000}a b\t\u{a0}")), choice(Some(" c "))]));
    assert_eq!(tidied.choices.len(), 2);
    assert_eq!(tidied.choices[0].content.as_deref(), Some("a b"));
    assert_eq!(tidied.choices[1].content.as_deref(), Some(" c "));
    assert_eq!(print(&Json::Object(tidied.choices.into_iter().next().unwrap().extra)), "{\"index\":0}");
    let usage = tidied.usage.unwrap();
    assert_eq!((usage.prompt_tokens, usage.completion_tokens), (3, 4));
    assert_eq!(print(&Json::Object(usage.extra)), "{\"total_tokens\":7}");
    assert_eq!(print(&Json::Object(tidied.extra)), "{\"id\":\"x\"}");
}

#[test]
fn answers_without_text() {
    assert_eq!(tidy(response(vec![choice(None)])).choices[0].content, None);
    assert_eq!(tidy(response(Vec::new())).choices.len(), 0);
    assert_eq!(tidy(response(vec![choice(Some(" \r\n "))])).choices[0].content.as_deref(), Some(""));
    // A zero-width space is no white space.
    let kept = tidy(response(vec![choice(Some("\u{200b}x"))]));
    assert_eq!(kept.choices[0].content.as_deref(), Some("\u{200b}x"));
}

#[test]
fn trimming_again_changes_nothing() {
    let once = tidy(response(vec![choice(Some("  twice  over  "))]));
    assert_eq!(once.choices[0].content.as_deref(), Some("twice  over"));
    let twice = tidy(once);
    assert_eq!(twice.choices[0].content.as_deref(), Some("twice  over"));
}

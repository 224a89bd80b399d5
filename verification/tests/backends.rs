use xingdu::adapter::Protocol;
use xingdu::json::Json;
use xingdu::server::backends::{backend_profile, match_backend, select_backend_by_model};
use xingdu::server::documents::list_models;

#[test]
fn backends_of_models() {
    let expected = [
        ("MiniMax-M3", "MiniMax", "https://api.minimaxi.com/v1/chat/completions", Protocol::OpenAI, "MINIMAX_API_KEY"),
        ("deepseek-v4-flash", "deepseek", "https://api.deepseek.com/v1/chat/completions", Protocol::OpenAI, "DEEPSEEK_API_KEY"),
        ("kimi-latest", "kimi", "https://api.kimi.com/coding/v1/messages", Protocol::Anthropic, "KIMI_API_KEY"),
        ("mimo-v2.5", "xiaomi", "https://token-plan-cn.xiaomimimo.com/v1/chat/completions", Protocol::OpenAI, "MIMO_API_KEY"),
        ("glm-5.1", "zhipu", "https://open.bigmodel.cn/api/paas/v4/chat/completions", Protocol::OpenAI, "ZHIPU_API_KEY"),
        ("qwen3.6-plus", "bailian", "https://coding.dashscope.aliyuncs.com/apps/anthropic/v1/messages", Protocol::Anthropic, "DASHSCOPE_API_KEY"),
        ("", "bailian", "https://coding.dashscope.aliyuncs.com/apps/anthropic/v1/messages", Protocol::Anthropic, "DASHSCOPE_API_KEY"),
    ];
    for (model, name, url, protocol, env_key) in expected {
        let profile = backend_profile(model);
        assert_eq!(profile.name, name);
        assert_eq!(profile.endpoint(protocol), url);
        assert_eq!(select_backend_by_model(model, None, None).url, url);
        assert_eq!(profile.protocol, protocol);
        assert_eq!(profile.env_key, env_key);
    }
}

#[test]
fn case_of_models() {
    for model in ["DEEPSEEK-CHAT", "DeepSeek-chat", "deepseek-chat"] {
        assert_eq!(backend_profile(model).name, "deepseek");
    }
    // The Kelvin sign is a k in lower case.
    assert_eq!(backend_profile("\u{212a}imi-v4").name, "kimi");
    assert_eq!(match_backend("DEEPSEEK-CHAT").name, "bailian");
    assert_eq!(match_backend("deepseek").name, "deepseek");
    assert_eq!(match_backend("xdeepseek").name, "bailian");
    assert_eq!(match_backend("minimi").name, "bailian");
}

#[test]
fn selected_backends() {
    let backend = select_backend_by_model("Kimi-K2.6", None, Some("secret".to_string()));
    assert_eq!(backend.name, "kimi");
    assert_eq!(backend.protocol, Protocol::Anthropic);
    assert_eq!(backend.api_key, "secret");
    assert_eq!(backend.model, "Kimi-K2.6");
    let other = select_backend_by_model("Kimi-K2.6", Some(Protocol::OpenAI), None);
    assert_eq!(other.protocol, Protocol::OpenAI);
    assert_eq!(other.url, backend.url);
    assert_eq!(other.api_key, "");
}

#[test]
fn listed_models_are_served_by_their_owners() {
    let doc = list_models();
    let models = doc.get("data").unwrap().as_array().unwrap();
    assert_eq!(models.len(), 26);
    for model in models {
        let id = model.get("id").and_then(Json::as_str).unwrap();
        let owner = model.get("owned_by").and_then(Json::as_str).unwrap();
        assert_eq!(backend_profile(id).name.to_lowercase(), owner);
    }
}

#[test]
fn endpoints_go_by_the_protocol() {
    let expected = [
        (
            "qwen3.6-plus",
            "https://coding.dashscope.aliyuncs.com/apps/anthropic/v1/messages",
            "https://coding.dashscope.aliyuncs.com/v1/chat/completions",
        ),
        (
            "deepseek-v4-flash",
            "https://api.deepseek.com/anthropic/v1/messages",
            "https://api.deepseek.com/v1/chat/completions",
        ),
        (
            "glm-5.1",
            "https://open.bigmodel.cn/api/anthropic/v1/messages",
            "https://open.bigmodel.cn/api/paas/v4/chat/completions",
        ),
        (
            "MiniMax-M3",
            "https://api.minimaxi.com/anthropic/v1/messages",
            "https://api.minimaxi.com/v1/chat/completions",
        ),
        (
            "kimi-v4",
            "https://api.kimi.com/coding/v1/messages",
            "https://api.kimi.com/coding/v1/messages",
        ),
        (
            "mimo-v2.5",
            "https://token-plan-cn.xiaomimimo.com/v1/chat/completions",
            "https://token-plan-cn.xiaomimimo.com/v1/chat/completions",
        ),
    ];
    for (model, anthropic_url, openai_url) in expected {
        let plain = select_backend_by_model(model, None, Some("k".to_string()));
        for (protocol, url) in
            [(Protocol::Anthropic, anthropic_url), (Protocol::OpenAI, openai_url)]
        {
            let asked = select_backend_by_model(model, Some(protocol), Some("k".to_string()));
            assert_eq!(asked.protocol, protocol);
            assert_eq!(asked.url, url);
            assert_eq!(asked.name, plain.name);
            assert_eq!(asked.api_key, "k");
            assert_eq!(asked.model, model);
            if plain.protocol == protocol {
                assert_eq!(plain.url, url);
            }
        }
    }
}

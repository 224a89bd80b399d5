use xingdu::json::{parse, print, Json};
use xingdu::server::documents::{
    error_document, generic_ok, health, list_models, ollama_show, version_handler,
};
use xingdu::server::routes::{create_router, Endpoint, Method};

#[test]
fn short_documents() {
    assert_eq!(print(&health()), "{\"status\":\"ok\"}");
    assert_eq!(print(&generic_ok()), "{}");
    assert_eq!(print(&version_handler()), "{\"version\":\"0.1.0\"}");
    assert_eq!(
        print(&error_document("Unauthorized", "auth_error")),
        "{\"error\":{\"message\":\"Unauthorized\",\"type\":\"auth_error\"}}"
    );
}

#[test]
fn model_list() {
    let doc = list_models();
    assert_eq!(doc.get("object").unwrap().as_str(), Some("list"));
    let models = doc.get("data").unwrap().as_array().unwrap();
    assert_eq!(models.len(), 26);
    assert_eq!(
        print(&models[0]),
        "{\"id\":\"qwen3.6-plus\",\"object\":\"model\",\"owned_by\":\"bailian\"}"
    );
    assert_eq!(
        print(&models[13]),
        "{\"id\":\"kimi-k2.6\",\"object\":\"model\",\"owned_by\":\"kimi\"}"
    );
    assert_eq!(
        print(&models[25]),
        "{\"id\":\"glm-5.1\",\"object\":\"model\",\"owned_by\":\"zhipu\"}"
    );
}

#[test]
fn model_details() {
    let shown = ollama_show(&parse("{\"name\": \"kimi-v4\"}").ok().unwrap());
    assert_eq!(
        print(&shown),
        "{\"details\":{\"families\":[\"xingdu\"],\"family\":\"xingdu\",\"format\":\"gguf\",\
         \"parameter_size\":\"proxy\",\"parent_model\":\"\",\"quantization_level\":\"Q4_0\"},\
         \"license\":\"\",\"model_info\":{\"general.architecture\":\"xingdu\",\
         \"general.name\":\"kimi-v4\"},\"modelfile\":\"\",\"name\":\"kimi-v4\",\
         \"parameters\":\"\",\"template\":\"\"}"
    );
    for body in ["{}", "{\"name\": 7}", "[]", "null"] {
        let shown = ollama_show(&parse(body).ok().unwrap());
        assert_eq!(shown.get("name").and_then(Json::as_str), Some("unknown"));
    }
}

#[test]
fn routes() {
    let routes = create_router();
    assert_eq!(routes.len(), 15);
    for (i, route) in routes.iter().enumerate() {
        for other in &routes[i + 1..] {
            assert_ne!(route.path, other.path);
        }
    }
    let at = |path: &str| {
        let route = routes.iter().find(|route| route.path == path).unwrap();
        (route.method, route.endpoint)
    };
    assert_eq!(at("/v1/chat/completions"), (Method::Post, Endpoint::ChatCompletions));
    assert_eq!(at("/api/generate"), (Method::Post, Endpoint::ChatCompletions));
    assert_eq!(at("/v1/models"), (Method::Get, Endpoint::ListModels));
    assert_eq!(at("/api/tags"), (Method::Get, Endpoint::ListModels));
    assert_eq!(at("/api/show"), (Method::Post, Endpoint::OllamaShow));
    assert_eq!(at("/props"), (Method::Get, Endpoint::GenericOk));
    assert_eq!(at("/version"), (Method::Get, Endpoint::Version));
    assert_eq!(at("/health"), (Method::Get, Endpoint::Health));
    assert_eq!(at("/stats"), (Method::Get, Endpoint::Stats));
}

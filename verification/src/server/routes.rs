//! Which paths the proxy answers under.

use vstd::prelude::*;

verus! {

/// The method of a request.
#[derive(Clone, Copy, PartialEq, Eq, Structural, Debug)]
pub enum Method {
    Get,
    Post,
}

/// What answers a request.
#[derive(Clone, Copy, PartialEq, Eq, Structural, Debug)]
pub enum Endpoint {
    ChatCompletions,
    ListModels,
    OllamaShow,
    GenericOk,
    Version,
    Health,
    Stats,
}

/// A path, the method that it takes, and what answers there.
pub struct Route {
    pub path: &'static str,
    pub method: Method,
    pub endpoint: Endpoint,
}

impl Route {
    pub open spec fn view(&self) -> (Seq<char>, Method, Endpoint) {
        (self.path@, self.method, self.endpoint)
    }
}

/// The paths of OpenAI, those of Ollama, and the proxy's own.
pub open spec fn route_table() -> Seq<(Seq<char>, Method, Endpoint)> {
    seq![
        ("/v1/chat/completions"@, Method::Post, Endpoint::ChatCompletions),
        ("/v1/models"@, Method::Get, Endpoint::ListModels),
        ("/chat/completions"@, Method::Post, Endpoint::ChatCompletions),
        ("/models"@, Method::Get, Endpoint::ListModels),
        ("/api/show"@, Method::Post, Endpoint::OllamaShow),
        ("/api/generate"@, Method::Post, Endpoint::ChatCompletions),
        ("/api/chat"@, Method::Post, Endpoint::ChatCompletions),
        ("/api/tags"@, Method::Get, Endpoint::ListModels),
        ("/api/v1/models"@, Method::Get, Endpoint::ListModels),
        ("/api/v1/chat/completions"@, Method::Post, Endpoint::ChatCompletions),
        ("/v1/props"@, Method::Get, Endpoint::GenericOk),
        ("/props"@, Method::Get, Endpoint::GenericOk),
        ("/version"@, Method::Get, Endpoint::Version),
        ("/health"@, Method::Get, Endpoint::Health),
        ("/stats"@, Method::Get, Endpoint::Stats),
    ]
}

/// The routes of the proxy.
pub fn create_router() -> (routes: Vec<Route>)
    ensures
        routes@.map_values(|r: Route| r@) == route_table(),
{
    let routes = vec![
        Route { path: "/v1/chat/completions", method: Method::Post, endpoint: Endpoint::ChatCompletions },
        Route { path: "/v1/models", method: Method::Get, endpoint: Endpoint::ListModels },
        Route { path: "/chat/completions", method: Method::Post, endpoint: Endpoint::ChatCompletions },
        Route { path: "/models", method: Method::Get, endpoint: Endpoint::ListModels },
        Route { path: "/api/show", method: Method::Post, endpoint: Endpoint::OllamaShow },
        Route { path: "/api/generate", method: Method::Post, endpoint: Endpoint::ChatCompletions },
        Route { path: "/api/chat", method: Method::Post, endpoint: Endpoint::ChatCompletions },
        Route { path: "/api/tags", method: Method::Get, endpoint: Endpoint::ListModels },
        Route { path: "/api/v1/models", method: Method::Get, endpoint: Endpoint::ListModels },
        Route { path: "/api/v1/chat/completions", method: Method::Post, endpoint: Endpoint::ChatCompletions },
        Route { path: "/v1/props", method: Method::Get, endpoint: Endpoint::GenericOk },
        Route { path: "/props", method: Method::Get, endpoint: Endpoint::GenericOk },
        Route { path: "/version", method: Method::Get, endpoint: Endpoint::Version },
        Route { path: "/health", method: Method::Get, endpoint: Endpoint::Health },
        Route { path: "/stats", method: Method::Get, endpoint: Endpoint::Stats },
    ];
    assert(routes@.map_values(|r: Route| r@) =~= route_table());
    routes
}

/// No path is taken twice.
pub proof fn law_paths_are_distinct(i: int, j: int)
    requires
        0 <= i < j < route_table().len(),
    ensures
        route_table()[i].0 != route_table()[j].0,
{
    reveal_strlit("/v1/chat/completions");
    reveal_strlit("/v1/models");
    reveal_strlit("/chat/completions");
    reveal_strlit("/models");
    reveal_strlit("/api/show");
    reveal_strlit("/api/generate");
    reveal_strlit("/api/chat");
    reveal_strlit("/api/tags");
    reveal_strlit("/api/v1/models");
    reveal_strlit("/api/v1/chat/completions");
    reveal_strlit("/v1/props");
    reveal_strlit("/props");
    reveal_strlit("/version");
    reveal_strlit("/health");
    reveal_strlit("/stats");
    let a = route_table()[i].0;
    let b = route_table()[j].0;
    if a == b {
        assert(a.len() == b.len());
        assert(a[1] == b[1]);
        assert(a[2] == b[2]);
        assert(a[5] == b[5]);
        assert(a[6] == b[6]);
    }
}

/// Whether requests with `method` to `path` are answered by `endpoint`.
pub open spec fn routed(path: Seq<char>, method: Method, endpoint: Endpoint) -> bool {
    exists|i: int| 0 <= i < route_table().len() && #[trigger] route_table()[i] == (path, method, endpoint)
}

/// What is answered, and where: completions are asked for by posting to the paths of OpenAI and
/// Ollama, and the rest is fetched, but for the details of a model. There is nothing else.
pub proof fn law_routes()
    ensures
        route_table().len() == 15,
        routed("/v1/chat/completions"@, Method::Post, Endpoint::ChatCompletions),
        routed("/chat/completions"@, Method::Post, Endpoint::ChatCompletions),
        routed("/api/generate"@, Method::Post, Endpoint::ChatCompletions),
        routed("/api/chat"@, Method::Post, Endpoint::ChatCompletions),
        routed("/api/v1/chat/completions"@, Method::Post, Endpoint::ChatCompletions),
        routed("/v1/props"@, Method::Get, Endpoint::GenericOk),
        routed("/props"@, Method::Get, Endpoint::GenericOk),
        routed("/health"@, Method::Get, Endpoint::Health),
        routed("/v1/models"@, Method::Get, Endpoint::ListModels),
        routed("/models"@, Method::Get, Endpoint::ListModels),
        routed("/api/tags"@, Method::Get, Endpoint::ListModels),
        routed("/api/v1/models"@, Method::Get, Endpoint::ListModels),
        routed("/api/show"@, Method::Post, Endpoint::OllamaShow),
        routed("/stats"@, Method::Get, Endpoint::Stats),
        routed("/version"@, Method::Get, Endpoint::Version),
{
    assert(route_table()[0] == ("/v1/chat/completions"@, Method::Post, Endpoint::ChatCompletions));
    assert(route_table()[1] == ("/v1/models"@, Method::Get, Endpoint::ListModels));
    assert(route_table()[2] == ("/chat/completions"@, Method::Post, Endpoint::ChatCompletions));
    assert(route_table()[3] == ("/models"@, Method::Get, Endpoint::ListModels));
    assert(route_table()[4] == ("/api/show"@, Method::Post, Endpoint::OllamaShow));
    assert(route_table()[5] == ("/api/generate"@, Method::Post, Endpoint::ChatCompletions));
    assert(route_table()[6] == ("/api/chat"@, Method::Post, Endpoint::ChatCompletions));
    assert(route_table()[7] == ("/api/tags"@, Method::Get, Endpoint::ListModels));
    assert(route_table()[8] == ("/api/v1/models"@, Method::Get, Endpoint::ListModels));
    assert(route_table()[9] == ("/api/v1/chat/completions"@, Method::Post, Endpoint::ChatCompletions));
    assert(route_table()[10] == ("/v1/props"@, Method::Get, Endpoint::GenericOk));
    assert(route_table()[11] == ("/props"@, Method::Get, Endpoint::GenericOk));
    assert(route_table()[12] == ("/version"@, Method::Get, Endpoint::Version));
    assert(route_table()[13] == ("/health"@, Method::Get, Endpoint::Health));
    assert(route_table()[14] == ("/stats"@, Method::Get, Endpoint::Stats));
}

/// What a route says is what stands in its fields.
pub proof fn law_routes_say_what_they_hold(route: Route)
    ensures
        route@ == (route.path@, route.method, route.endpoint),
{
}

} // verus!

//! The JSON documents that the proxy answers with.

use crate::json::{views, with, Json, JsonView};
use crate::server::backends::{backend_table, law_prefix_decides, profile_for, profile_from};
use crate::text::ascii_lowercase;
use vstd::prelude::*;

verus! {

/// An error as OpenAI words it.
pub open spec fn error_view(message: Seq<char>, kind: Seq<char>) -> JsonView {
    JsonView::Object(
        map!["error"@ => JsonView::Object(map!["message"@ => JsonView::Text(message), "type"@ => JsonView::Text(kind)])],
    )
}

/// The document of an error.
pub fn error_document(message: &str, kind: &str) -> (doc: Json)
    ensures
        doc@ == error_view(message@, kind@),
{
    let inner = with(with(Vec::new(), "message", Json::text(message)), "type", Json::text(kind));
    Json::Object(with(Vec::new(), "error", Json::Object(inner)))
}

/// The models on offer, each with its owner.
pub open spec fn model_table() -> Seq<(Seq<char>, Seq<char>)> {
    seq![
        ("qwen3.6-plus"@, "bailian"@),
        ("qwen3.5-plus"@, "bailian"@),
        ("MiniMax-M3"@, "minimax"@),
        ("MiniMax-M2.5"@, "minimax"@),
        ("MiniMax-M2.7"@, "minimax"@),
        ("deepseek-chat"@, "deepseek"@),
        ("deepseek-coder"@, "deepseek"@),
        ("deepseek-v4-flash"@, "deepseek"@),
        ("deepseek-v4-pro"@, "deepseek"@),
        ("kimi-code"@, "kimi"@),
        ("kimi-v4"@, "kimi"@),
        ("kimi-v3"@, "kimi"@),
        ("kimi-2.6"@, "kimi"@),
        ("kimi-k2.6"@, "kimi"@),
        ("kimi-k2.5"@, "kimi"@),
        ("kimi-code-2.6"@, "kimi"@),
        ("kimi-code-v3"@, "kimi"@),
        ("kimi-latest"@, "kimi"@),
        ("mimo-v2-omni"@, "xiaomi"@),
        ("mimo-v2-pro"@, "xiaomi"@),
        ("mimo-v2.5"@, "xiaomi"@),
        ("mimo-v2.5-pro"@, "xiaomi"@),
        ("glm-4-plus"@, "zhipu"@),
        ("glm-4-air"@, "zhipu"@),
        ("glm-4v-plus"@, "zhipu"@),
        ("glm-5.1"@, "zhipu"@),
    ]
}

/// How a model is listed.
pub open spec fn model_view(id: Seq<char>, owner: Seq<char>) -> JsonView {
    JsonView::Object(
        map!["id"@ => JsonView::Text(id), "object"@ => JsonView::Text("model"@), "owned_by"@ => JsonView::Text(owner)],
    )
}

/// The list of the models on offer.
pub open spec fn models_view() -> JsonView {
    JsonView::Object(
        map!["object"@ => JsonView::Text("list"@), "data"@ => JsonView::Array(
            model_table().map_values(|row: (Seq<char>, Seq<char>)| model_view(row.0, row.1)),
        )],
    )
}

fn model_rows() -> (rows: Vec<(&'static str, &'static str)>)
    ensures
        rows@.len() == model_table().len(),
        forall|i: int|
            0 <= i < rows@.len() ==> ((#[trigger] rows@[i]).0@, rows@[i].1@) == model_table()[i],
{
    vec![
        ("qwen3.6-plus", "bailian"),
        ("qwen3.5-plus", "bailian"),
        ("MiniMax-M3", "minimax"),
        ("MiniMax-M2.5", "minimax"),
        ("MiniMax-M2.7", "minimax"),
        ("deepseek-chat", "deepseek"),
        ("deepseek-coder", "deepseek"),
        ("deepseek-v4-flash", "deepseek"),
        ("deepseek-v4-pro", "deepseek"),
        ("kimi-code", "kimi"),
        ("kimi-v4", "kimi"),
        ("kimi-v3", "kimi"),
        ("kimi-2.6", "kimi"),
        ("kimi-k2.6", "kimi"),
        ("kimi-k2.5", "kimi"),
        ("kimi-code-2.6", "kimi"),
        ("kimi-code-v3", "kimi"),
        ("kimi-latest", "kimi"),
        ("mimo-v2-omni", "xiaomi"),
        ("mimo-v2-pro", "xiaomi"),
        ("mimo-v2.5", "xiaomi"),
        ("mimo-v2.5-pro", "xiaomi"),
        ("glm-4-plus", "zhipu"),
        ("glm-4-air", "zhipu"),
        ("glm-4v-plus", "zhipu"),
        ("glm-5.1", "zhipu"),
    ]
}

/// The list of the models on offer.
pub fn list_models() -> (doc: Json)
    ensures
        doc@ == models_view(),
{
    let rows = model_rows();
    let mut models: Vec<Json> = Vec::new();
    for i in 0..rows.len()
        invariant
            rows@.len() == model_table().len(),
            forall|j: int|
                0 <= j < rows@.len() ==> ((#[trigger] rows@[j]).0@, rows@[j].1@)
                    == model_table()[j],
            models@.len() == i,
            forall|j: int|
                0 <= j < i ==> (#[trigger] models@[j])@ == model_view(
                    model_table()[j].0,
                    model_table()[j].1,
                ),
    {
        let (id, owner) = rows[i];
        let members = with(
            with(with(Vec::new(), "id", Json::text(id)), "object", Json::text("model")),
            "owned_by",
            Json::text(owner),
        );
        models.push(Json::Object(members));
    }
    assert(views(models@) =~= model_table().map_values(
        |row: (Seq<char>, Seq<char>)| model_view(row.0, row.1),
    ));
    Json::Object(
        with(with(Vec::new(), "object", Json::text("list")), "data", Json::Array(models)),
    )
}

/// The word that the proxy is up.
pub fn health() -> (doc: Json)
    ensures
        doc@ == JsonView::Object(map!["status"@ => JsonView::Text("ok"@)]),
{
    Json::Object(with(Vec::new(), "status", Json::text("ok")))
}

/// An empty document.
pub fn generic_ok() -> (doc: Json)
    ensures
        (doc@ == JsonView::Object(Map::<Seq<char>, JsonView>::empty())),
{
    Json::Object(Vec::new())
}

/// The version of the proxy.
pub fn version_handler() -> (doc: Json)
    ensures
        doc@ == JsonView::Object(map!["version"@ => JsonView::Text("0.1.0"@)]),
{
    Json::Object(with(Vec::new(), "version", Json::text("0.1.0")))
}

/// The model that a request for details names.
pub open spec fn shown_model(body: JsonView) -> Seq<char> {
    match body.field("name"@) {
        Some(JsonView::Text(name)) => name,
        _ => "unknown"@,
    }
}

/// The details of a model, in the form of Ollama.
pub open spec fn show_view(model: Seq<char>) -> JsonView {
    let empty = JsonView::Text(""@);
    JsonView::Object(
        map![
            "license"@ => empty,
            "modelfile"@ => empty,
            "parameters"@ => empty,
            "template"@ => empty,
            "details"@ => JsonView::Object(map![
                "parent_model"@ => empty,
                "format"@ => JsonView::Text("gguf"@),
                "family"@ => JsonView::Text("xingdu"@),
                "families"@ => JsonView::Array(seq![JsonView::Text("xingdu"@)]),
                "parameter_size"@ => JsonView::Text("proxy"@),
                "quantization_level"@ => JsonView::Text("Q4_0"@)
            ]),
            "model_info"@ => JsonView::Object(map![
                "general.architecture"@ => JsonView::Text("xingdu"@),
                "general.name"@ => JsonView::Text(model)
            ]),
            "name"@ => JsonView::Text(model)
        ],
    )
}

/// The details of the model that `body` names.
pub fn ollama_show(body: &Json) -> (doc: Json)
    ensures
        doc@ == show_view(shown_model(body@)),
{
    let named = match body.get("name") {
        Some(name) => name.as_str(),
        None => None,
    };
    let model = match named {
        Some(name) => name,
        None => "unknown",
    };
    let mut families: Vec<Json> = Vec::new();
    families.push(Json::text("xingdu"));
    assert(views(families@) =~= seq![JsonView::Text("xingdu"@)]);
    let details = with(Vec::new(), "parent_model", Json::text(""));
    let details = with(details, "format", Json::text("gguf"));
    let details = with(details, "family", Json::text("xingdu"));
    let details = with(details, "families", Json::Array(families));
    let details = with(details, "parameter_size", Json::text("proxy"));
    let details = with(details, "quantization_level", Json::text("Q4_0"));
    let info = with(Vec::new(), "general.architecture", Json::text("xingdu"));
    let info = with(info, "general.name", Json::text(model));
    let members = with(Vec::new(), "license", Json::text(""));
    let members = with(members, "modelfile", Json::text(""));
    let members = with(members, "parameters", Json::text(""));
    let members = with(members, "template", Json::text(""));
    let members = with(members, "details", Json::Object(details));
    let members = with(members, "model_info", Json::Object(info));
    let members = with(members, "name", Json::text(model));
    Json::Object(members)
}

/// Every model on the list is served by the backend that the list gives as its owner.
pub proof fn law_listed_models_are_served(i: int)
    requires
        0 <= i < model_table().len(),
    ensures
        ascii_lowercase(profile_for(ascii_lowercase(model_table()[i].0)).name)
            == model_table()[i].1,
{
    reveal_strlit("qwen3.6-plus");
    reveal_strlit("qwen3.5-plus");
    reveal_strlit("MiniMax-M3");
    reveal_strlit("MiniMax-M2.5");
    reveal_strlit("MiniMax-M2.7");
    reveal_strlit("deepseek-chat");
    reveal_strlit("deepseek-coder");
    reveal_strlit("deepseek-v4-flash");
    reveal_strlit("deepseek-v4-pro");
    reveal_strlit("kimi-code");
    reveal_strlit("kimi-v4");
    reveal_strlit("kimi-v3");
    reveal_strlit("kimi-2.6");
    reveal_strlit("kimi-k2.6");
    reveal_strlit("kimi-k2.5");
    reveal_strlit("kimi-code-2.6");
    reveal_strlit("kimi-code-v3");
    reveal_strlit("kimi-latest");
    reveal_strlit("mimo-v2-omni");
    reveal_strlit("mimo-v2-pro");
    reveal_strlit("mimo-v2.5");
    reveal_strlit("mimo-v2.5-pro");
    reveal_strlit("glm-4-plus");
    reveal_strlit("glm-4-air");
    reveal_strlit("glm-4v-plus");
    reveal_strlit("glm-5.1");
    reveal_strlit("bailian");
    reveal_strlit("minimax");
    reveal_strlit("deepseek");
    reveal_strlit("kimi");
    reveal_strlit("xiaomi");
    reveal_strlit("zhipu");
    reveal_strlit("mimo");
    reveal_strlit("glm");
    reveal_strlit("MiniMax");
    let lowered = ascii_lowercase(model_table()[i].0);
    let row: int = if i < 2 {
        5
    } else if i < 5 {
        0
    } else if i < 9 {
        1
    } else if i < 18 {
        2
    } else if i < 22 {
        3
    } else {
        4
    };
    if row < 5 {
        assert(backend_table()[row].0 =~= lowered.subrange(
            0,
            backend_table()[row].0.len() as int,
        ));
        law_prefix_decides(lowered, row);
    } else {
        assert(lowered[0] == 'q');
        assert forall|k: int| 0 <= k < 5 implies !(#[trigger] backend_table()[k]).0.is_prefix_of(
            lowered,
        ) by {
            assert(backend_table()[k].0[0] != 'q');
        }
        reveal_with_fuel(profile_from, 6);
    }
    assert(ascii_lowercase(profile_for(lowered).name) =~= model_table()[i].1);
}

/// An error has a message and a type, as they were given, and nothing else.
pub proof fn law_error_document(message: Seq<char>, kind: Seq<char>, key: Seq<char>)
    ensures
        ({
            let doc = error_view(message, kind);
            let inner = doc->Object_0["error"@];
            &&& doc is Object
            &&& doc->Object_0.contains_key(key) <==> key == "error"@
            &&& inner is Object
            &&& inner->Object_0.contains_key(key) <==> key == "message"@ || key == "type"@
            &&& inner->Object_0["message"@] == JsonView::Text(message)
            &&& inner->Object_0["type"@] == JsonView::Text(kind)
        }),
{
    reveal_strlit("message");
    reveal_strlit("type");
    assert("message"@.len() != "type"@.len());
}

/// Whether the list of models has an item for `id` with `owner`.
pub open spec fn lists_model(id: Seq<char>, owner: Seq<char>) -> bool {
    let items = models_view()->Object_0["data"@]->Array_0;
    exists|i: int|
        0 <= i < items.len() && (#[trigger] items[i])->Object_0["id"@] == JsonView::Text(id)
            && items[i]->Object_0["owned_by"@] == JsonView::Text(owner)
}

proof fn lemma_item(i: int)
    requires
        0 <= i < model_table().len(),
    ensures
        ({
            let items = models_view()->Object_0["data"@]->Array_0;
            &&& items.len() == model_table().len()
            &&& items[i] is Object
            &&& items[i]->Object_0["id"@] == JsonView::Text(model_table()[i].0)
            &&& items[i]->Object_0["object"@] == JsonView::Text("model"@)
            &&& items[i]->Object_0["owned_by"@] == JsonView::Text(model_table()[i].1)
            &&& items[i]->Object_0.dom() =~= set!["id"@, "object"@, "owned_by"@]
        }),
{
    reveal_strlit("object");
    reveal_strlit("data");
    reveal_strlit("id");
    reveal_strlit("owned_by");
    assert("object"@.len() != "data"@.len());
    assert("object"@.len() != "id"@.len());
    assert("object"@.len() != "owned_by"@.len());
    assert("id"@.len() != "owned_by"@.len());
}

proof fn lemma_listed(i: int)
    requires
        0 <= i < model_table().len(),
    ensures
        lists_model(model_table()[i].0, model_table()[i].1),
{
    lemma_item(i);
    let items = models_view()->Object_0["data"@]->Array_0;
    assert(items[i]->Object_0["id"@] == JsonView::Text(model_table()[i].0));
}

/// The list of models is a list, and each of its items is a model with an identifier and an owner,
/// and with nothing else. No model is listed twice.
pub proof fn law_list_of_models(i: int, j: int)
    ensures
        ({
            let doc = models_view();
            let items = doc->Object_0["data"@]->Array_0;
            &&& doc is Object
            &&& doc->Object_0.dom() =~= set!["object"@, "data"@]
            &&& doc->Object_0["object"@] == JsonView::Text("list"@)
            &&& doc->Object_0["data"@] is Array
            &&& items.len() == 26
            &&& 0 <= i < 26 ==> {
                &&& items[i] is Object
                &&& items[i]->Object_0.dom() =~= set!["id"@, "object"@, "owned_by"@]
                &&& items[i]->Object_0["object"@] == JsonView::Text("model"@)
                &&& items[i]->Object_0["id"@] is Text
                &&& items[i]->Object_0["owned_by"@] is Text
            }
            &&& 0 <= i < j < 26 ==> items[i]->Object_0["id"@] != items[j]->Object_0["id"@]
        }),
{
    reveal_strlit("object");
    reveal_strlit("data");
    assert("object"@.len() != "data"@.len());
    lemma_item(0);
    if 0 <= i < 26 {
        lemma_item(i);
    }
    if 0 <= i < j < 26 {
        lemma_item(j);
        lemma_models_differ(i, j);
    }
}

#[verifier::rlimit(60)]
proof fn lemma_models_differ(i: int, j: int)
    requires
        0 <= i < j < model_table().len(),
    ensures
        model_table()[i].0 != model_table()[j].0,
{
    reveal_strlit("qwen3.6-plus");
    reveal_strlit("qwen3.5-plus");
    reveal_strlit("MiniMax-M3");
    reveal_strlit("MiniMax-M2.5");
    reveal_strlit("MiniMax-M2.7");
    reveal_strlit("deepseek-chat");
    reveal_strlit("deepseek-coder");
    reveal_strlit("deepseek-v4-flash");
    reveal_strlit("deepseek-v4-pro");
    reveal_strlit("kimi-code");
    reveal_strlit("kimi-v4");
    reveal_strlit("kimi-v3");
    reveal_strlit("kimi-2.6");
    reveal_strlit("kimi-k2.6");
    reveal_strlit("kimi-k2.5");
    reveal_strlit("kimi-code-2.6");
    reveal_strlit("kimi-code-v3");
    reveal_strlit("kimi-latest");
    reveal_strlit("mimo-v2-omni");
    reveal_strlit("mimo-v2-pro");
    reveal_strlit("mimo-v2.5");
    reveal_strlit("mimo-v2.5-pro");
    reveal_strlit("glm-4-plus");
    reveal_strlit("glm-4-air");
    reveal_strlit("glm-4v-plus");
    reveal_strlit("glm-5.1");
    let a = model_table()[i].0;
    let b = model_table()[j].0;
    if a == b {
        assert(a.len() == b.len());
        assert(a[0] == b[0]);
        assert(a[4] == b[4]);
        assert(a[5] == b[5]);
        assert(a[6] == b[6]);
        assert(a[7] == b[7]);
        assert(a[a.len() - 1] == b[b.len() - 1]);
        assert(a[a.len() - 2] == b[b.len() - 2]);
        assert(a[a.len() - 3] == b[b.len() - 3]);
        assert(a[a.len() - 4] == b[b.len() - 4]);
    }
}

/// The models on offer, by their owners.
pub proof fn law_models_on_offer()
    ensures
        lists_model("qwen3.6-plus"@, "bailian"@),
        lists_model("qwen3.5-plus"@, "bailian"@),
        lists_model("MiniMax-M3"@, "minimax"@),
        lists_model("MiniMax-M2.5"@, "minimax"@),
        lists_model("MiniMax-M2.7"@, "minimax"@),
        lists_model("deepseek-chat"@, "deepseek"@),
        lists_model("deepseek-coder"@, "deepseek"@),
        lists_model("deepseek-v4-flash"@, "deepseek"@),
        lists_model("deepseek-v4-pro"@, "deepseek"@),
        lists_model("kimi-code"@, "kimi"@),
        lists_model("kimi-v4"@, "kimi"@),
        lists_model("kimi-v3"@, "kimi"@),
        lists_model("kimi-2.6"@, "kimi"@),
        lists_model("kimi-k2.6"@, "kimi"@),
        lists_model("kimi-k2.5"@, "kimi"@),
        lists_model("kimi-code-2.6"@, "kimi"@),
        lists_model("kimi-code-v3"@, "kimi"@),
        lists_model("kimi-latest"@, "kimi"@),
        lists_model("mimo-v2-omni"@, "xiaomi"@),
        lists_model("mimo-v2-pro"@, "xiaomi"@),
        lists_model("mimo-v2.5"@, "xiaomi"@),
        lists_model("mimo-v2.5-pro"@, "xiaomi"@),
        lists_model("glm-4-plus"@, "zhipu"@),
        lists_model("glm-4-air"@, "zhipu"@),
        lists_model("glm-4v-plus"@, "zhipu"@),
        lists_model("glm-5.1"@, "zhipu"@),
{
    lemma_listed(0);
    lemma_listed(1);
    lemma_listed(2);
    lemma_listed(3);
    lemma_listed(4);
    lemma_listed(5);
    lemma_listed(6);
    lemma_listed(7);
    lemma_listed(8);
    lemma_listed(9);
    lemma_listed(10);
    lemma_listed(11);
    lemma_listed(12);
    lemma_listed(13);
    lemma_listed(14);
    lemma_listed(15);
    lemma_listed(16);
    lemma_listed(17);
    lemma_listed(18);
    lemma_listed(19);
    lemma_listed(20);
    lemma_listed(21);
    lemma_listed(22);
    lemma_listed(23);
    lemma_listed(24);
    lemma_listed(25);
}

/// The model that is asked about is the text under `name`; where there is none, it is unknown.
pub proof fn law_model_asked_about(body: JsonView)
    ensures
        ({
            let named = body is Object && body->Object_0.contains_key("name"@)
                && body->Object_0["name"@] is Text;
            &&& named ==> shown_model(body) == body->Object_0["name"@]->Text_0
            &&& !named ==> shown_model(body) == "unknown"@
        }),
{
}

/// The details name the model that was asked about, at the top and among the information on the
/// model, whatever its name is; all else is the same for every model.
pub proof fn law_details(model: Seq<char>, other: Seq<char>, key: Seq<char>)
    ensures
        ({
            let doc = show_view(model);
            let info = doc->Object_0["model_info"@];
            &&& doc is Object
            &&& doc->Object_0.contains_key(key) <==> show_view(other)->Object_0.contains_key(key)
            &&& doc->Object_0.contains_key("name"@)
            &&& doc->Object_0["name"@] == JsonView::Text(model)
            &&& doc->Object_0.contains_key("model_info"@)
            &&& info is Object
            &&& info->Object_0.dom() =~= set!["general.architecture"@, "general.name"@]
            &&& info->Object_0["general.name"@] == JsonView::Text(model)
            &&& info->Object_0["general.architecture"@] == JsonView::Text("xingdu"@)
            &&& key != "name"@ && key != "model_info"@ ==> doc->Object_0[key]
                == show_view(other)->Object_0[key]
        }),
{
    reveal_strlit("name");
    reveal_strlit("model_info");
    reveal_strlit("general.architecture");
    reveal_strlit("general.name");
    assert("name"@.len() != "model_info"@.len());
    assert("general.architecture"@.len() != "general.name"@.len());
}

} // verus!

use xingdu::json::{parse, print, Json};
use xingdu::middleware::entries::{best_match, sort_by_age, sweep, SemanticEntry, Similarity};
use xingdu::middleware::semantic_cache::{SemanticCacheMiddleware, SECOND};
use xingdu::types::{Message, OpenAIRequest};

fn message(role: &str, content: Json) -> Message {
    Message { role: role.to_string(), content }
}

fn request(model: &str) -> OpenAIRequest {
    OpenAIRequest {
        model: model.to_string(),
        messages: vec![message("user", Json::text("hello"))],
        stream: None,
        extra: Vec::new(),
    }
}

fn similarity(value: f32) -> Similarity {
    Similarity { bits: value.to_bits() }
}

fn similarities(values: &[f32]) -> Vec<Similarity> {
    values.iter().map(|value| similarity(*value)).collect()
}

fn cache(ttl: u64) -> SemanticCacheMiddleware {
    SemanticCacheMiddleware::new(true, ttl, Some("key".to_string()))
}

fn store(cache: &mut SemanticCacheMiddleware, model: &str, response: &str, at: u128) {
    cache.set(&request(model), Some(vec![1.0f32.to_bits()]), Json::text(response), at, at);
}

fn held(cache: &SemanticCacheMiddleware, model: &str) -> Vec<String> {
    match cache.entries(model) {
        Some(entries) => entries
            .iter()
            .map(|entry| entry.response.as_str().unwrap().to_string())
            .collect(),
        None => Vec::new(),
    }
}

fn found(cache: &SemanticCacheMiddleware, model: &str, scores: &[f32], now: u128) -> Option<String> {
    cache
        .get(&request(model), Some(&similarities(scores)), now)
        .map(|doc| doc.as_str().unwrap().to_string())
}

#[test]
fn new_cache() {
    let cache = SemanticCacheMiddleware::new(false, 60, None);
    assert!(!cache.enabled);
    assert_eq!(cache.similarity_threshold.bits, 0.92f32.to_bits());
    assert_eq!(cache.ttl, 60);
    assert_eq!(cache.max_entries, 200);
    assert_eq!(cache.embedding_model, "ark-30728f3f-eb86-4160-a46e-a15b6f233c3c-7d646");
    assert_eq!(
        cache.embedding_url,
        "https://ark.cn-beijing.volces.com/api/coding/v3/embeddings"
    );
    assert_eq!(cache.embedding_key, "");
    assert!(cache.store.is_empty());
    assert_eq!(cache.name(), "semantic_cache");
}

#[test]
fn queries() {
    let mut asked = request("m");
    assert_eq!(SemanticCacheMiddleware::extract_query(&asked), "hello");
    asked.messages.push(message("assistant", Json::text("hi")));
    assert_eq!(SemanticCacheMiddleware::extract_query(&asked), "hello");
    asked.messages.push(message("user", Json::text("again")));
    assert_eq!(SemanticCacheMiddleware::extract_query(&asked), "again");
    asked.messages.push(message("User", Json::text("other role")));
    assert_eq!(SemanticCacheMiddleware::extract_query(&asked), "again");
    asked.messages.push(message("user", Json::Array(Vec::new())));
    assert_eq!(SemanticCacheMiddleware::extract_query(&asked), "");
    asked.messages.clear();
    assert_eq!(SemanticCacheMiddleware::extract_query(&asked), "");
}

#[test]
fn partition_keys() {
    assert_eq!(SemanticCacheMiddleware::partition_key("Kimi-K2.6"), "kimi-k2.6");
    assert_eq!(SemanticCacheMiddleware::partition_key("ÄΣ"), "äς");
}

#[test]
fn embedding_calls() {
    let with_key = cache(60);
    let call = with_key.embedding_call("a \"b\"").unwrap();
    assert_eq!(call.url, "https://ark.cn-beijing.volces.com/api/coding/v3/embeddings");
    assert_eq!(call.authorization, "Bearer key");
    assert_eq!(call.content_type, "application/json");
    assert_eq!(
        call.body,
        "{\"input\":[\"a \\\"b\\\"\"],\"model\":\"ark-30728f3f-eb86-4160-a46e-a15b6f233c3c-7d646\"}"
    );
    assert!(with_key.embedding_call("").is_none());
    let without_key = SemanticCacheMiddleware::new(true, 60, None);
    assert!(without_key.embedding_call("text").is_none());
}

#[test]
fn calls_for_requests() {
    let mut cache = cache(60);
    let call = cache.call_for(&request("m")).unwrap();
    assert_eq!(call.url, "https://ark.cn-beijing.volces.com/api/coding/v3/embeddings");
    assert_eq!(call.authorization, "Bearer key");
    assert_eq!(
        call.body,
        "{\"input\":[\"hello\"],\"model\":\"ark-30728f3f-eb86-4160-a46e-a15b6f233c3c-7d646\"}"
    );
    let mut asked = request("m");
    asked.messages[0].content = Json::Null;
    assert!(cache.call_for(&asked).is_none());
    asked.messages.clear();
    assert!(cache.call_for(&asked).is_none());
    cache.enabled = false;
    assert!(cache.call_for(&request("m")).is_none());
    cache.enabled = true;
    cache.embedding_key.clear();
    assert!(cache.call_for(&request("m")).is_none());
}

fn embedding(reply: &str) -> Option<Vec<f64>> {
    SemanticCacheMiddleware::embedding_from_reply(reply.as_bytes())
        .map(|numbers| numbers.iter().map(|number| number.as_f64().unwrap()).collect())
}

#[test]
fn embeddings_in_replies() {
    assert_eq!(
        embedding("{\"data\": [{\"embedding\": [0.5, -1, 2e3]}, {\"embedding\": [9]}]}"),
        Some(vec![0.5, -1.0, 2000.0])
    );
    assert_eq!(
        embedding("{\"output\": {\"embeddings\": [{\"embedding\": [1]}]}}"),
        Some(vec![1.0])
    );
    assert_eq!(
        embedding("{\"data\": [], \"output\": {\"embeddings\": [{\"embedding\": [3]}]}}"),
        Some(vec![3.0])
    );
    assert_eq!(embedding("{\"data\": [{\"embedding\": []}]}"), Some(Vec::new()));
    assert_eq!(
        embedding("{\"data\": [{\"embedding\": [1, \"2\"]}], \"output\": {\"embeddings\": [{\"embedding\": [3]}]}}"),
        None
    );
    assert_eq!(embedding("{\"data\": {\"embedding\": [1]}}"), None);
    assert_eq!(embedding("{\"error\": {\"message\": \"no\"}}"), None);
    assert_eq!(embedding("[]"), None);
    assert_eq!(embedding("no document"), None);
}

#[test]
fn replies_that_are_not_utf8() {
    let text = "{\"data\": [{\"embedding\": [4], \"note\": \"星\"}]}";
    let mut bytes = text.as_bytes().to_vec();
    assert_eq!(SemanticCacheMiddleware::embedding_from_reply(&bytes).unwrap().len(), 1);
    let at = text.find('星').unwrap();
    bytes[at] = 0xff;
    assert!(SemanticCacheMiddleware::embedding_from_reply(&bytes).is_none());
}

#[test]
fn embeddings_in_documents() {
    let reply = parse("{\"data\": [{\"embedding\": [7]}]}").ok().unwrap();
    let numbers = SemanticCacheMiddleware::read_embedding(&reply).unwrap();
    assert_eq!(numbers.len(), 1);
    assert_eq!(numbers[0].as_u64(), Some(7));
}

#[test]
fn stored_response_is_found() {
    let mut cache = cache(60);
    store(&mut cache, "Kimi-V4", "first", 5 * SECOND);
    assert_eq!(found(&cache, "kimi-v4", &[0.95], 6 * SECOND), Some("first".to_string()));
    assert_eq!(found(&cache, "KIMI-v4", &[0.92], 6 * SECOND), Some("first".to_string()));
    assert_eq!(found(&cache, "kimi-v4", &[0.91], 6 * SECOND), None);
    assert_eq!(found(&cache, "kimi-v3", &[], 6 * SECOND), None);
    let entry = &cache.entries("kimi-v4").unwrap()[0];
    assert_eq!(entry.embedding, vec![1.0f32.to_bits()]);
    assert_eq!(entry.created_at, 5 * SECOND);
    assert_eq!(entry.ttl, 60 * SECOND);
    assert_eq!(entry.access_count, 1);
}

#[test]
fn most_similar_answers() {
    let mut cache = cache(60);
    store(&mut cache, "m", "a", 0);
    store(&mut cache, "m", "b", 1);
    store(&mut cache, "m", "c", 2);
    assert_eq!(found(&cache, "m", &[0.93, 0.99, 0.95], 3), Some("b".to_string()));
    // The first of several that are equally similar.
    assert_eq!(found(&cache, "m", &[0.93, 0.97, 0.97], 3), Some("b".to_string()));
    assert_eq!(found(&cache, "m", &[f32::NAN, 0.5, 0.92], 3), Some("c".to_string()));
    assert_eq!(found(&cache, "m", &[f32::NAN, -1.0, 0.9], 3), None);
    assert_eq!(found(&cache, "m", &[f32::INFINITY, 1.0, 0.9], 3), Some("a".to_string()));
}

#[test]
fn without_embedding_or_switched_off() {
    let mut on = cache(60);
    on.set(&request("m"), None, Json::Null, 0, 0);
    assert!(on.store.is_empty());
    store(&mut on, "m", "a", 0);
    assert!(on.get(&request("m"), None, 1).is_none());
    on.enabled = false;
    assert_eq!(found(&on, "m", &[1.0], 1), None);
    store(&mut on, "m", "b", 1);
    on.cleanup(1000 * SECOND);
    assert_eq!(held(&on, "m"), vec!["a"]);
}

#[test]
fn edge_of_the_time_to_live() {
    let mut cache = cache(10);
    store(&mut cache, "m", "a", 0);
    // Served for the last time at the very end of its time to live, but swept then.
    assert_eq!(found(&cache, "m", &[1.0], 10 * SECOND), Some("a".to_string()));
    assert_eq!(found(&cache, "m", &[1.0], 10 * SECOND + 1), None);
    store(&mut cache, "m", "b", 10 * SECOND - 1);
    assert_eq!(held(&cache, "m"), vec!["a", "b"]);
    store(&mut cache, "m", "c", 10 * SECOND);
    assert_eq!(held(&cache, "m"), vec!["b", "c"]);
}

#[test]
fn oldest_leaves_a_full_partition() {
    let mut cache = cache(1000);
    cache.max_entries = 2;
    store(&mut cache, "m", "young", 9);
    store(&mut cache, "m", "old", 3);
    store(&mut cache, "n", "other", 1);
    store(&mut cache, "m", "new", 12);
    assert_eq!(held(&cache, "m"), vec!["young", "new"]);
    assert_eq!(held(&cache, "n"), vec!["other"]);
    store(&mut cache, "m", "newer", 13);
    assert_eq!(held(&cache, "m"), vec!["new", "newer"]);
}

#[test]
fn limit_is_kept() {
    let mut cache = cache(1000);
    for i in 0..250u128 {
        store(&mut cache, "m", "x", i);
        assert!(cache.entries("m").unwrap().len() <= 200);
    }
    let entries = cache.entries("m").unwrap();
    assert_eq!(entries.len(), 200);
    assert_eq!(entries[0].created_at, 50);
    assert_eq!(entries[199].created_at, 249);
}

#[test]
fn cleanup_drops_what_is_over() {
    let mut cache = cache(10);
    store(&mut cache, "a", "a1", 0);
    store(&mut cache, "b", "b1", 0);
    store(&mut cache, "b", "b2", 5 * SECOND);
    cache.cleanup(10 * SECOND);
    assert!(cache.entries("a").is_none());
    assert_eq!(held(&cache, "b"), vec!["b2"]);
    cache.cleanup(10 * SECOND);
    assert_eq!(held(&cache, "b"), vec!["b2"]);
    cache.cleanup(15 * SECOND);
    assert!(cache.store.is_empty());
}

#[test]
fn statistics() {
    let mut cache = cache(10);
    store(&mut cache, "A", "a1", 0);
    store(&mut cache, "a", "a2", 0);
    store(&mut cache, "b", "b1", 0);
    let mut stats = cache.stats();
    stats.partitions.sort();
    assert!(stats.enabled);
    assert_eq!(stats.threshold.bits, 0.92f32.to_bits());
    assert_eq!(stats.ttl_seconds, 10);
    assert_eq!(stats.max_entries, 200);
    assert_eq!(stats.total_entries, 3);
    assert_eq!(stats.partitions, vec!["a", "b"]);
}

#[test]
fn guarded_calls() {
    let mut cache = cache(10);
    assert!(cache.try_set(&request("m"), Some(vec![0]), Json::text("a"), 0, 0));
    assert!(cache.try_get(&request("m"), Some(&similarities(&[])), 0).is_none());
    assert!(cache.try_get(&request("m"), Some(&similarities(&[1.0, 1.0])), 0).is_none());
    let answer = cache.try_get(&request("m"), Some(&similarities(&[1.0])), 0).unwrap();
    assert_eq!(answer.map(|doc| print(&doc)), Some("\"a\"".to_string()));
    assert!(cache.try_get(&request("m"), None, 0).unwrap().is_none());
    cache.max_entries = 0;
    assert!(!cache.try_set(&request("n"), Some(vec![0]), Json::text("b"), 0, 0));
    assert!(cache.entries("n").is_none());
    assert!(cache.try_set(&request("n"), None, Json::text("b"), 0, 0));
    assert!(cache.try_set(&request("m"), Some(vec![0]), Json::text("c"), 1, 1));
    assert_eq!(held(&cache, "m"), vec!["c"]);
}

fn entry(name: &str, created_at: u128) -> SemanticEntry {
    SemanticEntry {
        embedding: Vec::new(),
        response: Json::text(name),
        created_at,
        ttl: 10,
        access_count: 1,
    }
}

fn names(entries: &[SemanticEntry]) -> Vec<&str> {
    entries.iter().map(|entry| entry.response.as_str().unwrap()).collect()
}

#[test]
fn sorting_keeps_the_order_of_one_age() {
    let entries = vec![entry("c", 5), entry("a", 1), entry("d", 5), entry("b", 1), entry("e", 0)];
    assert_eq!(names(&sort_by_age(entries)), vec!["e", "a", "b", "c", "d"]);
}

#[test]
fn clocks_that_stand_before_an_entry() {
    let kept = sweep(vec![entry("a", 100), entry("b", 0)], 10);
    assert_eq!(names(&kept), vec!["a"]);
}

#[test]
fn similarities_compare_like_numbers() {
    let values = [
        f32::NEG_INFINITY,
        -1.0,
        -f32::MIN_POSITIVE,
        -0.0,
        0.0,
        1e-40,
        0.5,
        1.0,
        f32::MAX,
        f32::INFINITY,
        f32::NAN,
        -f32::NAN,
    ];
    for score in values {
        for threshold in values {
            let best = best_match(
                &vec![entry("a", 0)],
                &vec![similarity(score)],
                similarity(threshold),
                0,
            );
            assert_eq!(best.is_some(), score >= threshold, "{score} {threshold}");
        }
    }
}

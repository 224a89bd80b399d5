//! The semantic cache: responses found by the similarity of queries.
//!
//! The cache holds, for each model, the responses to earlier queries with the embeddings of
//! those queries. Embeddings and their similarities come from outside; so does the time.

use crate::json::{
    json_text, number_text, parse, parse_outcome, print, views, with, Json, JsonView,
};
use crate::middleware::entries::{
    best_match, eligible, is_best, law_best_entry, law_bounded, law_newest_found,
    law_similarities_compare_like_numbers, law_sweep, law_sweep_one_by_one, law_time_to_live,
    law_who_leaves, make_room, sweep, swept, with_room, SemanticEntry, Similarity,
};
use crate::text::{ascii_lowercase, decode_strict, lowercase, texts};
use crate::types::{MessageView, OpenAIRequest};
use vstd::prelude::*;
use vstd::utf8::{decode_utf8, is_ascii_chars, valid_utf8};

verus! {

/// The nanoseconds of a second.
pub const SECOND: u128 = 1_000_000_000;

/// The entries of one model.
pub struct Partition {
    /// The name of the model in lower case.
    pub model: String,
    pub entries: Vec<SemanticEntry>,
}

/// Responses found by the similarity of queries.
pub struct SemanticCacheMiddleware {
    pub enabled: bool,
    /// How similar a query must at least be to an entry that answers it.
    pub similarity_threshold: Similarity,
    /// For how many seconds an entry lives.
    pub ttl: u64,
    /// How many entries a model may have.
    pub max_entries: usize,
    pub embedding_model: String,
    pub embedding_url: String,
    pub embedding_key: String,
    pub store: Vec<Partition>,
}

/// Whether the partition of `model` stands at `i`.
pub open spec fn is_at(store: Seq<Partition>, model: Seq<char>, i: int) -> bool {
    0 <= i < store.len() && store[i].model@ == model
}

/// Whether each model has one partition.
pub open spec fn distinct_models(store: Seq<Partition>) -> bool {
    forall|i: int, j: int|
        0 <= i < j < store.len() ==> (#[trigger] store[i]).model@ != (#[trigger] store[j]).model@
}

/// The entries of each model.
pub open spec fn store_view(store: Seq<Partition>) -> Map<Seq<char>, Seq<SemanticEntry>> {
    Map::new(
        |model: Seq<char>| exists|i: int| is_at(store, model, i),
        |model: Seq<char>| store[choose|i: int| is_at(store, model, i)].entries@,
    )
}

proof fn lemma_store_view_at(store: Seq<Partition>, i: int)
    requires
        distinct_models(store),
        0 <= i < store.len(),
    ensures
        store_view(store).contains_key(store[i].model@),
        store_view(store)[store[i].model@] == store[i].entries@,
{
    let model = store[i].model@;
    assert(is_at(store, model, i));
    let k = choose|k: int| is_at(store, model, k);
    assert(is_at(store, model, k));
    assert(k == i) by {
        if k < i {
            assert(store[k].model@ != store[i].model@);
        } else if i < k {
            assert(store[i].model@ != store[k].model@);
        }
    }
}

/// The last message of the user, where it is a text, or else the empty text.
pub open spec fn query_of(messages: Seq<MessageView>) -> Seq<char>
    decreases messages.len(),
{
    if messages.len() == 0 {
        Seq::empty()
    } else if messages.last().role == "user"@ {
        match messages.last().content {
            JsonView::Text(text) => text,
            _ => Seq::empty(),
        }
    } else {
        query_of(messages.drop_last())
    }
}

/// A request for the embedding of a text.
pub struct EmbeddingCall {
    pub url: String,
    pub authorization: String,
    pub content_type: &'static str,
    pub body: String,
}

/// The document that asks for the embedding of `text`.
pub open spec fn embedding_body(model: Seq<char>, text: Seq<char>) -> JsonView {
    JsonView::Object(
        map!["model"@ => JsonView::Text(model), "input"@ => JsonView::Array(seq![JsonView::Text(text)])],
    )
}

/// The array under `embedding` of the first item of `list`, where all of them are there.
pub open spec fn first_embedding(list: Option<JsonView>) -> Option<Seq<JsonView>> {
    match list {
        Some(array) => match array.first() {
            Some(item) => match item.field("embedding"@) {
                Some(embedding) => embedding.items(),
                None => None,
            },
            None => None,
        },
        None => None,
    }
}

/// The components of the embedding in a reply: under `data`, or else under `embeddings` of
/// `output`.
pub open spec fn embedding_in(reply: JsonView) -> Option<Seq<JsonView>> {
    match first_embedding(reply.field("data"@)) {
        Some(components) => Some(components),
        None => match reply.field("output"@) {
            Some(output) => first_embedding(output.field("embeddings"@)),
            None => None,
        },
    }
}

/// Whether every component is a number.
pub open spec fn all_numbers(components: Seq<JsonView>) -> bool {
    forall|i: int| 0 <= i < components.len() ==> #[trigger] components[i] is Number
}

/// Whether `numbers` is what a reply gives as the embedding: there is one, and every component
/// of it is a number.
pub open spec fn is_embedding_of(numbers: Option<Vec<serde_json::Number>>, reply: JsonView) -> bool {
    match numbers {
        Some(list) => embedding_in(reply) == Some(
            list@.map_values(
                |n: serde_json::Number| JsonView::Number(number_text(n)),
            ),
        ),
        None => embedding_in(reply) is None || !all_numbers(embedding_in(reply)->0),
    }
}

/// What is known of the cache as a whole.
pub struct CacheStats {
    pub enabled: bool,
    pub threshold: Similarity,
    pub ttl_seconds: u64,
    pub max_entries: usize,
    pub total_entries: u128,
    pub partitions: Vec<String>,
}

/// How many entries the named models have together.
pub open spec fn total_of(
    models: Seq<Seq<char>>,
    contents: Map<Seq<char>, Seq<SemanticEntry>>,
) -> nat
    decreases models.len(),
{
    if models.len() == 0 {
        0
    } else {
        total_of(models.drop_last(), contents) + contents[models.last()].len()
    }
}

/// What a sweep leaves of all partitions; those that it empties go.
pub open spec fn swept_contents(
    contents: Map<Seq<char>, Seq<SemanticEntry>>,
    now: u128,
) -> Map<Seq<char>, Seq<SemanticEntry>> {
    Map::new(
        |model: Seq<char>| contents.contains_key(model) && swept(contents[model], now).len() > 0,
        |model: Seq<char>| swept(contents[model], now),
    )
}

/// The entries of a model; none where it has no partition.
pub open spec fn entries_of(
    contents: Map<Seq<char>, Seq<SemanticEntry>>,
    model: Seq<char>,
) -> Seq<SemanticEntry> {
    if contents.contains_key(model) {
        contents[model]
    } else {
        Seq::empty()
    }
}

impl SemanticCacheMiddleware {
    /// The entries of each model, under its name in lower case.
    pub open spec fn contents(&self) -> Map<Seq<char>, Seq<SemanticEntry>> {
        store_view(self.store@)
    }

    /// Each model has one partition.
    pub open spec fn wf(&self) -> bool {
        distinct_models(self.store@)
    }

    /// Whether two caches are set up alike.
    pub open spec fn same_setup(&self, other: &SemanticCacheMiddleware) -> bool {
        &&& self.enabled == other.enabled
        &&& self.similarity_threshold == other.similarity_threshold
        &&& self.ttl == other.ttl
        &&& self.max_entries == other.max_entries
        &&& self.embedding_model == other.embedding_model
        &&& self.embedding_url == other.embedding_url
        &&& self.embedding_key == other.embedding_key
    }

    /// An empty cache. `embedding_key` is what the environment variable `ARK_API_KEY` holds.
    pub fn new(enabled: bool, ttl: u64, embedding_key: Option<String>) -> (cache: Self)
        ensures
            cache.wf(),
            cache.contents() == Map::<Seq<char>, Seq<SemanticEntry>>::empty(),
            cache.enabled == enabled,
            cache.ttl == ttl,
            cache.similarity_threshold == (Similarity { bits: 0x3f6b_851f }),
            cache.max_entries == 200,
            cache.embedding_model@ == "ark-30728f3f-eb86-4160-a46e-a15b6f233c3c-7d646"@,
            cache.embedding_url@ == "https://ark.cn-beijing.volces.com/api/coding/v3/embeddings"@,
            cache.embedding_key@ == match embedding_key {
                Some(key) => key@,
                None => Seq::empty(),
            },
    {
        let cache = SemanticCacheMiddleware {
            enabled,
            // 0.92
            similarity_threshold: Similarity { bits: 0x3f6b_851f },
            ttl,
            max_entries: 200,
            embedding_model: "ark-30728f3f-eb86-4160-a46e-a15b6f233c3c-7d646".to_string(),
            embedding_url: "https://ark.cn-beijing.volces.com/api/coding/v3/embeddings".to_string(),
            embedding_key: match embedding_key {
                Some(key) => key,
                None => String::new(),
            },
            store: Vec::new(),
        };
        assert(cache.contents() =~= Map::empty());
        cache
    }

    /// The name under which the middleware is known.
    pub fn name(&self) -> (name: &'static str)
        ensures
            name@ == "semantic_cache"@,
    {
        "semantic_cache"
    }

    /// The text that a request asks about: the last message of the user.
    pub fn extract_query(request: &OpenAIRequest) -> (query: String)
        ensures
            query@ == query_of(request@.messages),
    {
        let user = "user".to_string();
        let mut i: usize = request.messages.len();
        assert(request@.messages.take(i as int) =~= request@.messages);
        while i > 0
            invariant
                i <= request.messages@.len(),
                user@ == "user"@,
                query_of(request@.messages) == query_of(request@.messages.take(i as int)),
            decreases i,
        {
            i = i - 1;
            proof {
                let upto = request@.messages.take(i + 1);
                assert(upto.last() == request.messages@[i as int]@);
                assert(upto.drop_last() =~= request@.messages.take(i as int));
            }
            if request.messages[i].role == user {
                return match request.messages[i].content.as_str() {
                    Some(text) => text.to_string(),
                    None => String::new(),
                };
            }
        }
        String::new()
    }

    /// The name of the partition of `model`.
    pub fn partition_key(model: &str) -> (key: String)
        ensures
            key@ == lowercase(model@),
            is_ascii_chars(model@) ==> key@ == ascii_lowercase(model@),
    {
        model.to_lowercase()
    }

    /// The call that fetches the embedding of `text`; none where there is no text or no key.
    pub fn embedding_call(&self, text: &str) -> (call: Option<EmbeddingCall>)
        ensures
            call is Some <==> text@.len() > 0 && self.embedding_key@.len() > 0,
            call matches Some(c) ==> {
                &&& c.url@ == self.embedding_url@
                &&& c.authorization@ == "Bearer "@ + self.embedding_key@
                &&& c.content_type@ == "application/json"@
                &&& c.body@ == json_text(embedding_body(self.embedding_model@, text@))
            },
    {
        if text.is_empty() || self.embedding_key.as_str().is_empty() {
            return None;
        }
        let mut input: Vec<Json> = Vec::new();
        input.push(Json::text(text));
        assert(views(input@) =~= seq![JsonView::Text(text@)]);
        let members = with(
            with(Vec::new(), "model", Json::text(self.embedding_model.as_str())),
            "input",
            Json::Array(input),
        );
        let body = Json::Object(members);
        Some(
            EmbeddingCall {
                url: self.embedding_url.clone(),
                authorization: "Bearer ".to_string().concat(self.embedding_key.as_str()),
                content_type: "application/json",
                body: print(&body),
            },
        )
    }

    /// The call that fetches the embedding of what a request asks about; none where the cache is
    /// switched off, has no key, or is asked nothing.
    pub fn call_for(&self, request: &OpenAIRequest) -> (call: Option<EmbeddingCall>)
        ensures
            call is Some <==> self.enabled && self.embedding_key@.len() > 0 && query_of(
                request@.messages,
            ).len() > 0,
            call matches Some(c) ==> {
                &&& c.url@ == self.embedding_url@
                &&& c.authorization@ == "Bearer "@ + self.embedding_key@
                &&& c.content_type@ == "application/json"@
                &&& c.body@ == json_text(
                    embedding_body(self.embedding_model@, query_of(request@.messages)),
                )
            },
    {
        if !self.enabled {
            return None;
        }
        let query = Self::extract_query(request);
        self.embedding_call(query.as_str())
    }

    /// Reads the components of the embedding from the document that the service replies with.
    pub fn read_embedding(reply: &Json) -> (numbers: Option<Vec<serde_json::Number>>)
        ensures
            is_embedding_of(numbers, reply@),
    {
        let under_data = Self::read_first_embedding(reply.get("data"));
        let components = match under_data {
            Some(components) => components,
            None => {
                let under_output = match reply.get("output") {
                    Some(output) => Self::read_first_embedding(output.get("embeddings")),
                    None => None,
                };
                match under_output {
                    Some(components) => components,
                    None => return None,
                }
            },
        };
        let mut numbers: Vec<serde_json::Number> = Vec::new();
        for i in 0..components.len()
            invariant
                embedding_in(reply@) == Some(views(components@)),
                numbers@.len() == i,
                forall|j: int|
                    0 <= j < i ==> components@[j]@ == JsonView::Number(
                        number_text(#[trigger] numbers@[j]),
                    ),
        {
            match &components[i] {
                Json::Number(number) => numbers.push(number.clone()),
                _ => {
                    assert(!(views(components@)[i as int] is Number));
                    return None;
                },
            }
        }
        assert(views(components@) =~= numbers@.map_values(
            |n: serde_json::Number| JsonView::Number(number_text(n)),
        ));
        Some(numbers)
    }

    fn read_first_embedding(list: Option<&Json>) -> (components: Option<&Vec<Json>>)
        ensures
            match components {
                Some(found) => list is Some && first_embedding(Some(list->0@)) == Some(
                    views(found@),
                ),
                None => list is Some ==> first_embedding(Some(list->0@)) is None,
            },
    {
        match list {
            Some(array) => match array.first() {
                Some(item) => match item.get("embedding") {
                    Some(embedding) => embedding.as_array(),
                    None => None,
                },
                None => None,
            },
            None => None,
        }
    }

    /// Reads the components of the embedding from the bytes that the service replies with; none
    /// where they are not UTF-8, or no document.
    pub fn embedding_from_reply(bytes: &[u8]) -> (numbers: Option<Vec<serde_json::Number>>)
        ensures
            valid_utf8(bytes@) ==> match parse_outcome(decode_utf8(bytes@)) {
                Ok(reply) => is_embedding_of(numbers, reply),
                Err(_) => numbers is None,
            },
            !valid_utf8(bytes@) ==> numbers is None,
    {
        match decode_strict(bytes) {
            Some(text) => match parse(text) {
                Ok(reply) => Self::read_embedding(&reply),
                Err(_) => None,
            },
            None => None,
        }
    }

    fn position(&self, key: &String) -> (at: Option<usize>)
        requires
            self.wf(),
        ensures
            match at {
                Some(i) => is_at(self.store@, key@, i as int) && self.contents().contains_key(key@)
                    && self.contents()[key@] == self.store@[i as int].entries@,
                None => !self.contents().contains_key(key@),
            },
    {
        for i in 0..self.store.len()
            invariant
                self.wf(),
                forall|j: int| 0 <= j < i ==> !#[trigger] is_at(self.store@, key@, j),
        {
            if self.store[i].model == *key {
                proof {
                    lemma_store_view_at(self.store@, i as int);
                }
                return Some(i);
            }
        }
        None
    }

    /// The entries that a request to `model` may be answered from.
    pub fn entries(&self, model: &str) -> (entries: Option<&Vec<SemanticEntry>>)
        requires
            self.wf(),
        ensures
            match entries {
                Some(list) => self.contents().contains_key(lowercase(model@)) && list@
                    == self.contents()[lowercase(model@)],
                None => !self.contents().contains_key(lowercase(model@)),
            },
    {
        let key = Self::partition_key(model);
        match self.position(&key) {
            Some(i) => Some(&self.store[i].entries),
            None => None,
        }
    }

    /// Whether `found` is what the cache answers to a request whose query has the similarities
    /// `scores` to the entries of its model: the response of the best of them, or none where no
    /// entry may answer.
    pub open spec fn is_answer(
        &self,
        model: Seq<char>,
        scores: Seq<Similarity>,
        now: u128,
        found: Option<JsonView>,
    ) -> bool {
        let entries = entries_of(self.contents(), lowercase(model));
        match found {
            Some(doc) => exists|i: int| #[trigger]
                is_best(entries, scores, self.similarity_threshold, now, i) && doc
                    == entries[i].response@,
            None => forall|i: int|
                !#[trigger] eligible(entries, scores, self.similarity_threshold, now, i),
        }
    }

    /// Looks for a response. `scores` are the similarities of the query to the entries of the
    /// model, in their order; they are missing where the query has no embedding.
    pub fn get(
        &self,
        request: &OpenAIRequest,
        scores: Option<&Vec<Similarity>>,
        now: u128,
    ) -> (found: Option<Json>)
        requires
            self.wf(),
            scores matches Some(list) ==> list@.len() == entries_of(
                self.contents(),
                lowercase(request@.model),
            ).len(),
        ensures
            !self.enabled || scores is None ==> found is None,
            self.enabled && scores is Some ==> self.is_answer(
                request@.model,
                scores->0@,
                now,
                match found {
                    Some(doc) => Some(doc@),
                    None => None,
                },
            ),
    {
        if !self.enabled {
            return None;
        }
        let scores = match scores {
            Some(scores) => scores,
            None => return None,
        };
        let entries = match self.entries(request.model.as_str()) {
            Some(entries) => entries,
            None => return None,
        };
        match best_match(entries, scores, self.similarity_threshold, now) {
            Some(i) => Some(entries[i].response.clone()),
            None => None,
        }
    }

    /// The entry that `set` makes.
    pub open spec fn new_entry(
        &self,
        embedding: Vec<u32>,
        response: Json,
        created_at: u128,
    ) -> SemanticEntry {
        SemanticEntry {
            embedding,
            response,
            created_at,
            ttl: (self.ttl * SECOND) as u128,
            access_count: 1,
        }
    }

    /// The contents once room is made for `entry` among those of `model`, and it is there.
    pub open spec fn contents_with(
        &self,
        model: Seq<char>,
        entry: SemanticEntry,
        now: u128,
    ) -> Map<Seq<char>, Seq<SemanticEntry>> {
        self.contents().insert(
            lowercase(model),
            with_room(
                entries_of(self.contents(), lowercase(model)),
                self.max_entries as int,
                now,
            ).push(entry),
        )
    }

    /// Stores a response, made at `created_at`, among the entries of the request's model as they
    /// stand at `now`. Without an embedding of the query nothing is stored.
    pub fn set(
        &mut self,
        request: &OpenAIRequest,
        embedding: Option<Vec<u32>>,
        response: Json,
        created_at: u128,
        now: u128,
    )
        requires
            old(self).wf(),
            old(self).enabled && embedding is Some ==> old(self).max_entries > 0 || entries_of(
                old(self).contents(),
                lowercase(request@.model),
            ).len() > 0,
        ensures
            final(self).wf(),
            final(self).same_setup(old(self)),
            !old(self).enabled || embedding is None ==> final(self).contents() == old(
                self,
            ).contents(),
            old(self).enabled && embedding is Some ==> final(self).contents() == old(
                self,
            ).contents_with(
                request@.model,
                old(self).new_entry(embedding->0, response, created_at),
                now,
            ),
            old(self).enabled && embedding is Some ==> ({
                let entries = final(self).contents()[lowercase(request@.model)];
                &&& final(self).contents().contains_key(lowercase(request@.model))
                &&& entries.len() > 0
                &&& entries.last().embedding == embedding->0
                &&& entries.last().response == response
                &&& entries.last().created_at == created_at
                &&& entries.last().ttl == old(self).ttl * 1_000_000_000
                &&& entries.last().access_count == 1
            }),
    {
        if !self.enabled {
            return;
        }
        let embedding = match embedding {
            Some(embedding) => embedding,
            None => return,
        };
        let key = Self::partition_key(request.model.as_str());
        let entry = SemanticEntry {
            embedding,
            response,
            created_at,
            ttl: self.ttl as u128 * SECOND,
            access_count: 1,
        };
        let ghost before = self.store@;
        let (at, partition) = match self.position(&key) {
            Some(i) => (i, self.store.remove(i)),
            None => (self.store.len(), Partition { model: key, entries: Vec::new() }),
        };
        let Partition { model, entries } = partition;
        let mut kept = make_room(entries, self.max_entries, now);
        kept.push(entry);
        self.store.insert(at, Partition { model, entries: kept });
        proof {
            let after = self.store@;
            let held = Partition { model, entries: kept };
            assert(after == if at < before.len() {
                before.update(at as int, held)
            } else {
                before.push(held)
            });
            lemma_put(before, at as int, held);
        }
    }

    /// Like [`Self::get`], for similarities of unknown number: `None` where they are not as many
    /// as the entries of the model.
    pub fn try_get(
        &self,
        request: &OpenAIRequest,
        scores: Option<&Vec<Similarity>>,
        now: u128,
    ) -> (answer: Option<Option<Json>>)
        requires
            self.wf(),
        ensures
            answer is None <==> scores is Some && scores->0@.len() != entries_of(
                self.contents(),
                lowercase(request@.model),
            ).len(),
            answer matches Some(found) ==> {
                &&& !self.enabled || scores is None ==> found is None
                &&& self.enabled && scores is Some ==> self.is_answer(
                    request@.model,
                    scores->0@,
                    now,
                    match found {
                        Some(doc) => Some(doc@),
                        None => None,
                    },
                )
            },
    {
        if let Some(list) = scores {
            let held: usize = match self.entries(request.model.as_str()) {
                Some(entries) => entries.len(),
                None => 0,
            };
            if list.len() != held {
                return None;
            }
        }
        Some(self.get(request, scores, now))
    }

    /// Like [`Self::set`], for a cache that may have no room at all: `false`, with nothing
    /// changed, where a model without entries may have none.
    pub fn try_set(
        &mut self,
        request: &OpenAIRequest,
        embedding: Option<Vec<u32>>,
        response: Json,
        created_at: u128,
        now: u128,
    ) -> (done: bool)
        requires
            old(self).wf(),
        ensures
            final(self).wf(),
            final(self).same_setup(old(self)),
            done <==> !(old(self).enabled && embedding is Some && old(self).max_entries == 0
                && entries_of(old(self).contents(), lowercase(request@.model)).len() == 0),
            !done || !old(self).enabled || embedding is None ==> final(self).contents() == old(
                self,
            ).contents(),
            done && old(self).enabled && embedding is Some ==> final(self).contents() == old(
                self,
            ).contents_with(
                request@.model,
                old(self).new_entry(embedding->0, response, created_at),
                now,
            ),
            done && old(self).enabled && embedding is Some ==> ({
                let entries = final(self).contents()[lowercase(request@.model)];
                &&& final(self).contents().contains_key(lowercase(request@.model))
                &&& entries.len() > 0
                &&& entries.last().embedding == embedding->0
                &&& entries.last().response == response
                &&& entries.last().created_at == created_at
                &&& entries.last().ttl == old(self).ttl * 1_000_000_000
                &&& entries.last().access_count == 1
            }),
    {
        if self.enabled && embedding.is_some() && self.max_entries == 0 {
            let held: usize = match self.entries(request.model.as_str()) {
                Some(entries) => entries.len(),
                None => 0,
            };
            if held == 0 {
                return false;
            }
        }
        self.set(request, embedding, response, created_at, now);
        true
    }

    /// Drops what has outlived its time, and the partitions that this empties.
    pub fn cleanup(&mut self, now: u128)
        requires
            old(self).wf(),
        ensures
            final(self).wf(),
            final(self).same_setup(old(self)),
            final(self).contents() == if old(self).enabled {
                swept_contents(old(self).contents(), now)
            } else {
                old(self).contents()
            },
    {
        if !self.enabled {
            return;
        }
        let ghost before = self.store@;
        let mut kept: Vec<Partition> = Vec::new();
        let ghost mut taken: int = 0;
        proof {
            assert(before.skip(0) =~= before);
            assert(before.take(0) =~= Seq::<Partition>::empty());
            assert(store_view(kept@) =~= swept_contents(store_view(before.take(0)), now));
        }
        while self.store.len() > 0
            invariant
                0 <= taken <= before.len(),
                distinct_models(before),
                before == old(self).store@,
                self.same_setup(old(self)),
                self.store@ == before.skip(taken),
                distinct_models(kept@),
                store_view(kept@) == swept_contents(store_view(before.take(taken)), now),
            decreases self.store@.len(),
        {
            let Partition { model, entries } = self.store.remove(0);
            let fresh = sweep(entries, now);
            proof {
                let part = Partition { model, entries };
                assert(before.take(taken + 1) =~= before.take(taken).push(part));
                assert(self.store@ =~= before.skip(taken + 1));
                lemma_fresh_name(before, taken);
                lemma_put(before.take(taken), taken, part);
                let rest = store_view(before.take(taken));
                assert(!store_view(kept@).contains_key(model@));
                if fresh@.len() > 0 {
                    lemma_put(kept@, kept@.len() as int, Partition { model, entries: fresh });
                    assert(swept_contents(rest.insert(model@, entries@), now) =~= swept_contents(
                        rest,
                        now,
                    ).insert(model@, fresh@));
                } else {
                    assert(swept_contents(rest.insert(model@, entries@), now) =~= swept_contents(
                        rest,
                        now,
                    ));
                }
                taken = taken + 1;
            }
            if fresh.len() > 0 {
                kept.push(Partition { model, entries: fresh });
            }
        }
        assert(before.take(taken) =~= before);
        self.store = kept;
    }

    /// What is known of the cache as a whole. Each model with a partition is named once.
    pub fn stats(&self) -> (stats: CacheStats)
        requires
            self.wf(),
        ensures
            stats.enabled == self.enabled,
            stats.threshold == self.similarity_threshold,
            stats.ttl_seconds == self.ttl,
            stats.max_entries == self.max_entries,
            texts(stats.partitions@).no_duplicates(),
            texts(stats.partitions@).to_set() == self.contents().dom(),
            stats.total_entries == total_of(texts(stats.partitions@), self.contents()),
    {
        let mut partitions: Vec<String> = Vec::new();
        let mut total_entries: u128 = 0;
        for i in 0..self.store.len()
            invariant
                self.wf(),
                partitions@.len() == i,
                forall|j: int| 0 <= j < i ==> (#[trigger] partitions@[j])@ == self.store@[j].model@,
                total_entries == total_of(texts(partitions@), self.contents()),
                total_entries <= i * usize::MAX,
        {
            let ghost named = texts(partitions@);
            let held: usize = self.store[i].entries.len();
            partitions.push(self.store[i].model.clone());
            proof {
                lemma_store_view_at(self.store@, i as int);
                assert(texts(partitions@).drop_last() =~= named);
                assert(texts(partitions@).last() == self.store@[i as int].model@);
                assert((i + 1) * usize::MAX == i * usize::MAX + usize::MAX) by (nonlinear_arith);
                assert(i * usize::MAX + usize::MAX <= u128::MAX) by (nonlinear_arith)
                    requires
                        i < usize::MAX,
                ;
            }
            total_entries = total_entries + held as u128;
        }
        proof {
            let named = texts(partitions@);
            assert forall|i: int, j: int| 0 <= i < named.len() && 0 <= j < named.len() && i != j implies named[i]
                != named[j] by {
                if i < j {
                    assert(self.store@[i].model@ != self.store@[j].model@);
                } else {
                    assert(self.store@[j].model@ != self.store@[i].model@);
                }
            }
            assert forall|model: Seq<char>|
                named.to_set().contains(model) <==> #[trigger] self.contents().dom().contains(
                    model,
                ) by {
                if named.contains(model) {
                    let i = choose|i: int| 0 <= i < named.len() && named[i] == model;
                    assert(is_at(self.store@, model, i));
                }
                if self.contents().contains_key(model) {
                    let i = choose|i: int| is_at(self.store@, model, i);
                    assert(named[i] == model);
                }
            }
            assert(named.to_set() =~= self.contents().dom());
        }
        CacheStats {
            enabled: self.enabled,
            threshold: self.similarity_threshold,
            ttl_seconds: self.ttl,
            max_entries: self.max_entries,
            total_entries,
            partitions,
        }
    }
}

proof fn lemma_fresh_name(store: Seq<Partition>, i: int)
    requires
        distinct_models(store),
        0 <= i < store.len(),
    ensures
        distinct_models(store.take(i)),
        !store_view(store.take(i)).contains_key(store[i].model@),
{
    let model = store[i].model@;
    if store_view(store.take(i)).contains_key(model) {
        let k = choose|k: int| is_at(store.take(i), model, k);
        assert(store[k].model@ != store[i].model@);
    }
}

proof fn lemma_put(store: Seq<Partition>, at: int, held: Partition)
    requires
        distinct_models(store),
        0 <= at <= store.len(),
        at < store.len() ==> store[at].model@ == held.model@,
        at == store.len() ==> !store_view(store).contains_key(held.model@),
    ensures
        ({
            let after = if at < store.len() {
                store.update(at, held)
            } else {
                store.push(held)
            };
            &&& distinct_models(after)
            &&& store_view(after) == store_view(store).insert(held.model@, held.entries@)
        }),
{
    let after = if at < store.len() {
        store.update(at, held)
    } else {
        store.push(held)
    };
    assert forall|i: int, j: int| 0 <= i < j < after.len() implies (#[trigger] after[i]).model@ != (
    #[trigger] after[j]).model@ by {
        if j == store.len() {
            assert(is_at(store, store[i].model@, i));
        } else {
            assert(store[i].model@ != store[j].model@);
        }
    }
    assert forall|model: Seq<char>|
        store_view(after).contains_key(model) <==> #[trigger] store_view(store).insert(
            held.model@,
            held.entries@,
        ).contains_key(model) by {
        if store_view(after).contains_key(model) && model != held.model@ {
            let i = choose|i: int| is_at(after, model, i);
            assert(is_at(store, model, i));
        }
        if store_view(store).contains_key(model) {
            let i = choose|i: int| is_at(store, model, i);
            assert(is_at(after, model, i));
        }
        if model == held.model@ {
            assert(is_at(after, model, at));
        }
    }
    assert forall|model: Seq<char>| #[trigger] store_view(after).contains_key(model) implies store_view(
        after,
    )[model] == store_view(store).insert(held.model@, held.entries@)[model] by {
        let i = choose|i: int| is_at(after, model, i);
        assert(is_at(after, model, i));
        lemma_store_view_at(after, i);
        if i == at {
        } else {
            assert(after[i] == store[i]);
            lemma_store_view_at(store, i);
            if i < at {
                assert(after[i].model@ != after[at].model@);
            } else {
                assert(after[at].model@ != after[i].model@);
            }
        }
    }
    assert(store_view(after) =~= store_view(store).insert(held.model@, held.entries@));
}

/// What was stored is found again: by a request to the same model, in whatever case it is
/// written, whose query is similar enough to the stored one and more similar to it than to any
/// other entry that may answer, as long as the entry's time to live lasts.
pub proof fn law_set_then_get(
    before: SemanticCacheMiddleware,
    after: SemanticCacheMiddleware,
    model: Seq<char>,
    entry: SemanticEntry,
    stored_at: u128,
    asked_model: Seq<char>,
    scores: Seq<Similarity>,
    now: u128,
    found: Option<JsonView>,
)
    requires
        after.same_setup(&before),
        after.contents() == before.contents_with(model, entry, stored_at),
        lowercase(asked_model) == lowercase(model),
        scores.len() == entries_of(after.contents(), lowercase(model)).len(),
        entry.servable(now),
        scores.last().reaches(after.similarity_threshold),
        forall|j: int|
            0 <= j < scores.len() - 1 && #[trigger] eligible(
                entries_of(after.contents(), lowercase(model)),
                scores,
                after.similarity_threshold,
                now,
                j,
            ) ==> scores[j].rank()->0 < scores.last().rank()->0,
        after.is_answer(asked_model, scores, now, found),
    ensures
        found == Some(entry.response@),
{
    let key = lowercase(model);
    let room = with_room(entries_of(before.contents(), key), before.max_entries as int, stored_at);
    law_newest_found(room, entry, scores, after.similarity_threshold, now);
    assert(eligible(
        room.push(entry),
        scores,
        after.similarity_threshold,
        now,
        room.len() as int,
    ));
}

/// An answer is the response of an entry of the model that was asked for, similar enough to
/// the query and no older than its time to live.
pub proof fn law_answers_are_sound(
    cache: SemanticCacheMiddleware,
    model: Seq<char>,
    scores: Seq<Similarity>,
    now: u128,
    doc: JsonView,
)
    requires
        cache.is_answer(model, scores, now, Some(doc)),
    ensures
        cache.contents().contains_key(lowercase(model)),
        exists|i: int|
            {
                &&& 0 <= i < cache.contents()[lowercase(model)].len()
                &&& (#[trigger] cache.contents()[lowercase(model)][i]).response@ == doc
                &&& cache.contents()[lowercase(model)][i].servable(now)
                &&& scores[i].reaches(cache.similarity_threshold)
            },
{
    let entries = entries_of(cache.contents(), lowercase(model));
    let i = choose|i: int| #[trigger]
        is_best(entries, scores, cache.similarity_threshold, now, i) && doc
            == entries[i].response@;
    assert(eligible(entries, scores, cache.similarity_threshold, now, i));
    assert(entries[i].response@ == doc);
}

/// Storing a response leaves the other models alone.
pub proof fn law_models_do_not_meet(
    cache: SemanticCacheMiddleware,
    model: Seq<char>,
    entry: SemanticEntry,
    now: u128,
    other: Seq<char>,
)
    requires
        other != lowercase(model),
    ensures
        entries_of(cache.contents_with(model, entry, now), other) == entries_of(
            cache.contents(),
            other,
        ),
{
}

/// Whether no model has more than `max_entries` entries.
pub open spec fn within_limit(
    contents: Map<Seq<char>, Seq<SemanticEntry>>,
    max_entries: int,
) -> bool {
    forall|model: Seq<char>| #[trigger]
        contents.contains_key(model) ==> contents[model].len() <= max_entries
}

/// No model ever has more than `max_entries` entries: not at first, not after a response is
/// stored, and not after a cleanup.
pub proof fn law_limit_is_kept(
    cache: SemanticCacheMiddleware,
    model: Seq<char>,
    entry: SemanticEntry,
    now: u128,
)
    requires
        cache.max_entries > 0,
        within_limit(cache.contents(), cache.max_entries as int),
    ensures
        within_limit(Map::empty(), cache.max_entries as int),
        within_limit(cache.contents_with(model, entry, now), cache.max_entries as int),
        within_limit(swept_contents(cache.contents(), now), cache.max_entries as int),
{
    law_bounded(
        entries_of(cache.contents(), lowercase(model)),
        cache.max_entries as int,
        now,
        entry,
    );
    assert forall|name: Seq<char>| #[trigger]
        swept_contents(cache.contents(), now).contains_key(name) implies swept_contents(
        cache.contents(),
        now,
    )[name].len() <= cache.max_entries by {
        cache.contents()[name].lemma_filter_len(|e: SemanticEntry| e.fresh(now));
    }
}

/// A cleanup keeps what is younger than its time to live and nothing else, leaves no model
/// without entries, and changes nothing when it is repeated at that time.
pub proof fn law_cleanup(contents: Map<Seq<char>, Seq<SemanticEntry>>, now: u128)
    ensures
        forall|model: Seq<char>, e: SemanticEntry| #[trigger]
            entries_of(swept_contents(contents, now), model).contains(e) <==> entries_of(
                contents,
                model,
            ).contains(e) && e.fresh(now),
        forall|model: Seq<char>| #[trigger]
            swept_contents(contents, now).contains_key(model) ==> swept_contents(
                contents,
                now,
            )[model].len() > 0,
        swept_contents(swept_contents(contents, now), now) == swept_contents(contents, now),
{
    assert forall|model: Seq<char>, e: SemanticEntry| #[trigger]
        entries_of(swept_contents(contents, now), model).contains(e) <==> entries_of(
            contents,
            model,
        ).contains(e) && e.fresh(now) by {
        if contents.contains_key(model) {
            law_sweep(contents[model], now);
            assert(swept(contents[model], now).contains(e) <==> contents[model].contains(e) && e.fresh(
                now,
            ));
        }
    }
    let once = swept_contents(contents, now);
    assert forall|model: Seq<char>| #[trigger] once.contains_key(model) implies swept(
        once[model],
        now,
    ) == once[model] by {
        law_sweep(contents[model], now);
    }
    assert(swept_contents(once, now) =~= once);
}

/// What is stored is stored with what was given, for as many seconds as the cache is set up for,
/// and behind those entries of the model that there is room for.
pub proof fn law_stored_entry(
    cache: SemanticCacheMiddleware,
    model: Seq<char>,
    embedding: Vec<u32>,
    response: Json,
    created_at: u128,
    now: u128,
)
    ensures
        ({
            let after = cache.contents_with(
                model,
                cache.new_entry(embedding, response, created_at),
                now,
            );
            let entries = after[lowercase(model)];
            &&& after.contains_key(lowercase(model))
            &&& entries.len() > 0
            &&& entries.last().embedding == embedding
            &&& entries.last().response == response
            &&& entries.last().created_at == created_at
            &&& entries.last().ttl == cache.ttl * 1_000_000_000
            &&& entries.last().access_count == 1
            &&& entries.drop_last() =~= with_room(
                entries_of(cache.contents(), lowercase(model)),
                cache.max_entries as int,
                now,
            )
        }),
{
}

/// A response is found again for as many seconds as the cache is set up for: by a request to the
/// same model whose query is similar enough to the stored one, and more similar than to any other
/// entry whose time is not over.
pub proof fn law_found_while_it_lives(
    before: SemanticCacheMiddleware,
    after: SemanticCacheMiddleware,
    model: Seq<char>,
    embedding: Vec<u32>,
    response: Json,
    created_at: u128,
    stored_at: u128,
    scores: Seq<Similarity>,
    now: u128,
    found: Option<JsonView>,
)
    requires
        after.same_setup(&before),
        after.contents() == before.contents_with(
            model,
            before.new_entry(embedding, response, created_at),
            stored_at,
        ),
        scores.len() == after.contents()[lowercase(model)].len(),
        now <= created_at + before.ttl * 1_000_000_000,
        scores.last().reaches(before.similarity_threshold),
        forall|j: int|
            0 <= j < scores.len() - 1 && now <= (
            #[trigger] after.contents()[lowercase(model)][j]).created_at
                + after.contents()[lowercase(model)][j].ttl && scores[j].reaches(
                before.similarity_threshold,
            ) ==> !scores[j].reaches(scores.last()),
        after.is_answer(model, scores, now, found),
    ensures
        found == Some(response@),
{
    let entry = before.new_entry(embedding, response, created_at);
    let entries = entries_of(after.contents(), lowercase(model));
    law_stored_entry(before, model, embedding, response, created_at, stored_at);
    law_time_to_live(entry, now);
    assert forall|j: int|
        0 <= j < scores.len() - 1 && #[trigger] eligible(
            entries,
            scores,
            after.similarity_threshold,
            now,
            j,
        ) implies scores[j].rank()->0 < scores.last().rank()->0 by {
        law_time_to_live(entries[j], now);
        law_similarities_compare_like_numbers(scores[j], scores.last());
        assert(after.contents()[lowercase(model)][j] == entries[j]);
    }
    law_set_then_get(
        before,
        after,
        model,
        entry,
        stored_at,
        model,
        scores,
        now,
        found,
    );
}

/// Once those seconds are over, a response is not found any more, whatever the query is.
pub proof fn law_forgotten_afterwards(
    before: SemanticCacheMiddleware,
    after: SemanticCacheMiddleware,
    model: Seq<char>,
    embedding: Vec<u32>,
    response: Json,
    created_at: u128,
    stored_at: u128,
    scores: Seq<Similarity>,
    now: u128,
    found: Option<JsonView>,
)
    requires
        !before.contents().contains_key(lowercase(model)),
        before.max_entries > 0,
        after.contents() == before.contents_with(
            model,
            before.new_entry(embedding, response, created_at),
            stored_at,
        ),
        now > created_at + before.ttl * 1_000_000_000,
        after.is_answer(model, scores, now, found),
    ensures
        found is None,
{
    let entry = before.new_entry(embedding, response, created_at);
    law_stored_entry(before, model, embedding, response, created_at, stored_at);
    law_time_to_live(entry, now);
    law_sweep_one_by_one(Seq::empty(), entry, stored_at);
    law_who_leaves(Seq::empty(), before.max_entries as int, stored_at);
    let entries = entries_of(after.contents(), lowercase(model));
    assert(entries.len() == 1);
    if found is Some {
        let i = choose|i: int| #[trigger]
            is_best(entries, scores, after.similarity_threshold, now, i) && found->0
                == entries[i].response@;
        law_best_entry(entries, scores, after.similarity_threshold, now, i, i);
    }
}

/// Nothing is found where no entry of the model is both similar enough and not over. Where one is,
/// something is found: the response of such an entry, of which none is more similar, and none that
/// was stored before it as similar.
pub proof fn law_what_is_found(
    cache: SemanticCacheMiddleware,
    model: Seq<char>,
    scores: Seq<Similarity>,
    now: u128,
    found: Option<JsonView>,
    j: int,
)
    requires
        cache.is_answer(model, scores, now, found),
        cache.contents().contains_key(lowercase(model)),
        0 <= j < cache.contents()[lowercase(model)].len(),
        now <= cache.contents()[lowercase(model)][j].created_at
            + cache.contents()[lowercase(model)][j].ttl,
        scores[j].reaches(cache.similarity_threshold),
    ensures
        found is Some,
        ({
            let entries = cache.contents()[lowercase(model)];
            exists|i: int|
                {
                    &&& 0 <= i < entries.len()
                    &&& found == Some((#[trigger] entries[i]).response@)
                    &&& now <= entries[i].created_at + entries[i].ttl
                    &&& scores[i].reaches(cache.similarity_threshold)
                    &&& scores[i].reaches(scores[j])
                    &&& j < i ==> !scores[j].reaches(scores[i])
                }
        }),
{
    let entries = entries_of(cache.contents(), lowercase(model));
    law_best_entry(entries, scores, cache.similarity_threshold, now, j, j);
    assert(eligible(entries, scores, cache.similarity_threshold, now, j));
    let i = choose|i: int| #[trigger]
        is_best(entries, scores, cache.similarity_threshold, now, i) && found->0
            == entries[i].response@;
    law_best_entry(entries, scores, cache.similarity_threshold, now, i, j);
    assert(found == Some(entries[i].response@));
}

/// A model without entries has no answers.
pub proof fn law_nothing_stored(
    cache: SemanticCacheMiddleware,
    model: Seq<char>,
    scores: Seq<Similarity>,
    now: u128,
    found: Option<JsonView>,
)
    requires
        cache.is_answer(model, scores, now, found),
        !cache.contents().contains_key(lowercase(model)),
    ensures
        found is None,
{
    let entries = entries_of(cache.contents(), lowercase(model));
    if found is Some {
        let i = choose|i: int| #[trigger]
            is_best(entries, scores, cache.similarity_threshold, now, i) && found->0
                == entries[i].response@;
        assert(eligible(entries, scores, cache.similarity_threshold, now, i));
    }
}

/// Storing a response touches no partition but that of its model, and makes no other.
pub proof fn law_other_partitions_stay(
    cache: SemanticCacheMiddleware,
    model: Seq<char>,
    entry: SemanticEntry,
    now: u128,
    other: Seq<char>,
)
    requires
        other != lowercase(model),
    ensures
        cache.contents_with(model, entry, now).contains_key(other) <==> cache.contents().contains_key(
            other,
        ),
        cache.contents().contains_key(other) ==> cache.contents_with(model, entry, now)[other]
            == cache.contents()[other],
{
}

/// A cleanup sweeps each partition for itself; one stays where an entry of it does.
pub proof fn law_cleanup_by_partition(
    contents: Map<Seq<char>, Seq<SemanticEntry>>,
    model: Seq<char>,
    now: u128,
)
    ensures
        swept_contents(contents, now).contains_key(model) <==> contents.contains_key(model) && swept(
            contents[model],
            now,
        ).len() > 0,
        swept_contents(contents, now).contains_key(model) ==> swept_contents(contents, now)[model]
            == swept(contents[model], now),
{
}

/// Caches that are set up alike agree in every setting.
pub proof fn law_setup(one: SemanticCacheMiddleware, other: SemanticCacheMiddleware)
    requires
        one.same_setup(&other),
    ensures
        one.enabled == other.enabled,
        one.similarity_threshold == other.similarity_threshold,
        one.ttl == other.ttl,
        one.max_entries == other.max_entries,
        one.embedding_model == other.embedding_model,
        one.embedding_url == other.embedding_url,
        one.embedding_key == other.embedding_key,
{
}

/// The cache has a model where a partition has it, and under it the entries of that partition.
pub proof fn law_contents(cache: SemanticCacheMiddleware, model: Seq<char>, i: int)
    requires
        cache.wf(),
    ensures
        cache.contents().contains_key(model) ==> exists|k: int|
            0 <= k < cache.store@.len() && (#[trigger] cache.store@[k]).model@ == model,
        0 <= i < cache.store@.len() ==> cache.contents().contains_key(cache.store@[i].model@)
            && cache.contents()[cache.store@[i].model@] == cache.store@[i].entries@,
        entries_of(cache.contents(), model) == if cache.contents().contains_key(model) {
            cache.contents()[model]
        } else {
            Seq::empty()
        },
{
    if cache.contents().contains_key(model) {
        let k = choose|k: int| is_at(cache.store@, model, k);
        assert(cache.store@[k].model@ == model);
    }
    if 0 <= i < cache.store@.len() {
        lemma_store_view_at(cache.store@, i);
    }
}

/// A request asks about the last message whose role is the user's, whatever others say behind it:
/// about its text, and about nothing where it is no text or where there is none.
pub proof fn law_query(before: Seq<MessageView>, message: MessageView, behind: Seq<MessageView>)
    requires
        forall|i: int| 0 <= i < behind.len() ==> (#[trigger] behind[i]).role != "user"@,
    ensures
        query_of(behind) == Seq::<char>::empty(),
        message.role == "user"@ && message.content is Text ==> query_of(
            before + seq![message] + behind,
        ) == message.content->Text_0,
        message.role == "user"@ && !(message.content is Text) ==> query_of(
            before + seq![message] + behind,
        ) == Seq::<char>::empty(),
    decreases behind.len(),
{
    let all = before + seq![message] + behind;
    if behind.len() == 0 {
        assert(all.last() == message);
    } else {
        let fewer = behind.drop_last();
        assert forall|i: int| 0 <= i < fewer.len() implies (#[trigger] fewer[i]).role != "user"@ by {
            assert(fewer[i] == behind[i]);
        }
        law_query(before, message, fewer);
        assert(all.drop_last() =~= before + seq![message] + fewer);
        assert(all.last() == behind[behind.len() - 1]);
    }
}

/// The embedding service is asked about the text alone, with the model that is set up, and with
/// nothing else.
pub proof fn law_embedding_body(model: Seq<char>, text: Seq<char>, key: Seq<char>)
    ensures
        embedding_body(model, text) is Object,
        embedding_body(model, text)->Object_0["model"@] == JsonView::Text(model),
        embedding_body(model, text)->Object_0["input"@] == JsonView::Array(
            seq![JsonView::Text(text)],
        ),
        embedding_body(model, text)->Object_0.contains_key(key) <==> key == "model"@ || key
            == "input"@,
{
    reveal_strlit("model");
    reveal_strlit("input");
    assert("model"@[0] != "input"@[0]);
}

/// Whether a list has, as its first item, an object with an array under `embedding`.
pub open spec fn starts_with_embedding(list: JsonView) -> bool {
    &&& list is Array
    &&& list->Array_0.len() > 0
    &&& list->Array_0[0] is Object
    &&& list->Array_0[0]->Object_0.contains_key("embedding"@)
    &&& list->Array_0[0]->Object_0["embedding"@] is Array
}

/// The embedding in a reply is that of the first item of the list under `data`; where none is
/// there, it is that of the first item of the list under `embeddings` of `output`; and where none
/// is there either, there is none.
pub proof fn law_where_the_embedding_is(reply: JsonView)
    ensures
        ({
            let fields = reply->Object_0;
            let output = fields["output"@]->Object_0;
            let under_data = reply is Object && fields.contains_key("data"@)
                && starts_with_embedding(fields["data"@]);
            let under_output = reply is Object && fields.contains_key("output"@)
                && fields["output"@] is Object && output.contains_key("embeddings"@)
                && starts_with_embedding(output["embeddings"@]);
            &&& under_data ==> embedding_in(reply) == Some(
                fields["data"@]->Array_0[0]->Object_0["embedding"@]->Array_0,
            )
            &&& !under_data && under_output ==> embedding_in(reply) == Some(
                output["embeddings"@]->Array_0[0]->Object_0["embedding"@]->Array_0,
            )
            &&& !under_data && !under_output ==> embedding_in(reply) is None
        }),
{
}

/// An embedding is read component by component. It is read where there is one and every component
/// is a number, and only there.
pub proof fn law_components(
    numbers: Option<Vec<serde_json::Number>>,
    reply: JsonView,
    i: int,
)
    requires
        is_embedding_of(numbers, reply),
    ensures
        embedding_in(reply) is None ==> numbers is None,
        embedding_in(reply) matches Some(components) ==> {
            &&& 0 <= i < components.len() && !(components[i] is Number) ==> numbers is None
            &&& (forall|k: int| 0 <= k < components.len() ==> (#[trigger] components[k]) is Number)
                ==> numbers is Some
            &&& numbers is Some ==> numbers->0@.len() == components.len()
            &&& numbers is Some && 0 <= i < components.len() ==> components[i] == JsonView::Number(
                number_text(numbers->0@[i]),
            )
        },
{
    if let Some(list) = numbers {
        let read = list@.map_values(
            |n: serde_json::Number| JsonView::Number(number_text(n)),
        );
        assert(embedding_in(reply) == Some(read));
        if 0 <= i < read.len() {
            assert(read[i] == JsonView::Number(number_text(list@[i])));
        }
    }
}

/// The entries of each named model add to the total.
pub proof fn law_total(
    models: Seq<Seq<char>>,
    model: Seq<char>,
    contents: Map<Seq<char>, Seq<SemanticEntry>>,
)
    ensures
        total_of(Seq::empty(), contents) == 0,
        total_of(models.push(model), contents) == total_of(models, contents)
            + contents[model].len(),
{
    assert(models.push(model).drop_last() =~= models);
}

} // verus!

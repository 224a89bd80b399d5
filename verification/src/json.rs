//! JSON documents as plain values, with `serde_json` to read and print them.

use crate::text::decimal;
use vstd::prelude::*;

verus! {

/// A number of `serde_json`. It is carried along, not computed with.
#[verifier::external_type_specification]
#[verifier::external_body]
pub struct ExNumber(serde_json::Number);

/// A document of `serde_json`.
#[verifier::external_type_specification]
#[verifier::external_body]
pub struct ExValue(serde_json::Value);

/// A JSON document.
pub enum Json {
    Null,
    Bool(bool),
    Number(serde_json::Number),
    Text(String),
    Array(Vec<Json>),
    /// Where a key occurs more than once, the last member counts.
    Object(Vec<Member>),
}

/// One `"key": value` pair of an object.
pub struct Member {
    pub key: String,
    pub value: Json,
}

/// What a document says.
pub enum JsonView {
    Null,
    Bool(bool),
    /// The number as it is printed.
    Number(Seq<char>),
    Text(Seq<char>),
    Array(Seq<JsonView>),
    Object(Map<Seq<char>, JsonView>),
}

/// A number as `serde_json` prints it.
pub uninterp spec fn number_text(number: serde_json::Number) -> Seq<char>;

/// What a document of `serde_json` holds.
pub uninterp spec fn value_view(value: serde_json::Value) -> JsonView;

/// What `serde_json` makes of a text: the document, or the words of its error.
pub uninterp spec fn parse_outcome(text: Seq<char>) -> Result<JsonView, Seq<char>>;

/// A document as `serde_json` prints it, without spaces and with the keys in order.
pub uninterp spec fn json_text(view: JsonView) -> Seq<char>;

impl JsonView {
    /// The value under `key`, where this is an object that has it.
    pub open spec fn field(self, key: Seq<char>) -> Option<JsonView> {
        match self {
            JsonView::Object(members) => if members.contains_key(key) {
                Some(members[key])
            } else {
                None
            },
            _ => None,
        }
    }

    /// The text, where this is one.
    pub open spec fn text(self) -> Option<Seq<char>> {
        match self {
            JsonView::Text(s) => Some(s),
            _ => None,
        }
    }

    /// The items, where this is an array.
    pub open spec fn items(self) -> Option<Seq<JsonView>> {
        match self {
            JsonView::Array(items) => Some(items),
            _ => None,
        }
    }

    /// The first item, where this is an array that has one.
    pub open spec fn first(self) -> Option<JsonView> {
        match self {
            JsonView::Array(items) => if items.len() > 0 {
                Some(items[0])
            } else {
                None
            },
            _ => None,
        }
    }
}

/// The value under `key` of a document that may be missing.
pub open spec fn field_of(doc: Option<JsonView>, key: Seq<char>) -> Option<JsonView> {
    match doc {
        Some(view) => view.field(key),
        None => None,
    }
}

/// The views of a list of documents.
pub open spec fn views(items: Seq<Json>) -> Seq<JsonView>
    decreases items,
{
    Seq::new(
        items.len(),
        |i: int|
            if 0 <= i < items.len() {
                items[i].view()
            } else {
                JsonView::Null
            },
    )
}

/// The members of an object, later ones over earlier ones.
pub open spec fn members_view(members: Seq<Member>) -> Map<Seq<char>, JsonView>
    decreases members,
{
    if members.len() == 0 {
        Map::empty()
    } else {
        let last = members[members.len() - 1];
        members_view(members.subrange(0, members.len() - 1)).insert(last.key@, last.value.view())
    }
}

impl Json {
    /// What the document says.
    pub open spec fn view(&self) -> JsonView
        decreases self,
    {
        match self {
            Json::Null => JsonView::Null,
            Json::Bool(b) => JsonView::Bool(*b),
            Json::Number(n) => JsonView::Number(number_text(*n)),
            Json::Text(s) => JsonView::Text(s@),
            Json::Array(items) => JsonView::Array(views(items@)),
            Json::Object(members) => JsonView::Object(members_view(members@)),
        }
    }

    /// A text as a document.
    pub fn text(s: &str) -> (doc: Json)
        ensures
            doc@ == JsonView::Text(s@),
    {
        Json::Text(s.to_string())
    }

    /// A number as a document.
    pub fn count(n: u64) -> (doc: Json)
        ensures
            doc@ == JsonView::Number(decimal(n as nat)),
    {
        Json::Number(number_from(n))
    }

    /// The value under `key`, where this is an object that has it.
    pub fn get(&self, key: &str) -> (value: Option<&Json>)
        ensures
            match value {
                Some(found) => self@.field(key@) == Some(found@),
                None => self@.field(key@) is None,
            },
    {
        match self {
            Json::Object(members) => {
                let wanted = key.to_string();
                let mut i: usize = members.len();
                assert(members@.subrange(0, i as int) =~= members@);
                while i > 0
                    invariant
                        i <= members@.len(),
                        wanted@ == key@,
                        self@ == JsonView::Object(members_view(members@)),
                        self@.field(key@) == JsonView::Object(
                            members_view(members@.subrange(0, i as int)),
                        ).field(key@),
                    decreases i,
                {
                    i = i - 1;
                    assert(members@.subrange(0, i + 1).subrange(0, i as int) =~= members@.subrange(
                        0,
                        i as int,
                    ));
                    if members[i].key == wanted {
                        return Some(&members[i].value);
                    }
                }
                None
            },
            _ => None,
        }
    }

    /// The text, where this is one.
    pub fn as_str(&self) -> (text: Option<&str>)
        ensures
            match text {
                Some(s) => self@.text() == Some(s@),
                None => self@.text() is None,
            },
    {
        match self {
            Json::Text(s) => Some(s.as_str()),
            _ => None,
        }
    }

    /// The items, where this is an array.
    pub fn as_array(&self) -> (items: Option<&Vec<Json>>)
        ensures
            match items {
                Some(list) => self@.items() == Some(views(list@)),
                None => self@.items() is None,
            },
    {
        match self {
            Json::Array(items) => Some(items),
            _ => None,
        }
    }

    /// The first item, where this is an array that has one.
    pub fn first(&self) -> (item: Option<&Json>)
        ensures
            match item {
                Some(found) => self@.first() == Some(found@),
                None => self@.first() is None,
            },
    {
        match self {
            Json::Array(items) => if items.len() > 0 {
                Some(&items[0])
            } else {
                None
            },
            _ => None,
        }
    }
}

/// `members` with one more member behind them.
pub fn with(members: Vec<Member>, key: &str, value: Json) -> (all: Vec<Member>)
    ensures
        members_view(all@) == members_view(members@).insert(key@, value@),
{
    let mut all = members;
    all.push(Member { key: key.to_string(), value });
    assert(all@.subrange(0, all@.len() - 1) =~= members@);
    all
}

impl Clone for Member {
    fn clone(&self) -> (copy: Self)
        ensures
            copy.key@ == self.key@,
            copy.value@ == self.value@,
        decreases self,
    {
        Member { key: self.key.clone(), value: self.value.clone() }
    }
}

impl Clone for Json {
    fn clone(&self) -> (copy: Self)
        ensures
            copy@ == self@,
        decreases self,
    {
        match self {
            Json::Null => Json::Null,
            Json::Bool(b) => Json::Bool(*b),
            Json::Number(n) => Json::Number(n.clone()),
            Json::Text(s) => Json::Text(s.clone()),
            Json::Array(items) => {
                let mut copies: Vec<Json> = Vec::new();
                for i in 0..items.len()
                    invariant
                        *self == Json::Array(*items),
                        copies@.len() == i,
                        forall|j: int| 0 <= j < i ==> (#[trigger] copies@[j])@ == items@[j]@,
                {
                    assert(decreases_to!(*self => self->Array_0));
                    assert(decreases_to!(self->Array_0 => items@[i as int]));
                    copies.push(items[i].clone());
                }
                assert(views(copies@) =~= views(items@));
                Json::Array(copies)
            },
            Json::Object(members) => {
                let mut copies: Vec<Member> = Vec::new();
                assert(members@.subrange(0, 0) =~= Seq::<Member>::empty());
                for i in 0..members.len()
                    invariant
                        *self == Json::Object(*members),
                        members_view(copies@) == members_view(members@.subrange(0, i as int)),
                {
                    let ghost before = copies@;
                    assert(decreases_to!(*self => self->Object_0));
                    assert(decreases_to!(self->Object_0 => members@[i as int]));
                    copies.push(members[i].clone());
                    assert(copies@.subrange(0, copies@.len() - 1) =~= before);
                    assert(members@.subrange(0, i + 1).subrange(0, i as int) =~= members@.subrange(
                        0,
                        i as int,
                    ));
                }
                assert(members@.subrange(0, members@.len() as int) =~= members@);
                Json::Object(copies)
            },
        }
    }
}

/// A clone of a `serde_json::Number` is the same number.
pub assume_specification[ <serde_json::Number as Clone>::clone ](
    number: &serde_json::Number,
) -> (copy: serde_json::Number)
    ensures
        copy == *number,
;

/// `serde_json::Number::from` makes a number that prints as the digits of `n`.
#[verifier::external_body]
fn number_from(n: u64) -> (number: serde_json::Number)
    ensures
        number_text(number) == decimal(n as nat),
{
    serde_json::Number::from(n)
}

/// One layer of a document of `serde_json`, read in place.
enum ValueLayer<'a> {
    Null,
    Bool(bool),
    Number(&'a serde_json::Number),
    Text(&'a String),
    Array(&'a Vec<serde_json::Value>),
    Object(Vec<(&'a String, &'a serde_json::Value)>),
}

/// The views of a list of documents of `serde_json`.
spec fn value_views(values: Seq<serde_json::Value>) -> Seq<JsonView> {
    values.map_values(|v: serde_json::Value| value_view(v))
}

/// Whether `pairs` lists the members of an object, each once.
spec fn lists_members(
    pairs: Seq<(&String, &serde_json::Value)>,
    members: Map<Seq<char>, JsonView>,
) -> bool {
    &&& forall|i: int, j: int|
        0 <= i < j < pairs.len() ==> (#[trigger] pairs[i]).0@ != (#[trigger] pairs[j]).0@
    &&& forall|i: int|
        #![trigger pairs[i]]
        0 <= i < pairs.len() ==> members.contains_key(pairs[i].0@) && members[pairs[i].0@]
            == value_view(*pairs[i].1)
    &&& forall|key: Seq<char>| #[trigger]
        members.contains_key(key) ==> exists|i: int| 0 <= i < pairs.len() && (#[trigger] pairs[i]).0@ == key
}

/// Whether `layer` is the outermost layer of what `view` says.
spec fn is_layer_of(layer: ValueLayer<'_>, view: JsonView) -> bool {
    match layer {
        ValueLayer::Null => view == JsonView::Null,
        ValueLayer::Bool(b) => view == JsonView::Bool(b),
        ValueLayer::Number(n) => view == JsonView::Number(number_text(*n)),
        ValueLayer::Text(s) => view == JsonView::Text(s@),
        ValueLayer::Array(items) => view == JsonView::Array(value_views(items@)),
        ValueLayer::Object(pairs) => view matches JsonView::Object(members) && lists_members(
            pairs@,
            members,
        ),
    }
}

/// Tells the variants of a `serde_json::Value` apart. A `serde_json::Map` lists each of its
/// keys once.
#[verifier::external_body]
fn open_value<'a>(value: &'a serde_json::Value) -> (layer: ValueLayer<'a>)
    ensures
        is_layer_of(layer, value_view(*value)),
{
    match value {
        serde_json::Value::Null => ValueLayer::Null,
        serde_json::Value::Bool(b) => ValueLayer::Bool(*b),
        serde_json::Value::Number(n) => ValueLayer::Number(n),
        serde_json::Value::String(s) => ValueLayer::Text(s),
        serde_json::Value::Array(items) => ValueLayer::Array(items),
        serde_json::Value::Object(members) => ValueLayer::Object(members.iter().collect()),
    }
}

/// The document that `value` holds.
pub fn read_value(value: &serde_json::Value) -> (doc: Json)
    ensures
        doc@ == value_view(*value),
    decreases value_view(*value),
{
    let ghost whole = value_view(*value);
    match open_value(value) {
        ValueLayer::Null => Json::Null,
        ValueLayer::Bool(b) => Json::Bool(b),
        ValueLayer::Number(n) => Json::Number(n.clone()),
        ValueLayer::Text(s) => Json::Text(s.clone()),
        ValueLayer::Array(items) => {
            let mut docs: Vec<Json> = Vec::new();
            for i in 0..items.len()
                invariant
                    whole == value_view(*value),
                    whole == JsonView::Array(value_views(items@)),
                    docs@.len() == i,
                    forall|j: int| 0 <= j < i ==> (#[trigger] docs@[j])@ == value_view(items@[j]),
            {
                proof {
                    assert(whole->Array_0[i as int] == value_view(items@[i as int]));
                    assert(decreases_to!(whole => whole->Array_0));
                }
                docs.push(read_value(&items[i]));
            }
            assert(views(docs@) =~= value_views(items@));
            Json::Array(docs)
        },
        ValueLayer::Object(pairs) => {
            let ghost fields = whole->Object_0;
            let mut members: Vec<Member> = Vec::new();
            for i in 0..pairs.len()
                invariant
                    whole == value_view(*value),
                    whole == JsonView::Object(fields),
                    lists_members(pairs@, fields),
                    members@.len() == i,
                    forall|key: Seq<char>| #[trigger]
                        members_view(members@).contains_key(key) <==> exists|j: int|
                            0 <= j < i && (#[trigger] pairs@[j]).0@ == key,
                    forall|key: Seq<char>| #[trigger]
                        members_view(members@).contains_key(key) ==> members_view(members@)[key]
                            == fields[key],
            {
                let pair = pairs[i];
                proof {
                    assert(pairs@[i as int] == pair);
                    assert(fields.contains_key(pair.0@));
                    assert(decreases_to!(whole => whole->Object_0));
                }
                let doc = read_value(pair.1);
                let ghost before = members@;
                members.push(Member { key: pair.0.clone(), value: doc });
                proof {
                    assert(members@.subrange(0, members@.len() - 1) =~= before);
                    assert(members_view(members@) == members_view(before).insert(pair.0@, doc@));
                    assert forall|key: Seq<char>| #[trigger]
                        members_view(members@).contains_key(key) <==> exists|j: int|
                            0 <= j < i + 1 && (#[trigger] pairs@[j]).0@ == key by {
                        if key == pair.0@ {
                            assert(pairs@[i as int].0@ == key);
                        }
                        if members_view(before).contains_key(key) {
                            let j = choose|j: int| 0 <= j < i && (#[trigger] pairs@[j]).0@ == key;
                            assert(0 <= j < i + 1 && pairs@[j].0@ == key);
                        }
                    }
                }
            }
            assert(members_view(members@) =~= fields);
            Json::Object(members)
        },
    }
}

/// The parts that a document of `serde_json` is made of.
enum ValueParts {
    Null,
    Bool(bool),
    Number(serde_json::Number),
    Text(String),
    Array(Vec<serde_json::Value>),
    Object(Vec<(String, serde_json::Value)>),
}

/// Whether no two pairs have one key.
spec fn distinct_keys(pairs: Seq<(String, serde_json::Value)>) -> bool {
    forall|i: int, j: int|
        0 <= i < j < pairs.len() ==> (#[trigger] pairs[i]).0@ != (#[trigger] pairs[j]).0@
}

/// The pairs as the members of an object, later ones over earlier ones.
spec fn pairs_view(pairs: Seq<(String, serde_json::Value)>) -> Map<Seq<char>, JsonView>
    decreases pairs.len(),
{
    if pairs.len() == 0 {
        Map::empty()
    } else {
        pairs_view(pairs.drop_last()).insert(pairs.last().0@, value_view(pairs.last().1))
    }
}

/// What a document made of `parts` says.
spec fn parts_view(parts: ValueParts) -> JsonView {
    match parts {
        ValueParts::Null => JsonView::Null,
        ValueParts::Bool(b) => JsonView::Bool(b),
        ValueParts::Number(n) => JsonView::Number(number_text(n)),
        ValueParts::Text(s) => JsonView::Text(s@),
        ValueParts::Array(items) => JsonView::Array(value_views(items@)),
        ValueParts::Object(pairs) => JsonView::Object(pairs_view(pairs@)),
    }
}

/// Makes a `serde_json::Value` of its parts. A `serde_json::Map` collected from pairs with
/// different keys holds each of them. Which value of a repeated key would stay is not said, so
/// there is none.
#[verifier::external_body]
fn close_value(parts: ValueParts) -> (value: serde_json::Value)
    requires
        parts matches ValueParts::Object(pairs) ==> distinct_keys(pairs@),
    ensures
        value_view(value) == parts_view(parts),
{
    match parts {
        ValueParts::Null => serde_json::Value::Null,
        ValueParts::Bool(b) => serde_json::Value::Bool(b),
        ValueParts::Number(n) => serde_json::Value::Number(n),
        ValueParts::Text(s) => serde_json::Value::String(s),
        ValueParts::Array(items) => serde_json::Value::Array(items),
        ValueParts::Object(pairs) => serde_json::Value::Object(pairs.into_iter().collect()),
    }
}

proof fn lemma_pairs_view(pairs: Seq<(String, serde_json::Value)>, key: Seq<char>)
    ensures
        pairs_view(pairs).contains_key(key) <==> exists|i: int|
            0 <= i < pairs.len() && (#[trigger] pairs[i]).0@ == key,
    decreases pairs.len(),
{
    if pairs.len() > 0 {
        let init = pairs.drop_last();
        lemma_pairs_view(init, key);
        if pairs_view(init).contains_key(key) {
            let i = choose|i: int| 0 <= i < init.len() && (#[trigger] init[i]).0@ == key;
            assert(pairs[i].0@ == key);
        }
        if pairs.last().0@ == key {
            assert(pairs[pairs.len() - 1].0@ == key);
        }
        if exists|i: int| 0 <= i < pairs.len() && (#[trigger] pairs[i]).0@ == key {
            let i = choose|i: int| 0 <= i < pairs.len() && (#[trigger] pairs[i]).0@ == key;
            if i < init.len() {
                assert(init[i].0@ == key);
            }
        }
    }
}

proof fn lemma_pair_removed(pairs: Seq<(String, serde_json::Value)>, at: int)
    requires
        distinct_keys(pairs),
        0 <= at < pairs.len(),
    ensures
        distinct_keys(pairs.remove(at)),
        pairs_view(pairs.remove(at)) == pairs_view(pairs).remove(pairs[at].0@),
    decreases pairs.len(),
{
    let key = pairs[at].0@;
    let last = pairs.last();
    let init = pairs.drop_last();
    if at == init.len() {
        assert(pairs.remove(at) =~= init);
        lemma_pairs_view(init, key);
        assert(pairs_view(init).insert(key, value_view(last.1)).remove(key) =~= pairs_view(init));
    } else {
        lemma_pair_removed(init, at);
        assert(pairs.remove(at).drop_last() =~= init.remove(at));
        assert(pairs.remove(at).last() == last);
        assert(pairs[at].0@ != pairs[pairs.len() - 1].0@);
        assert(pairs_view(init).remove(key).insert(last.0@, value_view(last.1)) =~= pairs_view(
            init,
        ).insert(last.0@, value_view(last.1)).remove(key));
    }
}

/// The pairs without that of `key`, where there is one.
fn without_key(pairs: Vec<(String, serde_json::Value)>, key: &String) -> (rest: Vec<
    (String, serde_json::Value),
>)
    requires
        distinct_keys(pairs@),
    ensures
        distinct_keys(rest@),
        pairs_view(rest@) == pairs_view(pairs@).remove(key@),
        forall|i: int| 0 <= i < rest@.len() ==> (#[trigger] rest@[i]).0@ != key@,
{
    let mut rest = pairs;
    let count: usize = rest.len();
    for i in 0..count
        invariant
            count == rest@.len(),
            rest@ == pairs@,
            distinct_keys(rest@),
            forall|j: int| 0 <= j < i ==> (#[trigger] rest@[j]).0@ != key@,
    {
        if rest[i].0 == *key {
            proof {
                lemma_pair_removed(rest@, i as int);
            }
            let _earlier = rest.remove(i);
            return rest;
        }
    }
    proof {
        lemma_pairs_view(rest@, key@);
        assert(pairs_view(rest@).remove(key@) =~= pairs_view(rest@));
    }
    rest
}

/// `doc` as a document of `serde_json`.
pub fn write_value(doc: &Json) -> (value: serde_json::Value)
    ensures
        value_view(value) == doc@,
    decreases doc,
{
    match doc {
        Json::Null => close_value(ValueParts::Null),
        Json::Bool(b) => close_value(ValueParts::Bool(*b)),
        Json::Number(n) => close_value(ValueParts::Number(n.clone())),
        Json::Text(s) => close_value(ValueParts::Text(s.clone())),
        Json::Array(items) => {
            let mut values: Vec<serde_json::Value> = Vec::new();
            for i in 0..items.len()
                invariant
                    *doc == Json::Array(*items),
                    values@.len() == i,
                    forall|j: int| 0 <= j < i ==> value_view(#[trigger] values@[j]) == items@[j]@,
            {
                assert(decreases_to!(*doc => doc->Array_0));
                assert(decreases_to!(doc->Array_0 => items@[i as int]));
                values.push(write_value(&items[i]));
            }
            assert(value_views(values@) =~= views(items@));
            close_value(ValueParts::Array(values))
        },
        Json::Object(members) => {
            let mut pairs: Vec<(String, serde_json::Value)> = Vec::new();
            assert(members@.subrange(0, 0) =~= Seq::<Member>::empty());
            for i in 0..members.len()
                invariant
                    *doc == Json::Object(*members),
                    distinct_keys(pairs@),
                    pairs_view(pairs@) == members_view(members@.subrange(0, i as int)),
            {
                let ghost before = pairs_view(pairs@);
                assert(decreases_to!(*doc => doc->Object_0));
                assert(decreases_to!(doc->Object_0 => members@[i as int]));
                assert(decreases_to!(members@[i as int] => members@[i as int].value));
                let value = write_value(&members[i].value);
                pairs = without_key(pairs, &members[i].key);
                let ghost rest = pairs@;
                pairs.push((members[i].key.clone(), value));
                assert(pairs@.drop_last() =~= rest);
                assert(before.remove(members@[i as int].key@).insert(
                    members@[i as int].key@,
                    value_view(value),
                ) =~= before.insert(members@[i as int].key@, value_view(value)));
                assert(members@.subrange(0, i + 1).subrange(0, i as int) =~= members@.subrange(
                    0,
                    i as int,
                ));
            }
            assert(members@.subrange(0, members@.len() as int) =~= members@);
            close_value(ValueParts::Object(pairs))
        },
    }
}

/// `serde_json::from_str` reads a text as one document, or says in words why it is none. What
/// it makes of a text depends on the text alone; the grammar is not spelled out. Nor is it said
/// that a printed document reads as itself: a fraction may lose its last digit, and a document
/// that is nested too deeply is refused.
#[verifier::external_body]
fn parse_value(text: &str) -> (outcome: Result<serde_json::Value, String>)
    ensures
        match outcome {
            Ok(value) => parse_outcome(text@) == Ok::<JsonView, Seq<char>>(value_view(value)),
            Err(words) => parse_outcome(text@) == Err::<JsonView, Seq<char>>(words@),
        },
{
    serde_json::from_str::<serde_json::Value>(text).map_err(|error| error.to_string())
}

/// `serde_json::Value::to_string` prints a document. What it prints depends on what the
/// document says alone, since the keys of an object are printed in their order; the form is not
/// spelled out.
#[verifier::external_body]
fn print_value(value: &serde_json::Value) -> (text: String)
    ensures
        text@ == json_text(value_view(*value)),
{
    value.to_string()
}

/// Reads `text` as one document, or says in words why it is none.
pub fn parse(text: &str) -> (outcome: Result<Json, String>)
    ensures
        match outcome {
            Ok(doc) => parse_outcome(text@) == Ok::<JsonView, Seq<char>>(doc@),
            Err(words) => parse_outcome(text@) == Err::<JsonView, Seq<char>>(words@),
        },
{
    match parse_value(text) {
        Ok(value) => Ok(read_value(&value)),
        Err(words) => Err(words),
    }
}

/// Prints `doc`.
pub fn print(doc: &Json) -> (text: String)
    ensures
        text@ == json_text(doc@),
{
    print_value(&write_value(doc))
}

/// What a document says is what it is made of.
pub proof fn law_documents_say_what_they_hold(
    text: String,
    flag: bool,
    number: serde_json::Number,
    items: Vec<Json>,
    members: Vec<Member>,
    i: int,
)
    ensures
        Json::Null@ == JsonView::Null,
        Json::Bool(flag)@ == JsonView::Bool(flag),
        Json::Number(number)@ == JsonView::Number(number_text(number)),
        Json::Text(text)@ == JsonView::Text(text@),
        Json::Array(items)@ is Array,
        Json::Array(items)@->Array_0.len() == items@.len(),
        0 <= i < items@.len() ==> Json::Array(items)@->Array_0[i] == items@[i]@,
        Json::Object(members)@ == JsonView::Object(members_view(members@)),
{
}

/// An object has a key where a member has it, and under it the value of the last such member.
pub proof fn law_last_member_counts(members: Seq<Member>, member: Member, key: Seq<char>)
    ensures
        members_view(Seq::<Member>::empty()) == Map::<Seq<char>, JsonView>::empty(),
        members_view(members.push(member)).contains_key(key) <==> key == member.key@
            || members_view(members).contains_key(key),
        members_view(members.push(member))[member.key@] == member.value@,
        key != member.key@ && members_view(members).contains_key(key) ==> members_view(
            members.push(member),
        )[key] == members_view(members)[key],
{
    assert(members.push(member).subrange(0, members.len() as int) =~= members);
}

/// Only an object has fields, and it has those of its members; only an array has items; only a
/// text is a text.
pub proof fn law_parts_of_documents(doc: JsonView, key: Seq<char>)
    ensures
        doc.field(key) is Some <==> doc is Object && doc->Object_0.contains_key(key),
        doc.field(key) is Some ==> doc.field(key)->0 == doc->Object_0[key],
        field_of(Some(doc), key) == doc.field(key),
        field_of(None, key) is None,
        doc.text() is Some <==> doc is Text,
        doc.text() is Some ==> doc.text()->0 == doc->Text_0,
        doc.items() is Some <==> doc is Array,
        doc.items() is Some ==> doc.items()->0 == doc->Array_0,
        doc.first() is Some <==> doc is Array && doc->Array_0.len() > 0,
        doc.first() is Some ==> doc.first()->0 == doc->Array_0[0],
{
}

} // verus!

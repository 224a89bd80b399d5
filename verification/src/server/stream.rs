//! How the stream of a backend becomes the events that the client is sent.

use crate::json::{json_text, print, Json};
use crate::text::{
    decode_lossy, law_lines, lines, lossy_text, split_lines, starts_with, strip_prefix, texts, without_return,
};
use crate::types::text_view;
use vstd::prelude::*;
use vstd::utf8::{decode_utf8, valid_utf8};

verus! {

/// Whether a line of a stream says something. Empty lines do not, nor do the lines of an
/// Anthropic stream that name an event.
pub open spec fn speaks(line: Seq<char>, anthropic: bool) -> bool {
    line.len() > 0 && !(anthropic && "event:"@.is_prefix_of(line))
}

/// The lines of a chunk that say something.
pub open spec fn spoken_lines(text: Seq<char>, anthropic: bool) -> Seq<Seq<char>> {
    split_lines(text).filter(|line: Seq<char>| speaks(line, anthropic))
}

/// What a line of an OpenAI stream says: what follows `data: `, or else the whole line.
pub open spec fn spoken(line: Seq<char>) -> Seq<char> {
    if "data: "@.is_prefix_of(line) {
        line.skip("data: "@.len() as int)
    } else {
        line
    }
}

/// The lines of a chunk's text that say something.
pub fn lines_of_text(text: &str, anthropic: bool) -> (kept: Vec<String>)
    ensures
        texts(kept@) == spoken_lines(text@, anthropic),
{
    let all = lines(text);
    let mut kept: Vec<String> = Vec::new();
    let ghost pred = |line: Seq<char>| speaks(line, anthropic);
    proof {
        reveal(Seq::filter);
        assert(texts(all@).take(0) =~= Seq::<Seq<char>>::empty());
        assert(texts(kept@) =~= texts(all@).take(0).filter(pred));
    }
    for i in 0..all.len()
        invariant
            pred == (|line: Seq<char>| speaks(line, anthropic)),
            texts(kept@) == texts(all@).take(i as int).filter(pred),
    {
        proof {
            reveal(Seq::filter);
            assert(texts(all@).take(i + 1).drop_last() =~= texts(all@).take(i as int));
            assert(texts(all@).take(i + 1).last() == all@[i as int]@);
        }
        let skipped = anthropic && starts_with(all[i].as_str(), "event:");
        if !all[i].as_str().is_empty() && !skipped {
            let ghost before = texts(kept@);
            kept.push(all[i].clone());
            assert(texts(kept@) =~= before.push(all@[i as int]@));
        }
    }
    assert(texts(all@).take(all@.len() as int) =~= texts(all@));
    kept
}

/// The lines of a chunk that say something.
pub fn chunk_lines(bytes: &[u8], anthropic: bool) -> (kept: Vec<String>)
    ensures
        texts(kept@) == spoken_lines(lossy_text(bytes@), anthropic),
        valid_utf8(bytes@) ==> texts(kept@) == spoken_lines(decode_utf8(bytes@), anthropic),
{
    lines_of_text(decode_lossy(bytes).as_str(), anthropic)
}

/// The event that the lines of an OpenAI chunk make: what the first of them says.
pub fn openai_event(lines: &Vec<String>) -> (event: Option<String>)
    ensures
        text_view(event) == if lines@.len() > 0 {
            Some(spoken(lines@[0]@))
        } else {
            None
        },
{
    if lines.len() == 0 {
        return None;
    }
    match strip_prefix(lines[0].as_str(), "data: ") {
        Some(rest) => Some(rest),
        None => Some(lines[0].clone()),
    }
}

/// What the client is sent for an OpenAI chunk: what the first line says that says something.
pub open spec fn relayed(text: Seq<char>) -> Option<Seq<char>> {
    let kept = spoken_lines(text, false);
    if kept.len() > 0 {
        Some(spoken(kept[0]))
    } else {
        None
    }
}

/// The event that an OpenAI chunk makes.
pub fn openai_chunk_event(bytes: &[u8]) -> (event: Option<String>)
    ensures
        text_view(event) == relayed(lossy_text(bytes@)),
        valid_utf8(bytes@) ==> text_view(event) == relayed(decode_utf8(bytes@)),
{
    let kept = chunk_lines(bytes, false);
    assert(kept@.len() > 0 ==> texts(kept@)[0] == kept@[0]@);
    openai_event(&kept)
}

/// Whether line `i` is the first that was converted.
pub open spec fn first_converted(converted: Seq<Option<Json>>, i: int) -> bool {
    0 <= i < converted.len() && converted[i] is Some && forall|j: int|
        0 <= j < i ==> (#[trigger] converted[j]) is None
}

/// The event that the lines of an Anthropic chunk make, from what each was converted to: the
/// first conversion that there is, as it is printed.
pub fn anthropic_event(converted: &Vec<Option<Json>>) -> (event: Option<String>)
    ensures
        match event {
            Some(data) => exists|i: int| #[trigger]
                first_converted(converted@, i) && data@ == json_text(converted@[i]->0@),
            None => forall|i: int|
                0 <= i < converted@.len() ==> (#[trigger] converted@[i]) is None,
        },
{
    for i in 0..converted.len()
        invariant
            forall|j: int| 0 <= j < i ==> (#[trigger] converted@[j]) is None,
    {
        if let Some(doc) = &converted[i] {
            assert(first_converted(converted@, i as int));
            return Some(print(doc));
        }
    }
    None
}

/// The event that a chunk makes which did not arrive whole: the end of the stream.
pub fn broken_chunk_event() -> (event: String)
    ensures
        event@ == "[DONE]"@,
{
    "[DONE]".to_string()
}

/// A line that is kept says something, and every line that does is kept.
pub proof fn law_spoken_lines(text: Seq<char>, anthropic: bool)
    ensures
        forall|line: Seq<char>| #[trigger]
            spoken_lines(text, anthropic).contains(line) <==> split_lines(text).contains(line)
                && speaks(line, anthropic),
{
    let pred = |line: Seq<char>| speaks(line, anthropic);
    let all = split_lines(text);
    let kept = all.filter(pred);
    assert forall|line: Seq<char>| #[trigger]
        spoken_lines(text, anthropic).contains(line) implies all.contains(line) && speaks(
        line,
        anthropic,
    ) by {
        let k = choose|k: int| 0 <= k < kept.len() && kept[k] == line;
        all.lemma_filter_pred(pred, k);
        all.lemma_filter_contains_rev(pred, line);
    }
    assert forall|line: Seq<char>| all.contains(line) && speaks(
        line,
        anthropic,
    ) implies #[trigger] spoken_lines(text, anthropic).contains(line) by {
        let k = choose|k: int| 0 <= k < all.len() && all[k] == line;
        all.lemma_filter_contains(pred, k);
    }
}

/// An event that an OpenAI backend sends in a chunk of its own reaches the client as it was
/// sent, the end of the stream included.
pub proof fn law_events_pass_through(payload: Seq<char>)
    requires
        !payload.contains('\n'),
        payload.len() > 0 ==> payload.last() != '\r',
    ensures
        relayed("data: "@ + payload + "\n\n"@) == Some(payload),
{
    reveal_strlit("data: ");
    reveal_strlit("\n\n");
    let line = "data: "@ + payload;
    let text = line + "\n\n"@;
    let end = line.len() as int;
    assert(!line.contains('\n')) by {
        if line.contains('\n') {
            let k = choose|k: int| 0 <= k < line.len() && line[k] == '\n';
            assert(payload[k - 6] == '\n');
        }
    }
    lemma_line_first(line, text);
    let rest = text.skip(end + 1);
    let none = Seq::<char>::empty();
    lemma_line_first(none, rest);
    assert(rest.skip(1) =~= none);
    assert(line.last() != '\r');
    assert(split_lines(text) =~= seq![line, none]);
    let pred = |l: Seq<char>| speaks(l, false);
    reveal(Seq::filter);
    assert(seq![line, none].drop_last() =~= seq![line]);
    assert(seq![line].drop_last() =~= Seq::<Seq<char>>::empty());
    reveal_with_fuel(Seq::filter, 3);
    assert(seq![line, none].filter(pred) =~= seq![line]);
    assert("data: "@ =~= line.subrange(0, 6));
    assert(line.skip(6) =~= payload);
}

proof fn lemma_line_first(line: Seq<char>, text: Seq<char>)
    requires
        !line.contains('\n'),
        line.len() < text.len(),
        text.take(line.len() as int) =~= line,
        text[line.len() as int] == '\n',
    ensures
        split_lines(text) == seq![without_return(line)] + split_lines(
            text.skip(line.len() as int + 1),
        ),
{
    text.index_of_first_ensures('\n');
    let first = text.index_of_first('\n')->0;
    assert(text.contains('\n'));
    assert(first == line.len()) by {
        if first < line.len() {
            assert(line[first] == '\n');
        }
    }
}

/// A chunk is read line by line. A line is kept as it stands and in its place, unless it is empty
/// or, in an Anthropic chunk, names an event; what is not kept leaves the others alone.
pub proof fn law_line_by_line(line: Seq<char>, rest: Seq<char>, anthropic: bool)
    requires
        !line.contains('\n'),
    ensures
        ({
            let dropped = line.len() == 0 || (anthropic && "event:"@.is_prefix_of(line));
            let kept = if dropped {
                Seq::<Seq<char>>::empty()
            } else {
                seq![line]
            };
            &&& spoken_lines(Seq::empty(), anthropic) == Seq::<Seq<char>>::empty()
            &&& spoken_lines(line, anthropic) == kept
            &&& spoken_lines(line + seq!['\r', '\n'] + rest, anthropic) == kept + spoken_lines(
                rest,
                anthropic,
            )
            &&& line.len() == 0 || line.last() != '\r' ==> spoken_lines(
                line + seq!['\n'] + rest,
                anthropic,
            ) == kept + spoken_lines(rest, anthropic)
        }),
{
    let pred = |l: Seq<char>| speaks(l, anthropic);
    law_lines(line, rest);
    Seq::filter_distributes_over_add(seq![line], split_lines(rest), pred);
    reveal(Seq::filter);
    assert(seq![line].drop_last() =~= Seq::<Seq<char>>::empty());
    assert(Seq::<Seq<char>>::empty().filter(pred) =~= Seq::<Seq<char>>::empty());
    assert(Seq::<Seq<char>>::empty().push(line) =~= seq![line]);
    assert(line.len() == 0 ==> line =~= Seq::<char>::empty());
}

/// Of an event in a chunk of an Anthropic backend the data line is kept, whatever the event's name
/// and data are, and nothing else.
pub proof fn law_anthropic_event(name: Seq<char>, payload: Seq<char>)
    requires
        !name.contains('\n'),
        !payload.contains('\n'),
        payload.len() > 0 ==> payload.last() != '\r',
    ensures
        spoken_lines(
            "event: "@ + name + "\n"@ + ("data: "@ + payload + "\n\n"@),
            true,
        ) == seq!["data: "@ + payload],
{
    reveal_strlit("event: ");
    reveal_strlit("event:");
    reveal_strlit("data: ");
    reveal_strlit("\n");
    reveal_strlit("\n\n");
    let first = "event: "@ + name;
    let second = "data: "@ + payload;
    let tail = second + "\n\n"@;
    let whole = first + "\n"@ + tail;
    assert(!first.contains('\n')) by {
        if first.contains('\n') {
            let k = choose|k: int| 0 <= k < first.len() && first[k] == '\n';
            assert(name[k - 7] == '\n');
        }
    }
    assert(!second.contains('\n')) by {
        if second.contains('\n') {
            let k = choose|k: int| 0 <= k < second.len() && second[k] == '\n';
            assert(payload[k - 6] == '\n');
        }
    }
    assert("event:"@ =~= first.subrange(0, 6));
    assert(!"event:"@.is_prefix_of(second)) by {
        assert(second.subrange(0, 6)[0] == 'd');
    }
    let none = Seq::<char>::empty();
    if first.last() == '\r' {
        let inner = first.drop_last();
        assert(!inner.contains('\n')) by {
            if inner.contains('\n') {
                let k = choose|k: int| 0 <= k < inner.len() && inner[k] == '\n';
                assert(first[k] == '\n');
            }
        }
        assert(name.len() > 0);
        assert("event:"@ =~= inner.subrange(0, 6));
        assert(whole =~= inner + seq!['\r', '\n'] + tail);
        law_line_by_line(inner, tail, true);
    } else {
        assert(whole =~= first + seq!['\n'] + tail);
        law_line_by_line(first, tail, true);
    }
    let rest = none + seq!['\n'] + none;
    assert(tail =~= second + seq!['\n'] + rest);
    assert(second.last() != '\r');
    law_line_by_line(second, rest, true);
    law_line_by_line(none, none, true);
    assert(spoken_lines(rest, true) =~= Seq::<Seq<char>>::empty());
    assert(spoken_lines(whole, true) =~= seq![second]);
}

/// What the client is sent for an OpenAI chunk is the first line that is not empty, without the
/// `data: ` that may stand before it; empty lines do not count, and what follows that line does
/// not matter.
pub proof fn law_relayed(line: Seq<char>, rest: Seq<char>)
    requires
        !line.contains('\n'),
    ensures
        relayed(Seq::empty()) is None,
        "data: "@.is_prefix_of(line) ==> spoken(line) == line.skip(6),
        !"data: "@.is_prefix_of(line) ==> spoken(line) == line,
        line.len() == 0 ==> relayed(line + seq!['\n'] + rest) == relayed(rest),
        line.len() == 0 ==> relayed(line + seq!['\r', '\n'] + rest) == relayed(rest),
        line.len() > 0 ==> ({
            let said = if "data: "@.is_prefix_of(line) {
                line.skip(6)
            } else {
                line
            };
            &&& relayed(line) == Some(said)
            &&& relayed(line + seq!['\r', '\n'] + rest) == Some(said)
            &&& line.last() != '\r' ==> relayed(line + seq!['\n'] + rest) == Some(said)
        }),
{
    reveal_strlit("data: ");
    law_line_by_line(line, rest, false);
    let none = Seq::<Seq<char>>::empty();
    assert(none + spoken_lines(rest, false) =~= spoken_lines(rest, false));
}

/// A line that was not converted makes no event and leaves it to those behind it; one that was
/// converted makes the event, whatever stands behind it.
pub proof fn law_first_conversion(doc: Json, rest: Seq<Option<Json>>, i: int)
    ensures
        !first_converted(Seq::empty(), i),
        first_converted(seq![Some(doc)] + rest, i) <==> i == 0,
        first_converted(seq![None] + rest, i + 1) <==> first_converted(rest, i),
        !first_converted(seq![None] + rest, 0),
{
    let with_doc = seq![Some(doc)] + rest;
    assert(with_doc[0] == Some(doc));
    let without = seq![None::<Json>] + rest;
    assert(without[0] is None);
    if first_converted(rest, i) {
        assert forall|j: int| 0 <= j < i + 1 implies (#[trigger] without[j]) is None by {
            if j > 0 {
                assert(rest[j - 1] is None);
            }
        }
        assert(without[i + 1] == rest[i]);
    }
    if first_converted(without, i + 1) {
        assert(i >= 0) by {
            if i == -1 {
                assert(without[0] is None);
            }
        }
        assert forall|j: int| 0 <= j < i implies (#[trigger] rest[j]) is None by {
            assert(without[j + 1] is None);
        }
        assert(without[i + 1] == rest[i]);
    }
}

} // verus!

//! Text: the few operations on strings that the proxy needs.

use vstd::prelude::*;
use vstd::utf8::{decode_utf8, is_ascii_chars, valid_utf8};

verus! {

/// The contents of a list of strings.
pub open spec fn texts(list: Seq<String>) -> Seq<Seq<char>> {
    list.map_values(|s: String| s@)
}

/// The digits of `n`, most significant first.
pub open spec fn decimal(n: nat) -> Seq<char>
    decreases n,
{
    if n < 10 {
        seq![('0' as nat + n) as char]
    } else {
        decimal(n / 10).push(('0' as nat + n % 10) as char)
    }
}

/// The lower-case form of a text, by the Unicode rules of `str::to_lowercase`.
pub uninterp spec fn lowercase(text: Seq<char>) -> Seq<char>;

/// The lower-case form of an ASCII character.
pub open spec fn ascii_lower(c: char) -> char {
    if 'A' <= c <= 'Z' {
        (c as int + 32) as char
    } else {
        c
    }
}

/// The lower-case form of an ASCII text.
pub open spec fn ascii_lowercase(text: Seq<char>) -> Seq<char> {
    text.map_values(|c: char| ascii_lower(c))
}

/// The text that bytes stand for, with replacement characters for what is not UTF-8.
pub uninterp spec fn lossy_text(bytes: Seq<u8>) -> Seq<char>;

/// Whether a character has the Unicode property `White_Space`.
pub open spec fn white_space(c: char) -> bool {
    let code = c as int;
    ||| 0x9 <= code <= 0xd
    ||| code == 0x20
    ||| code == 0x85
    ||| code == 0xa0
    ||| code == 0x1680
    ||| 0x2000 <= code <= 0x200a
    ||| code == 0x2028
    ||| code == 0x2029
    ||| code == 0x202f
    ||| code == 0x205f
    ||| code == 0x3000
}

/// A text without its leading white space.
pub open spec fn trimmed_start(s: Seq<char>) -> Seq<char>
    decreases s.len(),
{
    if s.len() > 0 && white_space(s[0]) {
        trimmed_start(s.drop_first())
    } else {
        s
    }
}

/// A text without its trailing white space.
pub open spec fn trimmed_end(s: Seq<char>) -> Seq<char>
    decreases s.len(),
{
    if s.len() > 0 && white_space(s.last()) {
        trimmed_end(s.drop_last())
    } else {
        s
    }
}

/// A text without the white space at its ends.
pub open spec fn trimmed(s: Seq<char>) -> Seq<char> {
    trimmed_end(trimmed_start(s))
}

/// A line without the carriage return that stood before its line feed.
pub open spec fn without_return(line: Seq<char>) -> Seq<char> {
    if line.len() > 0 && line.last() == '\r' {
        line.drop_last()
    } else {
        line
    }
}

/// The lines of a text. A line ends in a line feed, which a carriage return may precede; the
/// last one may go without.
pub open spec fn split_lines(s: Seq<char>) -> Seq<Seq<char>>
    decreases s.len(),
{
    if s.len() == 0 {
        Seq::empty()
    } else if s.contains('\n') {
        proof {
            s.index_of_first_ensures('\n');
        }
        let end = s.index_of_first('\n')->0;
        seq![without_return(s.take(end))] + split_lines(s.skip(end + 1))
    } else {
        seq![s]
    }
}

/// `String::push` appends one character.
pub assume_specification[ String::push ](text: &mut String, c: char)
    ensures
        final(text)@ == old(text)@.push(c),
;

/// `str::to_lowercase` maps a text to its lower-case form, which for ASCII is taken character
/// by character. The form of other texts is named and not spelled out.
pub assume_specification[ str::to_lowercase ](text: &str) -> (lower: String)
    ensures
        lower@ == lowercase(text@),
        is_ascii_chars(text@) ==> lower@ == ascii_lowercase(text@),
;

/// `str::trim` drops the white space at both ends of a text.
pub assume_specification[ str::trim ](text: &str) -> (inner: &str)
    ensures
        inner@ == trimmed(text@),
;

/// `String::from_utf8_lossy` reads bytes as UTF-8 and puts a replacement character where they
/// are not; what is UTF-8 is read as such. Where the replacement characters stand is not
/// spelled out.
#[verifier::external_body]
pub(crate) fn decode_lossy(bytes: &[u8]) -> (text: String)
    ensures
        text@ == lossy_text(bytes@),
        valid_utf8(bytes@) ==> text@ == decode_utf8(bytes@),
{
    String::from_utf8_lossy(bytes).into_owned()
}

/// `std::str::from_utf8` reads bytes as UTF-8, where they are.
#[verifier::external_body]
pub(crate) fn decode_strict(bytes: &[u8]) -> (text: Option<&str>)
    ensures
        text is Some <==> valid_utf8(bytes@),
        text matches Some(t) ==> t@ == decode_utf8(bytes@),
{
    std::str::from_utf8(bytes).ok()
}

/// The characters of a text.
pub(crate) fn chars_of(text: &str) -> (chars: Vec<char>)
    ensures
        chars@ == text@,
{
    let mut chars: Vec<char> = Vec::new();
    for c in it: text.chars()
        invariant
            it.seq() == text@,
            chars@ == text@.take(it.index()),
    {
        chars.push(c);
        assert(text@.take(it.index() + 1) =~= text@.take(it.index()).push(c));
    }
    assert(text@.take(text@.len() as int) =~= text@);
    chars
}

/// The text made of `chars[from..to]`.
pub(crate) fn text_between(chars: &Vec<char>, from: usize, to: usize) -> (text: String)
    requires
        from <= to <= chars@.len(),
    ensures
        text@ == chars@.subrange(from as int, to as int),
{
    let mut text = String::new();
    assert(chars@.subrange(from as int, from as int) =~= Seq::<char>::empty());
    for i in from..to
        invariant
            from <= to <= chars@.len(),
            text@ == chars@.subrange(from as int, i as int),
    {
        text.push(chars[i]);
        assert(chars@.subrange(from as int, i + 1) =~= chars@.subrange(from as int, i as int).push(
            chars@[i as int],
        ));
    }
    text
}

/// Whether `text` begins with `prefix`.
pub fn starts_with(text: &str, prefix: &str) -> (yes: bool)
    ensures
        yes == prefix@.is_prefix_of(text@),
{
    strip_prefix(text, prefix).is_some()
}

/// What follows `prefix` in `text`, where `text` begins with it.
pub fn strip_prefix(text: &str, prefix: &str) -> (rest: Option<String>)
    ensures
        rest is Some <==> prefix@.is_prefix_of(text@),
        rest is Some ==> rest->0@ == text@.skip(prefix@.len() as int),
{
    let chars = chars_of(text);
    let head = chars_of(prefix);
    if head.len() > chars.len() {
        return None;
    }
    for i in 0..head.len()
        invariant
            chars@ == text@,
            head@ == prefix@,
            head@.len() <= chars@.len(),
            forall|j: int| 0 <= j < i ==> head@[j] == chars@[j],
    {
        if head[i] != chars[i] {
            assert(prefix@[i as int] != text@.subrange(0, prefix@.len() as int)[i as int]);
            return None;
        }
    }
    assert(prefix@ =~= text@.subrange(0, prefix@.len() as int));
    let rest = text_between(&chars, head.len(), chars.len());
    assert(rest@ =~= text@.skip(prefix@.len() as int));
    Some(rest)
}

/// The lines of `text`.
pub fn lines(text: &str) -> (out: Vec<String>)
    ensures
        texts(out@) == split_lines(text@),
{
    let chars = chars_of(text);
    let mut out: Vec<String> = Vec::new();
    let mut start: usize = 0;
    proof {
        assert(chars@.skip(0) =~= chars@);
        assert(texts(out@) + split_lines(chars@) =~= split_lines(chars@));
    }
    while start < chars.len()
        invariant
            start <= chars@.len(),
            chars@ == text@,
            texts(out@) + split_lines(chars@.skip(start as int)) == split_lines(text@),
        decreases chars@.len() - start,
    {
        let mut end: usize = start;
        while end < chars.len() && chars[end] != '\n'
            invariant
                start <= end <= chars@.len(),
                forall|j: int| start <= j < end ==> chars@[j] != '\n',
            decreases chars@.len() - end,
        {
            end = end + 1;
        }
        let ghost rest = chars@.skip(start as int);
        let ghost before = texts(out@);
        if end < chars.len() {
            let stop: usize = if end > start && chars[end - 1] == '\r' {
                end - 1
            } else {
                end
            };
            let line = text_between(&chars, start, stop);
            proof {
                let at = end - start;
                assert(rest[at] == '\n');
                assert(rest.contains('\n'));
                rest.index_of_first_ensures('\n');
                let first = rest.index_of_first('\n')->0;
                assert(first <= at);
                assert(first == at) by {
                    if first < at {
                        assert(chars@[start + first] != '\n');
                    }
                }
                assert(line@ =~= without_return(rest.take(at)));
                assert(rest.skip(at + 1) =~= chars@.skip(end + 1));
                assert(split_lines(rest) =~= seq![line@] + split_lines(chars@.skip(end + 1)));
            }
            out.push(line);
            proof {
                assert(texts(out@) =~= before + seq![line@]);
                assert(texts(out@) + split_lines(chars@.skip(end + 1)) =~= before + split_lines(rest));
            }
            start = end + 1;
        } else {
            let line = text_between(&chars, start, end);
            proof {
                assert(line@ =~= rest);
                assert(!rest.contains('\n')) by {
                    if rest.contains('\n') {
                        let k = choose|k: int| 0 <= k < rest.len() && rest[k] == '\n';
                        assert(chars@[start + k] == '\n');
                    }
                }
                assert(split_lines(rest) =~= seq![line@]);
            }
            out.push(line);
            proof {
                assert(texts(out@) =~= before + seq![line@]);
                assert(chars@.skip(end as int) =~= Seq::<char>::empty());
                assert(texts(out@) + split_lines(chars@.skip(end as int)) =~= before + split_lines(rest));
            }
            start = end;
        }
    }
    proof {
        assert(chars@.skip(start as int) =~= Seq::<char>::empty());
        assert(texts(out@) + split_lines(chars@.skip(start as int)) =~= texts(out@));
    }
    out
}

/// The digits of `n`.
pub fn decimal_text(n: u64) -> (text: String)
    ensures
        text@ == decimal(n as nat),
    decreases n,
{
    let digit: char = (48 + (n % 10) as u8) as char;
    let mut text = if n < 10 {
        String::new()
    } else {
        decimal_text(n / 10)
    };
    text.push(digit);
    assert(n < 10 ==> text@ =~= decimal(n as nat));
    text
}

/// A trimmed text neither begins nor ends with white space, and trimming it again changes
/// nothing.
pub proof fn law_trimmed_ends(s: Seq<char>)
    ensures
        trimmed(s).len() > 0 ==> !white_space(trimmed(s)[0]) && !white_space(trimmed(s).last()),
        trimmed(trimmed(s)) == trimmed(s),
{
    lemma_trimmed_start(s);
    lemma_trimmed_end(trimmed_start(s));
}

proof fn lemma_trimmed_start(s: Seq<char>)
    ensures
        trimmed_start(s).len() > 0 ==> !white_space(trimmed_start(s)[0]),
    decreases s.len(),
{
    if s.len() > 0 && white_space(s[0]) {
        lemma_trimmed_start(s.drop_first());
    }
}

proof fn lemma_trimmed_end(s: Seq<char>)
    ensures
        trimmed_end(s).len() > 0 ==> !white_space(trimmed_end(s).last()) && trimmed_end(s)[0] == s[0],
    decreases s.len(),
{
    if s.len() > 0 && white_space(s.last()) {
        lemma_trimmed_end(s.drop_last());
    }
}

/// The number that digits stand for.
pub open spec fn number_of(digits: Seq<char>) -> int
    decreases digits.len(),
{
    if digits.len() == 0 {
        0
    } else {
        10 * number_of(digits.drop_last()) + (digits.last() as int - '0' as int)
    }
}

/// The digits of a number stand for it; there is one at least, and no needless zero in front.
pub proof fn law_digits_read_back(n: nat)
    ensures
        number_of(decimal(n)) == n,
        decimal(n).len() > 0,
        forall|i: int| 0 <= i < decimal(n).len() ==> '0' <= #[trigger] decimal(n)[i] <= '9',
        decimal(n)[0] == '0' ==> decimal(n).len() == 1,
    decreases n,
{
    if n < 10 {
        assert(decimal(n).drop_last() =~= Seq::<char>::empty());
        assert(number_of(decimal(n).drop_last()) == 0);
    } else {
        law_digits_read_back(n / 10);
        assert(decimal(n).drop_last() =~= decimal(n / 10));
        if decimal(n)[0] == '0' {
            assert(decimal(n / 10)[0] == '0');
            assert(decimal(n / 10).drop_last() =~= Seq::<char>::empty());
            assert(number_of(decimal(n / 10).drop_last()) == 0);
        }
    }
}

/// Whether `s` is white space but for what stands from `from` to `to`.
pub open spec fn blank_around(s: Seq<char>, from: int, to: int) -> bool {
    &&& 0 <= from <= to <= s.len()
    &&& forall|i: int|
        0 <= i < s.len() && (i < from || to <= i) ==> white_space(#[trigger] s[i])
}

/// Trimming takes white space from the ends of a text, and nothing else.
pub proof fn law_trimmed_is_the_middle(s: Seq<char>)
    ensures
        exists|from: int, to: int| #[trigger]
            blank_around(s, from, to) && trimmed(s) == s.subrange(from, to),
{
    let from = lemma_start_cut(s);
    let inner = trimmed_start(s);
    let kept = lemma_end_cut(inner);
    assert(trimmed(s) =~= s.subrange(from, from + kept));
    assert forall|i: int| 0 <= i < s.len() && (i < from || from + kept <= i) implies white_space(
        #[trigger] s[i],
    ) by {
        if i >= from {
            assert(inner[i - from] == s[i]);
        }
    }
    assert(blank_around(s, from, from + kept));
}

proof fn lemma_start_cut(s: Seq<char>) -> (from: int)
    ensures
        0 <= from <= s.len(),
        trimmed_start(s) == s.skip(from),
        forall|i: int| 0 <= i < from ==> white_space(#[trigger] s[i]),
    decreases s.len(),
{
    if s.len() > 0 && white_space(s[0]) {
        let from = lemma_start_cut(s.drop_first());
        assert(s.drop_first().skip(from) =~= s.skip(from + 1));
        assert forall|i: int| 0 <= i < from + 1 implies white_space(#[trigger] s[i]) by {
            if i > 0 {
                assert(s.drop_first()[i - 1] == s[i]);
            }
        }
        from + 1
    } else {
        assert(s.skip(0) =~= s);
        0
    }
}

proof fn lemma_end_cut(s: Seq<char>) -> (to: int)
    ensures
        0 <= to <= s.len(),
        trimmed_end(s) == s.take(to),
        forall|i: int| to <= i < s.len() ==> white_space(#[trigger] s[i]),
    decreases s.len(),
{
    if s.len() > 0 && white_space(s.last()) {
        let to = lemma_end_cut(s.drop_last());
        assert(s.drop_last().take(to) =~= s.take(to));
        assert forall|i: int| to <= i < s.len() implies white_space(#[trigger] s[i]) by {
            if i < s.len() - 1 {
                assert(s.drop_last()[i] == s[i]);
            }
        }
        to
    } else {
        assert(s.take(s.len() as int) =~= s);
        s.len() as int
    }
}

proof fn lemma_first_line(line: Seq<char>, text: Seq<char>)
    requires
        !line.contains('\n'),
        line.len() < text.len(),
        text.take(line.len() as int) == line,
        text[line.len() as int] == '\n',
    ensures
        split_lines(text) == seq![without_return(line)] + split_lines(
            text.skip(line.len() as int + 1),
        ),
{
    text.index_of_first_ensures('\n');
    let first = text.index_of_first('\n')->0;
    assert(text.contains('\n'));
    assert(first == line.len()) by {
        if first < line.len() {
            assert(line[first] == '\n');
        }
    }
}

/// A text is read line by line: a line feed ends a line, and so does a carriage return with a line
/// feed behind it; neither is part of the line. What has no line feed behind it is the last line,
/// unless it is empty.
pub proof fn law_lines(line: Seq<char>, rest: Seq<char>)
    requires
        !line.contains('\n'),
    ensures
        split_lines(Seq::empty()) == Seq::<Seq<char>>::empty(),
        line.len() > 0 ==> split_lines(line) == seq![line],
        line.len() == 0 || line.last() != '\r' ==> split_lines(line + seq!['\n'] + rest) == seq![
            line,
        ] + split_lines(rest),
        split_lines(line + seq!['\r', '\n'] + rest) == seq![line] + split_lines(rest),
{
    let plain = line + seq!['\n'] + rest;
    assert(plain.take(line.len() as int) =~= line);
    assert(plain.skip(line.len() as int + 1) =~= rest);
    lemma_first_line(line, plain);
    let returned = line + seq!['\r', '\n'] + rest;
    let full = line.push('\r');
    assert(!full.contains('\n')) by {
        if full.contains('\n') {
            let k = choose|k: int| 0 <= k < full.len() && full[k] == '\n';
            assert(line[k] == '\n');
        }
    }
    assert(returned.take(full.len() as int) =~= full);
    assert(returned.skip(full.len() as int + 1) =~= rest);
    lemma_first_line(full, returned);
    assert(without_return(full) =~= line);
}

/// Blanks, tabs and line ends are white space; what ASCII prints is not.
pub proof fn law_white_space(c: char)
    ensures
        c == ' ' || c == '\t' || c == '\n' || c == '\r' ==> white_space(c),
        '!' <= c <= '~' ==> !white_space(c),
{
}

/// In lower case a text has as many characters; the capital letters of ASCII stand for the small
/// ones, and all else stands for itself.
pub proof fn law_ascii_lowercase(text: Seq<char>, i: int)
    ensures
        ascii_lowercase(text).len() == text.len(),
        0 <= i < text.len() && 'A' <= text[i] <= 'Z' ==> 'a' <= ascii_lowercase(text)[i] <= 'z'
            && ascii_lowercase(text)[i] as int - 'a' as int == text[i] as int - 'A' as int,
        0 <= i < text.len() && !('A' <= text[i] <= 'Z') ==> ascii_lowercase(text)[i] == text[i],
{
}

} // verus!

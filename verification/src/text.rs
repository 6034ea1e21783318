//! Text primitives: the models are sequences of characters, the executable
//! functions work on `str` and `String`.

use vstd::prelude::*;
use vstd::utf8::{decode_utf8, valid_utf8};

verus! {

/// `String::push` appends one character.
pub assume_specification[ String::push ](text: &mut String, c: char)
    ensures
        final(text)@ == old(text)@.push(c),
;

/// The views of a sequence of strings.
pub open spec fn views(parts: Seq<String>) -> Seq<Seq<char>> {
    parts.map_values(|part: String| part@)
}

/// The view of an optional string.
pub open spec fn opt_view(text: Option<String>) -> Option<Seq<char>> {
    match text {
        Some(text) => Some(text@),
        None => None,
    }
}

/// A copy of an optional string.
pub fn copy_text(text: &Option<String>) -> (copied: Option<String>)
    ensures
        copied == *text,
{
    match text {
        Some(text) => Some(text.clone()),
        None => None,
    }
}

/// Pushing a string pushes its view.
pub proof fn lemma_views_push(parts: Seq<String>, part: String)
    ensures
        views(parts.push(part)) == views(parts).push(part@),
{
    assert(views(parts.push(part)) =~= views(parts).push(part@));
}

/// The characters of a string slice.
pub fn chars_of(text: &str) -> (chars: Vec<char>)
    ensures
        chars@ == text@,
{
    let mut chars: Vec<char> = Vec::new();
    for c in it: text.chars()
        invariant
            it.seq() == text@,
            chars@ == text@.take(it.index() as int),
    {
        chars.push(c);
        assert(text@.take(it.index() + 1) =~= text@.take(it.index() as int).push(c));
    }
    assert(text@.take(text@.len() as int) =~= text@);
    chars
}

/// The characters from `from` up to but not including `to`.
pub fn string_between(chars: &Vec<char>, from: usize, to: usize) -> (text: String)
    requires
        from <= to <= chars@.len(),
    ensures
        text@ == chars@.subrange(from as int, to as int),
{
    let mut text = String::new();
    let mut i: usize = from;
    while i < to
        invariant
            from <= i <= to <= chars@.len(),
            text@ == chars@.subrange(from as int, i as int),
        decreases to - i,
    {
        text.push(chars[i]);
        assert(chars@.subrange(from as int, i + 1) =~= chars@.subrange(from as int, i as int).push(
            chars@[i as int],
        ));
        i = i + 1;
    }
    text
}

/// Whether two strings hold the same characters.
pub fn same(left: &str, right: &str) -> (equal: bool)
    ensures
        equal == (left@ == right@),
{
    left.to_owned() == right.to_owned()
}

/// Whether a string holds no characters.
pub fn no_text(text: &str) -> (empty: bool)
    ensures
        empty == (text@.len() == 0),
{
    text.is_empty()
}

/// The concatenation of two strings.
pub fn concat2(first: &str, second: &str) -> (text: String)
    ensures
        text@ == first@ + second@,
{
    let mut text = first.to_owned();
    text.append(second);
    text
}

/// The concatenation of three strings.
pub fn concat3(first: &str, second: &str, third: &str) -> (text: String)
    ensures
        text@ == first@ + second@ + third@,
{
    let mut text = first.to_owned();
    text.append(second);
    text.append(third);
    text
}

/// The concatenation of four strings.
pub fn concat4(first: &str, second: &str, third: &str, fourth: &str) -> (text: String)
    ensures
        text@ == first@ + second@ + third@ + fourth@,
{
    let mut text = first.to_owned();
    text.append(second);
    text.append(third);
    text.append(fourth);
    text
}

/// The concatenation of five strings.
pub fn concat5(first: &str, second: &str, third: &str, fourth: &str, fifth: &str) -> (text: String)
    ensures
        text@ == first@ + second@ + third@ + fourth@ + fifth@,
{
    let mut text = first.to_owned();
    text.append(second);
    text.append(third);
    text.append(fourth);
    text.append(fifth);
    text
}

// ---------------------------------------------------------------------------
// White space
// ---------------------------------------------------------------------------

/// The characters with the Unicode property `White_Space`.
pub open spec fn is_space(c: char) -> bool {
    let code = c as u32;
    ||| 0x9 <= code <= 0xD
    ||| code == 0x20
    ||| code == 0x85
    ||| code == 0xA0
    ||| code == 0x1680
    ||| 0x2000 <= code <= 0x200A
    ||| code == 0x2028
    ||| code == 0x2029
    ||| code == 0x202F
    ||| code == 0x205F
    ||| code == 0x3000
}

/// Executable form of [`is_space`].
pub fn space_char(c: char) -> (space: bool)
    ensures
        space == is_space(c),
{
    let code: u32 = c as u32;
    (0x9 <= code && code <= 0xD) || code == 0x20 || code == 0x85 || code == 0xA0 || code == 0x1680
        || (0x2000 <= code && code <= 0x200A) || code == 0x2028 || code == 0x2029 || code == 0x202F
        || code == 0x205F || code == 0x3000
}

/// `s` without its leading white space.
pub open spec fn trimmed_start(s: Seq<char>) -> Seq<char>
    decreases s.len(),
{
    if s.len() > 0 && is_space(s[0]) {
        trimmed_start(s.skip(1))
    } else {
        s
    }
}

/// `s` without its trailing white space.
pub open spec fn trimmed_end(s: Seq<char>) -> Seq<char>
    decreases s.len(),
{
    if s.len() > 0 && is_space(s.last()) {
        trimmed_end(s.drop_last())
    } else {
        s
    }
}

/// `s` without its leading and trailing white space.
pub open spec fn trimmed(s: Seq<char>) -> Seq<char> {
    trimmed_end(trimmed_start(s))
}

proof fn lemma_trimmed_start(s: Seq<char>, from: int)
    requires
        0 <= from <= s.len(),
        forall|k: int| 0 <= k < from ==> is_space(#[trigger] s[k]),
        from < s.len() ==> !is_space(s[from]),
    ensures
        trimmed_start(s) == s.skip(from),
    decreases from,
{
    if from == 0 {
        assert(s.skip(0) =~= s);
    } else {
        let rest = s.skip(1);
        assert forall|k: int| 0 <= k < from - 1 implies is_space(#[trigger] rest[k]) by {
            assert(rest[k] == s[k + 1]);
        }
        lemma_trimmed_start(rest, from - 1);
        assert(rest.skip(from - 1) =~= s.skip(from));
    }
}

proof fn lemma_trimmed_end(s: Seq<char>, to: int)
    requires
        0 <= to <= s.len(),
        forall|k: int| to <= k < s.len() ==> is_space(#[trigger] s[k]),
        to > 0 ==> !is_space(s[to - 1]),
    ensures
        trimmed_end(s) == s.take(to),
    decreases s.len() - to,
{
    if to == s.len() {
        assert(s.take(to) =~= s);
    } else {
        let rest = s.drop_last();
        assert forall|k: int| to <= k < rest.len() implies is_space(#[trigger] rest[k]) by {
            assert(rest[k] == s[k]);
        }
        lemma_trimmed_end(rest, to);
        assert(rest.take(to) =~= s.take(to));
    }
}

/// The string without leading and trailing white space.
pub fn trim(text: &str) -> (result: String)
    ensures
        result@ == trimmed(text@),
{
    let chars = chars_of(text);
    let mut from: usize = 0;
    while from < chars.len() && space_char(chars[from])
        invariant
            from <= chars@.len(),
            forall|k: int| 0 <= k < from ==> is_space(#[trigger] chars@[k]),
        decreases chars@.len() - from,
    {
        from = from + 1;
    }
    proof {
        lemma_trimmed_start(chars@, from as int);
    }
    let mut to: usize = chars.len();
    while to > from && space_char(chars[to - 1])
        invariant
            from <= to <= chars@.len(),
            forall|k: int| to <= k < chars@.len() ==> is_space(#[trigger] chars@[k]),
        decreases to,
    {
        to = to - 1;
    }
    proof {
        let rest = chars@.skip(from as int);
        assert forall|k: int| to - from <= k < rest.len() implies is_space(#[trigger] rest[k]) by {
            assert(rest[k] == chars@[k + from]);
        }
        lemma_trimmed_end(rest, to - from);
        assert(rest.take(to - from) =~= chars@.subrange(from as int, to as int));
    }
    string_between(&chars, from, to)
}

/// The string without leading white space.
pub fn trim_start(text: &str) -> (result: String)
    ensures
        result@ == trimmed_start(text@),
{
    let chars = chars_of(text);
    let mut from: usize = 0;
    while from < chars.len() && space_char(chars[from])
        invariant
            from <= chars@.len(),
            forall|k: int| 0 <= k < from ==> is_space(#[trigger] chars@[k]),
        decreases chars@.len() - from,
    {
        from = from + 1;
    }
    proof {
        lemma_trimmed_start(chars@, from as int);
        assert(chars@.skip(from as int) =~= chars@.subrange(from as int, chars@.len() as int));
    }
    string_between(&chars, from, chars.len())
}

/// The string without trailing white space.
pub fn trim_end(text: &str) -> (result: String)
    ensures
        result@ == trimmed_end(text@),
{
    let chars = chars_of(text);
    let mut to: usize = chars.len();
    while to > 0 && space_char(chars[to - 1])
        invariant
            to <= chars@.len(),
            forall|k: int| to <= k < chars@.len() ==> is_space(#[trigger] chars@[k]),
        decreases to,
    {
        to = to - 1;
    }
    proof {
        lemma_trimmed_end(chars@, to as int);
        assert(chars@.take(to as int) =~= chars@.subrange(0, to as int));
    }
    string_between(&chars, 0, to)
}

/// Whether a string is empty or only white space.
pub fn is_blank(text: &str) -> (blank: bool)
    ensures
        blank == (trimmed(text@).len() == 0),
{
    let trimmed_text = trim(text);
    no_text(&trimmed_text)
}

// ---------------------------------------------------------------------------
// Splitting and joining
// ---------------------------------------------------------------------------

/// The pieces of `s` between the occurrences of `separator`; one more than
/// there are occurrences.
pub open spec fn split_at_char(s: Seq<char>, separator: char) -> Seq<Seq<char>>
    decreases s.len(),
{
    if s.len() == 0 {
        seq![Seq::empty()]
    } else {
        let before = split_at_char(s.drop_last(), separator);
        if s.last() == separator {
            before.push(Seq::empty())
        } else {
            before.drop_last().push(before.last().push(s.last()))
        }
    }
}

/// The parts with `separator` between each two.
pub open spec fn joined(parts: Seq<Seq<char>>, separator: Seq<char>) -> Seq<char>
    decreases parts.len(),
{
    if parts.len() == 0 {
        Seq::empty()
    } else if parts.len() == 1 {
        parts[0]
    } else {
        joined(parts.drop_last(), separator) + separator + parts.last()
    }
}

/// Splitting gives at least one piece.
pub proof fn lemma_split_nonempty(s: Seq<char>, separator: char)
    ensures
        split_at_char(s, separator).len() >= 1,
    decreases s.len(),
{
    if s.len() > 0 {
        lemma_split_nonempty(s.drop_last(), separator);
    }
}

/// A text without the separator is one piece.
pub proof fn lemma_split_one_piece(s: Seq<char>, separator: char)
    requires
        !s.contains(separator),
    ensures
        split_at_char(s, separator) == seq![s],
    decreases s.len(),
{
    if s.len() > 0 {
        assert(s[s.len() - 1] != separator) by {
            assert(s.contains(s[s.len() - 1]));
        }
        assert forall|c: char| s.drop_last().contains(c) implies s.contains(c) by {
            let k = choose|k: int| 0 <= k < s.drop_last().len() && s.drop_last()[k] == c;
            assert(s[k] == c);
        }
        lemma_split_one_piece(s.drop_last(), separator);
        assert(s.drop_last().push(s.last()) =~= s);
        assert(split_at_char(s, separator) =~= seq![s]);
    } else {
        assert(s =~= Seq::empty());
    }
}

/// What follows a separator, and holds none, is one more piece.
pub proof fn lemma_split_one_more(s: Seq<char>, separator: char, piece: Seq<char>)
    requires
        !piece.contains(separator),
    ensures
        split_at_char(s.push(separator) + piece, separator) == split_at_char(s, separator).push(
            piece,
        ),
    decreases piece.len(),
{
    let whole = s.push(separator) + piece;
    if piece.len() == 0 {
        assert(whole =~= s.push(separator));
        assert(whole.drop_last() =~= s);
        assert(piece =~= Seq::empty());
    } else {
        let shorter = piece.drop_last();
        assert(piece.contains(piece[piece.len() - 1]));
        assert forall|c: char| shorter.contains(c) implies piece.contains(c) by {
            let k = choose|k: int| 0 <= k < shorter.len() && shorter[k] == c;
            assert(piece[k] == c);
        }
        lemma_split_one_more(s, separator, shorter);
        assert(whole.drop_last() =~= s.push(separator) + shorter);
        assert(shorter.push(piece.last()) =~= piece);
        let before = split_at_char(s, separator).push(shorter);
        assert(before.drop_last() =~= split_at_char(s, separator));
    }
}

/// Joining what a split gave with the same separator gives the text back, and
/// no piece holds the separator.
pub proof fn law_split_then_join(s: Seq<char>, separator: char)
    ensures
        joined(split_at_char(s, separator), seq![separator]) == s,
        forall|i: int|
            0 <= i < split_at_char(s, separator).len() ==> !(
            #[trigger] split_at_char(s, separator)[i]).contains(separator),
    decreases s.len(),
{
    let parts = split_at_char(s, separator);
    let sep = seq![separator];
    if s.len() == 0 {
        assert(joined(parts, sep) =~= s);
    } else {
        let before = split_at_char(s.drop_last(), separator);
        lemma_split_nonempty(s.drop_last(), separator);
        law_split_then_join(s.drop_last(), separator);
        if s.last() == separator {
            assert(parts.drop_last() =~= before);
            assert(joined(parts, sep) =~= s.drop_last() + sep);
            assert(s.drop_last() + sep =~= s);
        } else {
            let last = before.last().push(s.last());
            assert(parts.drop_last() =~= before.drop_last());
            if before.len() == 1 {
                assert(joined(parts, sep) == last);
            } else {
                assert(joined(parts, sep) == joined(before.drop_last(), sep) + sep + last);
                assert(joined(before, sep) == joined(before.drop_last(), sep) + sep + before.last());
            }
            assert(joined(parts, sep) =~= s.drop_last().push(s.last()));
            assert(s.drop_last().push(s.last()) =~= s);
            assert(!last.contains(separator)) by {
                assert(!before[before.len() - 1].contains(separator));
                if last.contains(separator) {
                    let k = choose|k: int| 0 <= k < last.len() && last[k] == separator;
                    if k < before.last().len() {
                        assert(before.last()[k] == separator);
                    }
                }
            }
            assert forall|i: int| 0 <= i < parts.len() implies !(#[trigger] parts[i]).contains(
                separator,
            ) by {
                if i < before.len() - 1 {
                    assert(parts[i] == before[i]);
                }
            }
        }
    }
}

/// The pieces of a string between the occurrences of a character.
pub fn split(text: &str, separator: char) -> (parts: Vec<String>)
    ensures
        views(parts@) == split_at_char(text@, separator),
        parts@.len() >= 1,
{
    let mut parts: Vec<String> = Vec::new();
    let mut current = String::new();
    for c in it: text.chars()
        invariant
            it.seq() == text@,
            views(parts@).push(current@) == split_at_char(
                text@.take(it.index() as int),
                separator,
            ),
    {
        let ghost seen = text@.take(it.index() + 1);
        proof {
            assert(seen.drop_last() =~= text@.take(it.index() as int));
            assert(seen.last() == c);
            assert(views(parts@).push(current@).drop_last() =~= views(parts@));
        }
        if c == separator {
            proof {
                lemma_views_push(parts@, current);
            }
            parts.push(current);
            current = String::new();
        } else {
            current.push(c);
        }
    }
    assert(text@.take(text@.len() as int) =~= text@);
    proof {
        lemma_views_push(parts@, current);
    }
    parts.push(current);
    parts
}

/// The unterminated tail is empty exactly where the text is empty or ends in a
/// line feed.
pub proof fn lemma_unterminated_tail(s: Seq<char>)
    ensures
        unterminated_tail(s).len() == 0 <==> (s.len() == 0 || s.last() == '\n'),
{
    if s.len() > 0 {
        lemma_split_nonempty(s.drop_last(), '\n');
    }
}

/// The terminated lines of a text stay the first lines when text is appended.
pub proof fn lemma_terminated_lines_prefix(s: Seq<char>, more: Seq<char>)
    ensures
        terminated_lines(s).is_prefix_of(terminated_lines(s + more)),
    decreases more.len(),
{
    if more.len() == 0 {
        assert(s + more =~= s);
    } else {
        let shorter = more.drop_last();
        lemma_terminated_lines_prefix(s, shorter);
        let all = s + more;
        assert(all.drop_last() =~= s + shorter);
        lemma_split_nonempty(s + shorter, '\n');
        lemma_split_nonempty(s, '\n');
        let before = split_at_char(s + shorter, '\n');
        let after = split_at_char(all, '\n');
        assert forall|i: int| 0 <= i < before.len() - 1 implies after[i] == before[i] by {}
        assert forall|i: int|
            0 <= i < terminated_lines(s).len() implies #[trigger] terminated_lines(s)[i]
            == terminated_lines(all)[i] by {
            assert(terminated_lines(s)[i] == terminated_lines(s + shorter)[i]);
        }
        assert(terminated_lines(s) =~= terminated_lines(all).subrange(
            0,
            terminated_lines(s).len() as int,
        ));
    }
}

/// A line without the carriage return before its line feed.
pub open spec fn without_cr(line: Seq<char>) -> Seq<char> {
    if line.len() > 0 && line.last() == '\r' {
        line.drop_last()
    } else {
        line
    }
}

/// The lines that end in a line feed, without their line ends.
pub open spec fn terminated_lines(s: Seq<char>) -> Seq<Seq<char>> {
    split_at_char(s, '\n').drop_last().map_values(|line: Seq<char>| without_cr(line))
}

/// What follows the last line feed.
pub open spec fn unterminated_tail(s: Seq<char>) -> Seq<char> {
    split_at_char(s, '\n').last()
}

/// The lines of a text: those that end in a line feed, and then what follows
/// the last line feed if there is anything.
pub open spec fn lines_of(s: Seq<char>) -> Seq<Seq<char>> {
    if unterminated_tail(s).len() == 0 {
        terminated_lines(s)
    } else {
        terminated_lines(s).push(unterminated_tail(s))
    }
}

/// The lines of a text that end in a line feed.
pub fn lines_with_end(text: &str) -> (result: (Vec<String>, String))
    ensures
        views(result.0@) == terminated_lines(text@),
        result.1@ == unterminated_tail(text@),
{
    let mut parts = split(text, '\n');
    let ghost pieces = split_at_char(text@, '\n');
    assert(views(parts@).len() == parts@.len());
    let tail = match parts.pop() {
        Some(tail) => tail,
        None => String::new(),
    };
    assert(views(parts@) =~= pieces.drop_last());
    assert(tail@ == pieces.last());
    let mut lines: Vec<String> = Vec::new();
    let mut i: usize = 0;
    while i < parts.len()
        invariant
            i <= parts@.len(),
            lines@.len() == i,
            forall|k: int| 0 <= k < i ==> (#[trigger] lines@[k])@ == without_cr(parts@[k]@),
        decreases parts@.len() - i,
    {
        let chars = chars_of(&parts[i]);
        let n: usize = chars.len();
        let line = if n > 0 && chars[n - 1] == '\r' {
            assert(chars@.subrange(0, n - 1) =~= chars@.drop_last());
            string_between(&chars, 0, n - 1)
        } else {
            parts[i].clone()
        };
        lines.push(line);
        i = i + 1;
    }
    proof {
        assert forall|k: int| 0 <= k < parts@.len() implies views(lines@)[k] == terminated_lines(
            text@,
        )[k] by {
            assert(views(parts@)[k] == parts@[k]@);
        }
        assert(views(lines@) =~= terminated_lines(text@));
    }
    (lines, tail)
}

/// The lines of a text.
pub fn lines(text: &str) -> (result: Vec<String>)
    ensures
        views(result@) == lines_of(text@),
{
    let (mut result, tail) = lines_with_end(text);
    if !no_text(&tail) {
        proof {
            lemma_views_push(result@, tail);
        }
        result.push(tail);
    }
    result
}

/// The lines that hold more than white space.
pub open spec fn nonblank_lines(lines: Seq<Seq<char>>) -> Seq<Seq<char>>
    decreases lines.len(),
{
    if lines.len() == 0 {
        lines
    } else {
        let before = nonblank_lines(lines.drop_last());
        if trimmed(lines.last()).len() == 0 {
            before
        } else {
            before.push(lines.last())
        }
    }
}

/// The non-blank lines of a prefix are a prefix of the non-blank lines.
pub proof fn lemma_nonblank_prefix(first: Seq<Seq<char>>, lines: Seq<Seq<char>>)
    requires
        first.is_prefix_of(lines),
    ensures
        nonblank_lines(first).is_prefix_of(nonblank_lines(lines)),
    decreases lines.len(),
{
    if first.len() == lines.len() {
        assert(first =~= lines);
    } else {
        assert(first =~= lines.drop_last().subrange(0, first.len() as int));
        lemma_nonblank_prefix(first, lines.drop_last());
        let before = nonblank_lines(lines.drop_last());
        let kept = nonblank_lines(first);
        assert(kept =~= nonblank_lines(lines).subrange(0, kept.len() as int));
    }
}

/// Keeps the lines that hold more than white space.
pub fn keep_nonblank(lines: Vec<String>) -> (kept: Vec<String>)
    ensures
        views(kept@) == nonblank_lines(views(lines@)),
{
    let mut kept: Vec<String> = Vec::new();
    let mut i: usize = 0;
    assert(views(kept@) =~= Seq::empty());
    while i < lines.len()
        invariant
            i <= lines@.len(),
            views(kept@) == nonblank_lines(views(lines@).take(i as int)),
        decreases lines@.len() - i,
    {
        proof {
            let seen = views(lines@).take(i + 1);
            assert(seen.drop_last() =~= views(lines@).take(i as int));
            assert(seen.last() == lines@[i as int]@);
        }
        if !is_blank(&lines[i]) {
            let line = lines[i].clone();
            proof {
                lemma_views_push(kept@, line);
            }
            kept.push(line);
        }
        i = i + 1;
    }
    assert(views(lines@).take(lines@.len() as int) =~= views(lines@));
    kept
}

/// The parts with a separator between each two.
pub fn join(parts: &Vec<String>, separator: &str) -> (text: String)
    ensures
        text@ == joined(views(parts@), separator@),
{
    let mut text = String::new();
    let mut i: usize = 0;
    while i < parts.len()
        invariant
            i <= parts@.len(),
            text@ == joined(views(parts@).take(i as int), separator@),
        decreases parts@.len() - i,
    {
        if i > 0 {
            text.append(separator);
        }
        text.append(&parts[i]);
        proof {
            let seen = views(parts@).take(i + 1);
            assert(seen.drop_last() =~= views(parts@).take(i as int));
            assert(seen.last() == parts@[i as int]@);
            if i == 0 {
                assert(text@ =~= parts@[0]@);
            }
        }
        i = i + 1;
    }
    assert(views(parts@).take(parts@.len() as int) =~= views(parts@));
    text
}

// ---------------------------------------------------------------------------
// Searching
// ---------------------------------------------------------------------------

/// Whether `part` stands in `s` from `at` on.
pub open spec fn stands_at(s: Seq<char>, part: Seq<char>, at: int) -> bool {
    0 <= at && at + part.len() <= s.len() && s.subrange(at, at + part.len()) == part
}

/// Whether `s` begins with `prefix`.
pub open spec fn begins_with(s: Seq<char>, prefix: Seq<char>) -> bool {
    stands_at(s, prefix, 0)
}

/// Whether `s` ends with `suffix`.
pub open spec fn finishes_with(s: Seq<char>, suffix: Seq<char>) -> bool {
    stands_at(s, suffix, s.len() - suffix.len())
}

/// Whether `part` stands anywhere in `s`.
pub open spec fn holds_text(s: Seq<char>, part: Seq<char>) -> bool {
    exists|at: int| stands_at(s, part, at)
}

/// Executable form of [`stands_at`].
pub fn chars_stand_at(chars: &Vec<char>, part: &Vec<char>, at: usize) -> (found: bool)
    ensures
        found == stands_at(chars@, part@, at as int),
{
    let len: usize = chars.len();
    if at > len || part.len() > len - at {
        return false;
    }
    let mut i: usize = 0;
    while i < part.len()
        invariant
            i <= part@.len(),
            len == chars@.len(),
            at + part@.len() <= len,
            forall|k: int| 0 <= k < i ==> chars@[at + k] == part@[k],
        decreases part@.len() - i,
    {
        if chars[at + i] != part[i] {
            assert(chars@.subrange(at as int, at + part@.len())[i as int] != part@[i as int]);
            return false;
        }
        i = i + 1;
    }
    assert(chars@.subrange(at as int, at + part@.len()) =~= part@);
    true
}

/// Whether a string begins with another.
pub fn starts_with(text: &str, prefix: &str) -> (found: bool)
    ensures
        found == begins_with(text@, prefix@),
{
    let chars = chars_of(text);
    let part = chars_of(prefix);
    chars_stand_at(&chars, &part, 0)
}

/// Whether a string ends with another.
pub fn ends_with(text: &str, suffix: &str) -> (found: bool)
    ensures
        found == finishes_with(text@, suffix@),
{
    let chars = chars_of(text);
    let part = chars_of(suffix);
    if part.len() > chars.len() {
        return false;
    }
    chars_stand_at(&chars, &part, chars.len() - part.len())
}

/// Whether a string stands anywhere in another.
pub fn contains(text: &str, part: &str) -> (found: bool)
    ensures
        found == holds_text(text@, part@),
{
    let chars = chars_of(text);
    let wanted = chars_of(part);
    if wanted.len() > chars.len() {
        return false;
    }
    let last: usize = chars.len() - wanted.len();
    let mut at: usize = 0;
    while at <= last
        invariant
            chars@ == text@,
            wanted@ == part@,
            last == chars@.len() - wanted@.len(),
            at <= last + 1,
            forall|k: int| 0 <= k < at ==> !stands_at(text@, part@, k),
        decreases last + 1 - at,
    {
        if chars_stand_at(&chars, &wanted, at) {
            return true;
        }
        if at == last {
            return false;
        }
        at = at + 1;
    }
    false
}

/// The first position of either of two characters.
pub open spec fn first_of(s: Seq<char>, a: char, b: char) -> Option<int>
    decreases s.len(),
{
    if s.len() == 0 {
        None
    } else {
        match first_of(s.drop_last(), a, b) {
            Some(i) => Some(i),
            None => if s.last() == a || s.last() == b {
                Some(s.len() - 1)
            } else {
                None
            },
        }
    }
}

/// The last position of a character.
pub open spec fn last_of(s: Seq<char>, c: char) -> Option<int>
    decreases s.len(),
{
    if s.len() == 0 {
        None
    } else if s.last() == c {
        Some(s.len() - 1)
    } else {
        last_of(s.drop_last(), c)
    }
}

/// What stands before and after the first of either of two characters.
pub open spec fn cut_at_first(s: Seq<char>, a: char, b: char) -> Option<(Seq<char>, Seq<char>)> {
    match first_of(s, a, b) {
        Some(i) => Some((s.take(i), s.skip(i + 1))),
        None => None,
    }
}

/// What stands before and after the last of a character.
pub open spec fn cut_at_last(s: Seq<char>, c: char) -> Option<(Seq<char>, Seq<char>)> {
    match last_of(s, c) {
        Some(i) => Some((s.take(i), s.skip(i + 1))),
        None => None,
    }
}

/// The model of an optional pair of strings.
pub open spec fn opt_pair(pair: Option<(String, String)>) -> Option<(Seq<char>, Seq<char>)> {
    match pair {
        Some((left, right)) => Some((left@, right@)),
        None => None,
    }
}

/// What stands before and after the first of either of two characters.
pub fn split_once_either(text: &str, a: char, b: char) -> (parts: Option<(String, String)>)
    ensures
        opt_pair(parts) == cut_at_first(text@, a, b),
{
    let chars = chars_of(text);
    let mut found: Option<usize> = None;
    let mut i: usize = 0;
    while i < chars.len()
        invariant
            i <= chars@.len(),
            match found {
                Some(k) => first_of(chars@.take(i as int), a, b) == Some(k as int) && k < i,
                None => first_of(chars@.take(i as int), a, b) is None,
            },
        decreases chars@.len() - i,
    {
        proof {
            let seen = chars@.take(i + 1);
            assert(seen.drop_last() =~= chars@.take(i as int));
            assert(seen.last() == chars@[i as int]);
        }
        if found.is_none() && (chars[i] == a || chars[i] == b) {
            found = Some(i);
        }
        i = i + 1;
    }
    assert(chars@.take(chars@.len() as int) =~= chars@);
    match found {
        Some(k) => {
            assert(text@.take(k as int) =~= text@.subrange(0, k as int));
            assert(text@.skip(k + 1) =~= text@.subrange(k + 1, text@.len() as int));
            Some((string_between(&chars, 0, k), string_between(&chars, k + 1, chars.len())))
        },
        None => None,
    }
}

/// What stands before and after the first of a character.
pub fn split_once(text: &str, c: char) -> (parts: Option<(String, String)>)
    ensures
        opt_pair(parts) == cut_at_first(text@, c, c),
{
    split_once_either(text, c, c)
}

/// What stands before and after the last of a character.
pub fn rsplit_once(text: &str, c: char) -> (parts: Option<(String, String)>)
    ensures
        opt_pair(parts) == cut_at_last(text@, c),
{
    let chars = chars_of(text);
    let mut i: usize = chars.len();
    assert(chars@.take(i as int) =~= chars@);
    while i > 0
        invariant
            i <= chars@.len(),
            chars@ == text@,
            last_of(chars@, c) == last_of(chars@.take(i as int), c),
        decreases i,
    {
        i = i - 1;
        proof {
            let seen = chars@.take(i + 1);
            assert(seen.drop_last() =~= chars@.take(i as int));
            assert(seen.last() == chars@[i as int]);
        }
        if chars[i] == c {
            assert(text@.take(i as int) =~= text@.subrange(0, i as int));
            assert(text@.skip(i + 1) =~= text@.subrange(i + 1, text@.len() as int));
            return Some(
                (string_between(&chars, 0, i), string_between(&chars, i + 1, chars.len())),
            );
        }
    }
    None
}

/// The first position from `at` on where `part` stands.
pub open spec fn find_from(s: Seq<char>, part: Seq<char>, at: int) -> Option<int>
    decreases s.len() + 1 - at,
{
    if at > s.len() {
        None
    } else if stands_at(s, part, at) {
        Some(at)
    } else {
        find_from(s, part, at + 1)
    }
}

/// The pieces of `s` from `from` on between the occurrences of `separator`.
pub open spec fn split_from(s: Seq<char>, separator: Seq<char>, from: int) -> Seq<Seq<char>>
    decreases s.len() - from,
    when separator.len() > 0 && 0 <= from <= s.len()
    via lemma_split_from_ends
{
    match find_from(s, separator, from) {
        Some(at) => seq![s.subrange(from, at)] + split_from(s, separator, at + separator.len()),
        None => seq![s.skip(from)],
    }
}

#[via_fn]
proof fn lemma_split_from_ends(s: Seq<char>, separator: Seq<char>, from: int) {
    lemma_find_from(s, separator, from);
}

/// What is found stands where it is said to.
pub proof fn lemma_find_from(s: Seq<char>, part: Seq<char>, at: int)
    ensures
        find_from(s, part, at) matches Some(found) ==> at <= found && stands_at(s, part, found),
    decreases s.len() + 1 - at,
{
    if at <= s.len() && !stands_at(s, part, at) {
        lemma_find_from(s, part, at + 1);
    }
}

/// The pieces of a string between the occurrences of a separator.
pub fn split_text(text: &str, separator: &str) -> (parts: Vec<String>)
    requires
        separator@.len() > 0,
    ensures
        views(parts@) == split_from(text@, separator@, 0),
{
    let chars = chars_of(text);
    let part = chars_of(separator);
    let len: usize = chars.len();
    let mut parts: Vec<String> = Vec::new();
    let mut from: usize = 0;
    let mut at: usize = 0;
    assert(views(parts@) + split_from(text@, separator@, 0) =~= split_from(text@, separator@, 0));
    while at < len
        invariant
            chars@ == text@,
            part@ == separator@,
            len == text@.len(),
            separator@.len() > 0,
            0 <= from <= at <= len,
            find_from(text@, separator@, from as int) == find_from(text@, separator@, at as int),
            views(parts@) + split_from(text@, separator@, from as int) == split_from(
                text@,
                separator@,
                0,
            ),
        decreases len - at,
    {
        if chars_stand_at(&chars, &part, at) {
            let ghost before = views(parts@);
            let piece = string_between(&chars, from, at);
            proof {
                lemma_views_push(parts@, piece);
                let rest = split_from(text@, separator@, at + separator@.len());
                assert(before + (seq![piece@] + rest) =~= before.push(piece@) + rest);
            }
            parts.push(piece);
            at = at + part.len();
            from = at;
        } else {
            at = at + 1;
        }
    }
    assert(find_from(text@, separator@, from as int) is None) by {
        lemma_nothing_after(text@, separator@, at as int);
    }
    assert(text@.skip(from as int) =~= text@.subrange(from as int, text@.len() as int));
    let ghost before = views(parts@);
    let piece = string_between(&chars, from, len);
    proof {
        lemma_views_push(parts@, piece);
        assert(before + seq![piece@] =~= before.push(piece@));
    }
    parts.push(piece);
    parts
}

proof fn lemma_nothing_after(s: Seq<char>, part: Seq<char>, at: int)
    requires
        part.len() > 0,
        at >= s.len(),
    ensures
        find_from(s, part, at) is None,
{
    if at == s.len() {
        assert(find_from(s, part, at + 1) is None);
    }
}

/// The last place at or before `at` where `part` stands in `s`.
pub open spec fn find_back(s: Seq<char>, part: Seq<char>, at: int) -> Option<int>
    decreases at + 1,
{
    if at < 0 {
        None
    } else if stands_at(s, part, at) {
        Some(at)
    } else {
        find_back(s, part, at - 1)
    }
}

/// What stands before the last `part` in `s`.
pub open spec fn before_last(s: Seq<char>, part: Seq<char>) -> Option<Seq<char>> {
    match find_back(s, part, s.len() as int) {
        Some(at) => Some(s.take(at)),
        None => None,
    }
}

/// What stands before the last `part` in `text`.
pub fn cut_before_last(text: &str, part: &str) -> (before: Option<String>)
    ensures
        opt_view(before) == before_last(text@, part@),
{
    let chars = chars_of(text);
    let wanted = chars_of(part);
    let mut at: usize = chars.len();
    loop
        invariant
            chars@ == text@,
            wanted@ == part@,
            at <= chars@.len(),
            find_back(text@, part@, text@.len() as int) == find_back(text@, part@, at as int),
        decreases at,
    {
        if chars_stand_at(&chars, &wanted, at) {
            assert(text@.take(at as int) =~= chars@.subrange(0, at as int));
            return Some(string_between(&chars, 0, at));
        }
        if at == 0 {
            return None;
        }
        at = at - 1;
    }
}

/// The words read so far, and the characters of the one that has begun.
pub open spec fn word_scan(s: Seq<char>) -> (Seq<Seq<char>>, Seq<char>)
    decreases s.len(),
{
    if s.len() == 0 {
        (Seq::empty(), Seq::empty())
    } else {
        let (words, current) = word_scan(s.drop_last());
        if is_space(s.last()) {
            (
                if current.len() > 0 {
                    words.push(current)
                } else {
                    words
                },
                Seq::empty(),
            )
        } else {
            (words, current.push(s.last()))
        }
    }
}

/// The pieces of `s` between stretches of white space.
pub open spec fn words_of(s: Seq<char>) -> Seq<Seq<char>> {
    let (words, current) = word_scan(s);
    if current.len() > 0 {
        words.push(current)
    } else {
        words
    }
}

/// The pieces of a string between stretches of white space.
pub fn split_whitespace(text: &str) -> (words: Vec<String>)
    ensures
        views(words@) == words_of(text@),
{
    let mut words: Vec<String> = Vec::new();
    let mut current = String::new();
    assert(views(words@) =~= Seq::empty());
    for c in it: text.chars()
        invariant
            it.seq() == text@,
            (views(words@), current@) == word_scan(text@.take(it.index() as int)),
    {
        proof {
            let seen = text@.take(it.index() + 1);
            assert(seen.drop_last() =~= text@.take(it.index() as int));
            assert(seen.last() == c);
        }
        if space_char(c) {
            if !current.as_str().is_empty() {
                proof {
                    lemma_views_push(words@, current);
                }
                words.push(current);
            }
            current = String::new();
        } else {
            current.push(c);
        }
    }
    assert(text@.take(text@.len() as int) =~= text@);
    if !current.as_str().is_empty() {
        proof {
            lemma_views_push(words@, current);
        }
        words.push(current);
    }
    words
}

/// `c` in lower case, where it is an ASCII letter.
pub open spec fn lower_char(c: char) -> char {
    if 'A' as u32 <= c as u32 <= 'Z' as u32 {
        ((c as u32) + 32) as char
    } else {
        c
    }
}

/// `s` with its ASCII letters in lower case.
pub open spec fn lowered(s: Seq<char>) -> Seq<char> {
    s.map_values(|c: char| lower_char(c))
}

/// The string with its ASCII letters in lower case.
pub fn to_ascii_lowercase(text: &str) -> (lower: String)
    ensures
        lower@ == lowered(text@),
{
    let mut lower = String::new();
    for c in it: text.chars()
        invariant
            it.seq() == text@,
            lower@ == lowered(text@.take(it.index() as int)),
    {
        proof {
            let seen = text@.take(it.index() as int);
            assert(text@.take(it.index() + 1) =~= seen.push(c));
            assert(lowered(seen.push(c)) =~= lowered(seen).push(lower_char(c)));
        }
        let code: u32 = c as u32;
        if 65 <= code && code <= 90 {
            let small: u8 = (code + 32) as u8;
            lower.push(small as char);
        } else {
            lower.push(c);
        }
    }
    assert(text@.take(text@.len() as int) =~= text@);
    lower
}

/// `s` without a prefix that it begins with.
pub open spec fn without_prefix(s: Seq<char>, prefix: Seq<char>) -> Option<Seq<char>> {
    if begins_with(s, prefix) {
        Some(s.skip(prefix.len() as int))
    } else {
        None
    }
}

/// `s` without a suffix that it ends with.
pub open spec fn without_suffix(s: Seq<char>, suffix: Seq<char>) -> Option<Seq<char>> {
    if finishes_with(s, suffix) {
        Some(s.take(s.len() - suffix.len()))
    } else {
        None
    }
}

/// `s` without its leading occurrences of a character.
pub open spec fn without_leading(s: Seq<char>, c: char) -> Seq<char>
    decreases s.len(),
{
    if s.len() > 0 && s[0] == c {
        without_leading(s.skip(1), c)
    } else {
        s
    }
}

/// `s` without its trailing occurrences of a character.
pub open spec fn without_trailing(s: Seq<char>, c: char) -> Seq<char>
    decreases s.len(),
{
    if s.len() > 0 && s.last() == c {
        without_trailing(s.drop_last(), c)
    } else {
        s
    }
}

/// `s` without the suffixes that it ends with, one after the other.
pub open spec fn without_suffixes(s: Seq<char>, suffix: Seq<char>) -> Seq<char>
    decreases s.len(),
{
    if suffix.len() > 0 && finishes_with(s, suffix) {
        without_suffixes(s.take(s.len() - suffix.len()), suffix)
    } else {
        s
    }
}

/// The string without the suffixes that it ends with, one after the other.
pub fn trim_end_text(text: &str, suffix: &str) -> (rest: String)
    requires
        suffix@.len() > 0,
    ensures
        rest@ == without_suffixes(text@, suffix@),
{
    let mut rest = text.to_owned();
    loop
        invariant
            suffix@.len() > 0,
            without_suffixes(text@, suffix@) == without_suffixes(rest@, suffix@),
        ensures
            without_suffixes(text@, suffix@) == rest@,
        decreases rest@.len(),
    {
        match strip_suffix(&rest, suffix) {
            Some(shorter) => {
                rest = shorter;
            },
            None => {
                break;
            },
        }
    }
    rest
}

/// The string without a prefix, where it begins with it.
pub fn strip_prefix(text: &str, prefix: &str) -> (rest: Option<String>)
    ensures
        opt_view(rest) == without_prefix(text@, prefix@),
{
    let chars = chars_of(text);
    let part = chars_of(prefix);
    if chars_stand_at(&chars, &part, 0) {
        assert(text@.subrange(prefix@.len() as int, text@.len() as int) =~= text@.skip(
            prefix@.len() as int,
        ));
        Some(string_between(&chars, part.len(), chars.len()))
    } else {
        None
    }
}

/// The string without a suffix, where it ends with it.
pub fn strip_suffix(text: &str, suffix: &str) -> (rest: Option<String>)
    ensures
        opt_view(rest) == without_suffix(text@, suffix@),
{
    let chars = chars_of(text);
    let part = chars_of(suffix);
    if part.len() > chars.len() {
        return None;
    }
    let end: usize = chars.len() - part.len();
    if chars_stand_at(&chars, &part, end) {
        assert(text@.subrange(0, end as int) =~= text@.take(end as int));
        Some(string_between(&chars, 0, end))
    } else {
        None
    }
}

proof fn lemma_without_leading(s: Seq<char>, c: char, from: int)
    requires
        0 <= from <= s.len(),
        forall|k: int| 0 <= k < from ==> #[trigger] s[k] == c,
        from < s.len() ==> s[from] != c,
    ensures
        without_leading(s, c) == s.skip(from),
    decreases from,
{
    if from == 0 {
        assert(s.skip(0) =~= s);
    } else {
        let rest = s.skip(1);
        assert forall|k: int| 0 <= k < from - 1 implies #[trigger] rest[k] == c by {
            assert(rest[k] == s[k + 1]);
        }
        lemma_without_leading(rest, c, from - 1);
        assert(rest.skip(from - 1) =~= s.skip(from));
    }
}

/// The string without its leading occurrences of a character.
pub fn trim_start_matches(text: &str, c: char) -> (rest: String)
    ensures
        rest@ == without_leading(text@, c),
{
    let chars = chars_of(text);
    let mut from: usize = 0;
    while from < chars.len() && chars[from] == c
        invariant
            from <= chars@.len(),
            forall|k: int| 0 <= k < from ==> #[trigger] chars@[k] == c,
        decreases chars@.len() - from,
    {
        from = from + 1;
    }
    proof {
        lemma_without_leading(chars@, c, from as int);
        assert(chars@.skip(from as int) =~= chars@.subrange(from as int, chars@.len() as int));
    }
    string_between(&chars, from, chars.len())
}

proof fn lemma_without_trailing(s: Seq<char>, c: char, to: int)
    requires
        0 <= to <= s.len(),
        forall|k: int| to <= k < s.len() ==> #[trigger] s[k] == c,
        to > 0 ==> s[to - 1] != c,
    ensures
        without_trailing(s, c) == s.take(to),
    decreases s.len() - to,
{
    if to == s.len() {
        assert(s.take(to) =~= s);
    } else {
        let rest = s.drop_last();
        assert forall|k: int| to <= k < rest.len() implies #[trigger] rest[k] == c by {
            assert(rest[k] == s[k]);
        }
        lemma_without_trailing(rest, c, to);
        assert(rest.take(to) =~= s.take(to));
    }
}

/// The string without its trailing occurrences of a character.
pub fn trim_end_matches(text: &str, c: char) -> (rest: String)
    ensures
        rest@ == without_trailing(text@, c),
{
    let chars = chars_of(text);
    let mut to: usize = chars.len();
    while to > 0 && chars[to - 1] == c
        invariant
            to <= chars@.len(),
            forall|k: int| to <= k < chars@.len() ==> #[trigger] chars@[k] == c,
        decreases to,
    {
        to = to - 1;
    }
    proof {
        lemma_without_trailing(chars@, c, to as int);
        assert(chars@.take(to as int) =~= chars@.subrange(0, to as int));
    }
    string_between(&chars, 0, to)
}

// ---------------------------------------------------------------------------
// Numbers
// ---------------------------------------------------------------------------

/// The character of a decimal digit.
pub open spec fn digit_char(digit: nat) -> char {
    (48 + digit) as char
}

/// The decimal text of a natural number.
pub open spec fn decimal(n: nat) -> Seq<char>
    decreases n,
{
    if n < 10 {
        seq![digit_char(n)]
    } else {
        decimal(n / 10).push(digit_char(n % 10))
    }
}

/// The decimal text of an integer.
pub open spec fn signed_decimal(n: int) -> Seq<char> {
    if n < 0 {
        "-"@ + decimal((-n) as nat)
    } else {
        decimal(n as nat)
    }
}

/// The decimal text of a number.
pub fn decimal_text(n: u64) -> (text: String)
    ensures
        text@ == decimal(n as nat),
    decreases n,
{
    let digit: u8 = 48 + (n % 10) as u8;
    if n < 10 {
        let mut text = String::new();
        text.push(digit as char);
        assert(text@ =~= decimal(n as nat));
        text
    } else {
        let mut text = decimal_text(n / 10);
        text.push(digit as char);
        text
    }
}

/// The decimal text of a signed number.
pub fn signed_decimal_text(n: i64) -> (text: String)
    ensures
        text@ == signed_decimal(n as int),
{
    if n < 0 {
        let magnitude: u64 = if n == i64::MIN {
            0x8000_0000_0000_0000
        } else {
            (-n) as u64
        };
        let digits = decimal_text(magnitude);
        concat2("-", &digits)
    } else {
        decimal_text(n as u64)
    }
}

/// Why a text is no integer of the wanted type.
#[derive(Clone, Copy, Debug, PartialEq, Eq, Structural)]
pub enum IntError {
    Empty,
    InvalidDigit,
    TooLarge,
    TooSmall,
}

/// The message of an [`IntError`].
pub open spec fn int_error_text(error: IntError) -> Seq<char> {
    match error {
        IntError::Empty => "cannot parse integer from empty string"@,
        IntError::InvalidDigit => "invalid digit found in string"@,
        IntError::TooLarge => "number too large to fit in target type"@,
        IntError::TooSmall => "number too small to fit in target type"@,
    }
}

impl IntError {
    /// The message of this error.
    pub fn text(&self) -> (text: &'static str)
        ensures
            text@ == int_error_text(*self),
    {
        match self {
            IntError::Empty => "cannot parse integer from empty string",
            IntError::InvalidDigit => "invalid digit found in string",
            IntError::TooLarge => "number too large to fit in target type",
            IntError::TooSmall => "number too small to fit in target type",
        }
    }
}

/// Whether a character is a decimal digit.
pub open spec fn is_digit(c: char) -> bool {
    48 <= c as u32 <= 57
}

/// The number that digits are, between `min` and `max`; the first digit that
/// is none, or makes the number too large or too small, decides.
pub open spec fn digits_value(digits: Seq<char>, negative: bool, min: int, max: int) -> Result<
    int,
    IntError,
>
    decreases digits.len(),
{
    if digits.len() == 0 {
        Ok(0)
    } else {
        match digits_value(digits.drop_last(), negative, min, max) {
            Err(error) => Err(error),
            Ok(n) => if !is_digit(digits.last()) {
                Err(IntError::InvalidDigit)
            } else {
                let digit = digits.last() as u32 - 48;
                let next = if negative {
                    n * 10 - digit
                } else {
                    n * 10 + digit
                };
                if next > max {
                    Err(IntError::TooLarge)
                } else if next < min {
                    Err(IntError::TooSmall)
                } else {
                    Ok(next)
                }
            },
        }
    }
}

/// The integer between `min` and `max` that a text is: digits, with a sign
/// before them or not. Without negative numbers, a minus sign is no sign.
pub open spec fn integer_value(s: Seq<char>, min: int, max: int) -> Result<int, IntError> {
    if s.len() == 0 {
        Err(IntError::Empty)
    } else if s.len() == 1 && (s[0] == '+' || s[0] == '-') {
        Err(IntError::InvalidDigit)
    } else if s[0] == '+' {
        digits_value(s.skip(1), false, min, max)
    } else if s[0] == '-' && min < 0 {
        digits_value(s.skip(1), true, min, max)
    } else {
        digits_value(s, false, min, max)
    }
}

proof fn lemma_digits_error_stays(
    digits: Seq<char>,
    seen: int,
    negative: bool,
    min: int,
    max: int,
)
    requires
        0 <= seen <= digits.len(),
        digits_value(digits.take(seen), negative, min, max) is Err,
    ensures
        digits_value(digits, negative, min, max) == digits_value(
            digits.take(seen),
            negative,
            min,
            max,
        ),
    decreases digits.len(),
{
    if seen == digits.len() {
        assert(digits.take(seen) =~= digits);
    } else {
        assert(digits.drop_last().take(seen) =~= digits.take(seen));
        lemma_digits_error_stays(digits.drop_last(), seen, negative, min, max);
    }
}

fn parse_digits(chars: &Vec<char>, from: usize, negative: bool, min: i128, max: i128) -> (value:
    Result<i128, IntError>)
    requires
        from <= chars@.len(),
        -0x8000_0000_0000_0000 <= min <= 0 <= max <= 0xFFFF_FFFF_FFFF_FFFF,
    ensures
        match value {
            Ok(n) => digits_value(chars@.skip(from as int), negative, min as int, max as int)
                == Ok::<int, IntError>(n as int) && min <= n <= max,
            Err(error) => digits_value(
                chars@.skip(from as int),
                negative,
                min as int,
                max as int,
            ) == Err::<int, IntError>(error),
        },
{
    let ghost digits = chars@.skip(from as int);
    let mut value: i128 = 0;
    let mut i: usize = from;
    while i < chars.len()
        invariant
            from <= i <= chars@.len(),
            digits == chars@.skip(from as int),
            -0x8000_0000_0000_0000 <= min <= 0 <= max <= 0xFFFF_FFFF_FFFF_FFFF,
            min <= value <= max,
            digits_value(digits.take(i - from), negative, min as int, max as int) == Ok::<
                int,
                IntError,
            >(value as int),
        decreases chars@.len() - i,
    {
        let c = chars[i];
        let ghost seen = digits.take(i - from + 1);
        proof {
            assert(seen.drop_last() =~= digits.take(i - from));
            assert(seen.last() == c);
            if digits_value(seen, negative, min as int, max as int) is Err {
                lemma_digits_error_stays(digits, i - from + 1, negative, min as int, max as int);
            }
        }
        let code: u32 = c as u32;
        if code < 48 || code > 57 {
            return Err(IntError::InvalidDigit);
        }
        let digit: i128 = (code - 48) as i128;
        let next: i128 = if negative {
            value * 10 - digit
        } else {
            value * 10 + digit
        };
        if next > max {
            return Err(IntError::TooLarge);
        }
        if next < min {
            return Err(IntError::TooSmall);
        }
        value = next;
        i = i + 1;
    }
    assert(digits.take(digits.len() as int) =~= digits);
    Ok(value)
}

fn parse_integer(text: &str, min: i128, max: i128) -> (value: Result<i128, IntError>)
    requires
        -0x8000_0000_0000_0000 <= min <= 0 <= max <= 0xFFFF_FFFF_FFFF_FFFF,
    ensures
        match value {
            Ok(n) => integer_value(text@, min as int, max as int) == Ok::<int, IntError>(n as int)
                && min <= n <= max,
            Err(error) => integer_value(text@, min as int, max as int) == Err::<int, IntError>(
                error,
            ),
        },
{
    let chars = chars_of(text);
    let len: usize = chars.len();
    assert(text@.skip(0) =~= text@);
    if len == 0 {
        Err(IntError::Empty)
    } else if len == 1 && (chars[0] == '+' || chars[0] == '-') {
        Err(IntError::InvalidDigit)
    } else if chars[0] == '+' {
        parse_digits(&chars, 1, false, min, max)
    } else if chars[0] == '-' && min < 0 {
        parse_digits(&chars, 1, true, min, max)
    } else {
        parse_digits(&chars, 0, false, min, max)
    }
}

/// The signed 64-bit integer that a text is.
pub fn parse_i64(text: &str) -> (value: Result<i64, IntError>)
    ensures
        match value {
            Ok(n) => integer_value(text@, i64::MIN as int, i64::MAX as int) == Ok::<int, IntError>(
                n as int,
            ),
            Err(error) => integer_value(text@, i64::MIN as int, i64::MAX as int) == Err::<
                int,
                IntError,
            >(error),
        },
{
    match parse_integer(text, -0x8000_0000_0000_0000, 0x7FFF_FFFF_FFFF_FFFF) {
        Ok(n) => Ok(n as i64),
        Err(error) => Err(error),
    }
}

/// The unsigned 64-bit integer that a text is.
pub fn parse_u64(text: &str) -> (value: Result<u64, IntError>)
    ensures
        match value {
            Ok(n) => integer_value(text@, 0, u64::MAX as int) == Ok::<int, IntError>(n as int),
            Err(error) => integer_value(text@, 0, u64::MAX as int) == Err::<int, IntError>(error),
        },
{
    match parse_integer(text, 0, 0xFFFF_FFFF_FFFF_FFFF) {
        Ok(n) => Ok(n as u64),
        Err(error) => Err(error),
    }
}

// ---------------------------------------------------------------------------
// Bytes
// ---------------------------------------------------------------------------

/// What `std::string::FromUtf8Error` says of bytes that are not UTF-8.
pub uninterp spec fn utf8_error_text(bytes: Seq<u8>) -> Seq<char>;

/// Decodes UTF-8 with `String::from_utf8`: the text where the bytes are valid
/// UTF-8, and otherwise the message of the error, which depends on the bytes
/// alone.
#[verifier::external_body]
pub(crate) fn decode_bytes(bytes: Vec<u8>) -> (text: Result<String, String>)
    ensures
        match text {
            Ok(text) => valid_utf8(bytes@) && text@ == decode_utf8(bytes@),
            Err(message) => !valid_utf8(bytes@) && message@ == utf8_error_text(bytes@),
        },
{
    String::from_utf8(bytes).map_err(|error| error.to_string())
}

/// The text that bytes are, where they are valid UTF-8.
pub fn utf8_text(bytes: Vec<u8>) -> (text: Option<String>)
    ensures
        match text {
            Some(text) => valid_utf8(bytes@) && text@ == decode_utf8(bytes@),
            None => !valid_utf8(bytes@),
        },
{
    match decode_bytes(bytes) {
        Ok(text) => Some(text),
        Err(_) => None,
    }
}

// ---------------------------------------------------------------------------
// Laws of texts
// ---------------------------------------------------------------------------

/// Blanks, tabs and line ends are white space; the printable characters of
/// ASCII are not.
pub proof fn law_line_ends_and_blanks_are_white_space(c: char)
    ensures
        is_space(' '),
        is_space('\t'),
        is_space('\n'),
        is_space('\r'),
        0x21 <= c as u32 <= 0x7E ==> !is_space(c),
{
}

/// Trimming takes white space away, from both ends and nothing else: what is
/// left is a stretch of the text with nothing but white space around it, and
/// neither begins nor ends with white space.
pub proof fn law_trimming_takes_only_white_space(s: Seq<char>)
    ensures
        exists|from: int, to: int|
            0 <= from <= to <= s.len() && trimmed(s) == #[trigger] s.subrange(from, to) && (forall|
                k: int,
            |
                0 <= k < from || to <= k < s.len() ==> is_space(#[trigger] s[k])),
        trimmed(s).len() > 0 ==> !is_space(trimmed(s)[0]) && !is_space(trimmed(s).last()),
        trimmed(s).len() == 0 <==> forall|k: int| 0 <= k < s.len() ==> is_space(#[trigger] s[k]),
{
    let from = lemma_start_found(s);
    lemma_trimmed_start(s, from);
    let rest = s.skip(from);
    let to = lemma_end_found(rest);
    lemma_trimmed_end(rest, to);
    assert(rest.take(to) =~= s.subrange(from, from + to));
    assert forall|k: int| 0 <= k < from || from + to <= k < s.len() implies is_space(
        #[trigger] s[k],
    ) by {
        if k >= from {
            assert(rest[k - from] == s[k]);
        }
    }
    if to > 0 {
        assert(rest[0] == s[from]);
        assert(rest[to - 1] == s[from + to - 1]);
    }
}

proof fn lemma_start_found(s: Seq<char>) -> (from: int)
    ensures
        0 <= from <= s.len(),
        forall|k: int| 0 <= k < from ==> is_space(#[trigger] s[k]),
        from < s.len() ==> !is_space(s[from]),
    decreases s.len(),
{
    if s.len() > 0 && is_space(s[0]) {
        let rest = s.skip(1);
        let from = lemma_start_found(rest);
        assert forall|k: int| 0 <= k < from + 1 implies is_space(#[trigger] s[k]) by {
            if k > 0 {
                assert(rest[k - 1] == s[k]);
            }
        }
        from + 1
    } else {
        0
    }
}

proof fn lemma_end_found(s: Seq<char>) -> (to: int)
    ensures
        0 <= to <= s.len(),
        forall|k: int| to <= k < s.len() ==> is_space(#[trigger] s[k]),
        to > 0 ==> !is_space(s[to - 1]),
    decreases s.len(),
{
    if s.len() > 0 && is_space(s.last()) {
        let rest = s.drop_last();
        let to = lemma_end_found(rest);
        assert(forall|k: int| 0 <= k < rest.len() ==> #[trigger] s[k] == rest[k]);
        to
    } else {
        s.len() as int
    }
}

/// Joining puts the separator between each two parts, and nowhere else.
pub proof fn law_joined_parts_are_separated(
    parts: Seq<Seq<char>>,
    part: Seq<char>,
    separator: Seq<char>,
)
    ensures
        joined(Seq::empty(), separator) == Seq::<char>::empty(),
        joined(seq![part], separator) == part,
        parts.len() > 0 ==> joined(parts.push(part), separator) == joined(parts, separator)
            + separator + part,
{
    assert(parts.push(part).drop_last() =~= parts);
}

/// A line is what stands before a line feed, without a carriage return at its
/// end. It is a record where it holds more than white space.
pub proof fn law_lines_end_in_line_feeds(s: Seq<char>, line: Seq<char>)
    requires
        s.len() == 0 || s.last() == '\n',
        !line.contains('\n'),
    ensures
        terminated_lines(s + line + seq!['\n']) == terminated_lines(s).push(without_cr(line)),
        terminated_lines(s + line) == terminated_lines(s),
        unterminated_tail(s + line) == line,
        unterminated_tail(s + line + seq!['\n']).len() == 0,
        without_cr(line.push('\r')) == line,
        line.len() == 0 || line.last() != '\r' ==> without_cr(line) == line,
{
    let whole = s + line;
    lemma_split_nonempty(s, '\n');
    assert(line.push('\r').drop_last() =~= line);
    if s.len() == 0 {
        assert(whole =~= line);
        assert(s =~= Seq::empty());
        lemma_split_one_piece(line, '\n');
        lemma_split_one_piece(s, '\n');
        assert(seq![line].drop_last() =~= Seq::empty());
        assert(seq![s].drop_last() =~= Seq::empty());
        assert(split_at_char(whole, '\n') =~= split_at_char(s, '\n').drop_last().push(line));
    } else {
        let front = s.drop_last();
        assert(s =~= front.push('\n') + Seq::<char>::empty());
        assert(whole =~= front.push('\n') + line);
        lemma_split_one_more(front, '\n', line);
        lemma_split_one_more(front, '\n', Seq::empty());
        assert(split_at_char(s, '\n').drop_last() =~= split_at_char(front, '\n'));
        assert(split_at_char(whole, '\n') =~= split_at_char(s, '\n').drop_last().push(line));
    }
    let pieces = split_at_char(s, '\n').drop_last();
    assert(pieces.push(line).drop_last() =~= pieces);
    assert(whole + seq!['\n'] =~= whole.push('\n') + Seq::<char>::empty());
    lemma_split_one_more(whole, '\n', Seq::empty());
    let ended = split_at_char(whole + seq!['\n'], '\n');
    assert(ended.drop_last() =~= pieces.push(line));
    assert(pieces.push(line).map_values(|line: Seq<char>| without_cr(line))
        =~= pieces.map_values(|line: Seq<char>| without_cr(line)).push(without_cr(line)));
}

/// Of lines, those that hold more than white space are kept, in their order and
/// as they are.
pub proof fn law_blank_lines_are_dropped(
    lines: Seq<Seq<char>>,
    more: Seq<Seq<char>>,
    line: Seq<char>,
)
    ensures
        nonblank_lines(Seq::empty()) == Seq::<Seq<char>>::empty(),
        nonblank_lines(lines + more) == nonblank_lines(lines) + nonblank_lines(more),
        trimmed(line).len() > 0 ==> nonblank_lines(seq![line]) == seq![line],
        trimmed(line).len() == 0 ==> nonblank_lines(seq![line]) == Seq::<Seq<char>>::empty(),
    decreases more.len(),
{
    reveal_with_fuel(nonblank_lines, 2);
    assert(seq![line].drop_last() =~= Seq::empty());
    assert(Seq::<Seq<char>>::empty().push(line) =~= seq![line]);
    if more.len() == 0 {
        assert(lines + more =~= lines);
        assert(nonblank_lines(lines) + nonblank_lines(more) =~= nonblank_lines(lines));
    } else {
        law_blank_lines_are_dropped(lines, more.drop_last(), line);
        assert((lines + more).drop_last() =~= lines + more.drop_last());
        assert(nonblank_lines(lines + more) =~= nonblank_lines(lines) + nonblank_lines(more));
    }
}

/// The first of either of two characters is found, and none stands before it.
pub proof fn law_first_is_found(s: Seq<char>, a: char, b: char)
    ensures
        match first_of(s, a, b) {
            Some(i) => 0 <= i < s.len() && (s[i] == a || s[i] == b) && forall|k: int|
                0 <= k < i ==> #[trigger] s[k] != a && s[k] != b,
            None => forall|k: int| 0 <= k < s.len() ==> #[trigger] s[k] != a && s[k] != b,
        },
    decreases s.len(),
{
    if s.len() > 0 {
        let rest = s.drop_last();
        law_first_is_found(rest, a, b);
        assert(forall|k: int| 0 <= k < rest.len() ==> #[trigger] s[k] == rest[k]);
    }
}

/// The last of a character is found, and none stands after it.
pub proof fn law_last_is_found(s: Seq<char>, c: char)
    ensures
        match last_of(s, c) {
            Some(i) => 0 <= i < s.len() && s[i] == c && forall|k: int|
                i < k < s.len() ==> #[trigger] s[k] != c,
            None => forall|k: int| 0 <= k < s.len() ==> #[trigger] s[k] != c,
        },
    decreases s.len(),
{
    if s.len() > 0 {
        let rest = s.drop_last();
        law_last_is_found(rest, c);
        assert(forall|k: int| 0 <= k < rest.len() ==> #[trigger] s[k] == rest[k]);
    }
}

/// Cutting a text at the first, or at the last, of a character gives what stands
/// before it and what stands after it, without the character itself.
pub proof fn law_cuts_leave_the_character_out(before: Seq<char>, c: char, after: Seq<char>)
    ensures
        !before.contains(c) ==> cut_at_first(before + seq![c] + after, c, c) == Some(
            (before, after),
        ),
        !after.contains(c) ==> cut_at_last(before + seq![c] + after, c) == Some((before, after)),
{
    let s = before + seq![c] + after;
    let at = before.len() as int;
    assert(s[at] == c);
    assert(s.take(at) =~= before);
    assert(s.skip(at + 1) =~= after);
    law_first_is_found(s, c, c);
    law_last_is_found(s, c);
    if !before.contains(c) {
        assert forall|k: int| 0 <= k < at implies #[trigger] s[k] != c by {
            assert(before[k] == s[k]);
            assert(before.contains(before[k]));
        }
    }
    if !after.contains(c) {
        assert forall|k: int| at < k < s.len() implies #[trigger] s[k] != c by {
            assert(after[k - at - 1] == s[k]);
            assert(after.contains(after[k - at - 1]));
        }
    }
}

/// The last place of a part is found, and it stands nowhere after that.
pub proof fn law_last_part_is_found(s: Seq<char>, part: Seq<char>, at: int)
    ensures
        match find_back(s, part, at) {
            Some(i) => i <= at && stands_at(s, part, i) && forall|k: int|
                i < k <= at ==> !#[trigger] stands_at(s, part, k),
            None => forall|k: int| 0 <= k <= at ==> !#[trigger] stands_at(s, part, k),
        },
    decreases at + 1,
{
    if at >= 0 && !stands_at(s, part, at) {
        law_last_part_is_found(s, part, at - 1);
    }
}

/// The first place of a part is found, and it stands nowhere before that.
pub proof fn law_first_part_is_found(s: Seq<char>, part: Seq<char>, at: int)
    ensures
        match find_from(s, part, at) {
            Some(i) => at <= i && stands_at(s, part, i) && forall|k: int|
                at <= k < i ==> !#[trigger] stands_at(s, part, k),
            None => forall|k: int| at <= k ==> !#[trigger] stands_at(s, part, k),
        },
    decreases s.len() + 1 - at,
{
    if at <= s.len() && !stands_at(s, part, at) {
        law_first_part_is_found(s, part, at + 1);
    }
}

/// A text begins with what stands at its beginning, ends with what stands at its
/// end, and holds what stands between two others. Taking a prefix or a suffix
/// away leaves the rest.
pub proof fn law_parts_of_a_text_are_found(left: Seq<char>, part: Seq<char>, right: Seq<char>)
    ensures
        holds_text(left + part + right, part),
        begins_with(part + right, part),
        finishes_with(left + part, part),
        without_prefix(part + right, part) == Some(right),
        without_suffix(left + part, part) == Some(left),
{
    let whole = left + part + right;
    assert(whole.subrange(left.len() as int, (left.len() + part.len()) as int) =~= part);
    assert(stands_at(whole, part, left.len() as int));
    assert((part + right).subrange(0, part.len() as int) =~= part);
    assert((part + right).skip(part.len() as int) =~= right);
    let ended = left + part;
    assert(ended.subrange(left.len() as int, ended.len() as int) =~= part);
    assert(ended.take(left.len() as int) =~= left);
}

/// What a text holds stands in it between two others; where nothing has it as
/// its beginning, or its end, no prefix, or suffix, is taken away.
pub proof fn law_found_parts_stand_in_the_text(s: Seq<char>, part: Seq<char>)
    ensures
        holds_text(s, part) ==> exists|left: Seq<char>, right: Seq<char>|
            s == #[trigger] (left + part + right),
        without_prefix(s, part) matches Some(rest) ==> s == part + rest,
        without_suffix(s, part) matches Some(rest) ==> s == rest + part,
{
    if holds_text(s, part) {
        let at = choose|at: int| stands_at(s, part, at);
        assert(s =~= s.take(at) + part + s.skip(at + part.len()));
    }
    if without_prefix(s, part) is Some {
        assert(s =~= part + s.skip(part.len() as int));
    }
    if without_suffix(s, part) is Some {
        assert(s =~= s.take(s.len() - part.len()) + part);
    }
}

/// Words are what stands between stretches of white space: no word is empty or
/// holds white space, and each further word of a text is one more.
pub proof fn law_words_stand_between_white_space(s: Seq<char>, space: char, word: Seq<char>)
    requires
        is_space(space),
        word.len() > 0,
        forall|k: int| 0 <= k < word.len() ==> !is_space(#[trigger] word[k]),
    ensures
        words_of(Seq::empty()) == Seq::<Seq<char>>::empty(),
        words_of(word) == seq![word],
        words_of(s.push(space)) == words_of(s),
        words_of(s.push(space) + word) == words_of(s).push(word),
{
    assert(s.push(space).drop_last() =~= s);
    lemma_word_scan(Seq::empty(), word);
    assert(Seq::<char>::empty() + word =~= word);
    assert(words_of(word) =~= seq![word]);
    lemma_word_scan(s.push(space), word);
}

proof fn lemma_word_scan(s: Seq<char>, word: Seq<char>)
    requires
        forall|k: int| 0 <= k < word.len() ==> !is_space(#[trigger] word[k]),
    ensures
        word_scan(s + word) == (word_scan(s).0, word_scan(s).1 + word),
    decreases word.len(),
{
    if word.len() == 0 {
        assert(s + word =~= s);
        assert(word_scan(s).1 + word =~= word_scan(s).1);
    } else {
        let rest = word.drop_last();
        assert(forall|k: int| 0 <= k < rest.len() ==> #[trigger] rest[k] == word[k]);
        lemma_word_scan(s, rest);
        assert((s + word).drop_last() =~= s + rest);
        assert((s + word).last() == word[word.len() - 1]);
        assert((word_scan(s).1 + rest).push(word.last()) =~= word_scan(s).1 + word);
    }
}

/// Lower case changes the capital letters of ASCII and nothing else.
pub proof fn law_lower_case_changes_capitals_only(s: Seq<char>, k: int)
    requires
        0 <= k < s.len(),
    ensures
        lowered(s).len() == s.len(),
        0x41 <= s[k] as u32 <= 0x5A ==> lowered(s)[k] as u32 == s[k] as u32 + 32,
        !(0x41 <= s[k] as u32 <= 0x5A) ==> lowered(s)[k] == s[k],
{
}

/// What is taken off the beginning of a text is the character that is given, and
/// all of it; so it is at the end.
pub proof fn law_repeated_ends_are_taken_off(s: Seq<char>, c: char)
    ensures
        without_leading(s, c).len() > 0 ==> without_leading(s, c)[0] != c,
        without_leading(s.insert(0, c), c) == without_leading(s, c),
        s.len() == 0 || s[0] != c ==> without_leading(s, c) == s,
        without_trailing(s, c).len() > 0 ==> without_trailing(s, c).last() != c,
        without_trailing(s.push(c), c) == without_trailing(s, c),
        s.len() == 0 || s.last() != c ==> without_trailing(s, c) == s,
    decreases s.len(),
{
    assert(s.insert(0, c).skip(1) =~= s);
    assert(s.push(c).drop_last() =~= s);
    if s.len() > 0 && s[0] == c {
        law_repeated_ends_are_taken_off(s.skip(1), c);
    }
    if s.len() > 0 && s.last() == c {
        law_repeated_ends_are_taken_off(s.drop_last(), c);
    }
}

/// A number that is written down is read back, by every type that it fits in.
pub proof fn law_written_numbers_are_read_back(n: int, min: int, max: int)
    requires
        min <= n <= max,
        min <= 0 <= max,
    ensures
        integer_value(signed_decimal(n), min, max) == Ok::<int, IntError>(n),
{
    reveal_strlit("-");
    let digits = decimal(if n < 0 {
        (-n) as nat
    } else {
        n as nat
    });
    if n < 0 {
        lemma_decimal_is_read((-n) as nat, true, min, max);
        assert(signed_decimal(n).skip(1) =~= digits);
    } else {
        lemma_decimal_is_read(n as nat, false, min, max);
    }
}

proof fn lemma_decimal_is_read(n: nat, negative: bool, min: int, max: int)
    requires
        min <= 0 <= max,
        negative ==> min <= -n,
        !negative ==> n <= max,
    ensures
        digits_value(decimal(n), negative, min, max) == Ok::<int, IntError>(
            if negative {
                -n
            } else {
                n as int
            },
        ),
        decimal(n).len() > 0,
        is_digit(decimal(n)[0]),
    decreases n,
{
    reveal_with_fuel(digits_value, 2);
    if n < 10 {
        assert(decimal(n).drop_last() =~= Seq::empty());
        assert(decimal(n).last() as u32 == 48 + n);
    } else {
        lemma_decimal_is_read(n / 10, negative, min, max);
        assert(decimal(n).drop_last() =~= decimal(n / 10));
        assert(decimal(n).last() as u32 == 48 + n % 10);
        assert(decimal(n)[0] == decimal(n / 10)[0]);
    }
}

/// What is read as a number is made of digits, with a sign before them or not,
/// and lies between the bounds.
pub proof fn law_numbers_are_digits(s: Seq<char>, min: int, max: int)
    requires
        min <= 0 <= max,
    ensures
        integer_value(s, min, max) matches Ok(n) ==> {
            &&& min <= n <= max
            &&& s.len() > 0
            &&& is_digit(s[0]) || (s.len() > 1 && (s[0] == '+' || s[0] == '-'))
            &&& forall|k: int| 1 <= k < s.len() ==> 0x30 <= (#[trigger] s[k]) as u32 <= 0x39
        },
        s.len() == 0 ==> integer_value(s, min, max) == Err::<int, IntError>(IntError::Empty),
{
    if s.len() > 0 {
        lemma_digits_hold(s, false, min, max);
        lemma_digits_hold(s.skip(1), false, min, max);
        lemma_digits_hold(s.skip(1), true, min, max);
        assert(forall|k: int| 1 <= k < s.len() ==> #[trigger] s[k] == s.skip(1)[k - 1]);
    }
}

proof fn lemma_digits_hold(digits: Seq<char>, negative: bool, min: int, max: int)
    requires
        min <= 0 <= max,
    ensures
        digits_value(digits, negative, min, max) matches Ok(n) ==> min <= n <= max && forall|k: int|
            0 <= k < digits.len() ==> is_digit(#[trigger] digits[k]),
    decreases digits.len(),
{
    if digits.len() > 0 {
        let rest = digits.drop_last();
        lemma_digits_hold(rest, negative, min, max);
        assert(forall|k: int| 0 <= k < rest.len() ==> #[trigger] digits[k] == rest[k]);
    }
}

/// Joining what a split at a text gave with the same text gives the whole back,
/// and each piece reaches to the next place where that text stands.
pub proof fn law_split_text_then_join(s: Seq<char>, separator: Seq<char>, from: int)
    requires
        separator.len() > 0,
        0 <= from <= s.len(),
    ensures
        split_from(s, separator, from).len() > 0,
        joined(split_from(s, separator, from), separator) == s.skip(from),
        split_from(s, separator, from).len() == 1 <==> forall|at: int|
            from <= at ==> !#[trigger] stands_at(s, separator, at),
    decreases s.len() - from,
{
    law_first_part_is_found(s, separator, from);
    match find_from(s, separator, from) {
        Some(at) => {
            let next = at + separator.len();
            let rest = split_from(s, separator, next);
            law_split_text_then_join(s, separator, next);
            lemma_joined_front(s.subrange(from, at), rest, separator);
            assert(s.subrange(from, at) + separator + s.skip(next) =~= s.skip(from)) by {
                assert(s.subrange(at, next) =~= separator);
                assert(forall|k: int|
                    0 <= k < separator.len() ==> #[trigger] separator[k] == s[at + k]) by {
                    assert(forall|k: int|
                        0 <= k < separator.len() ==> #[trigger] s.subrange(at, next)[k] == s[at
                            + k]);
                }
            }
            assert((seq![s.subrange(from, at)] + rest).len() > 1);
        },
        None => {
            assert(joined(seq![s.skip(from)], separator) =~= s.skip(from));
        },
    }
}

proof fn lemma_joined_front(first: Seq<char>, rest: Seq<Seq<char>>, separator: Seq<char>)
    requires
        rest.len() > 0,
    ensures
        joined(seq![first] + rest, separator) == first + separator + joined(rest, separator),
    decreases rest.len(),
{
    let all = seq![first] + rest;
    reveal_with_fuel(joined, 2);
    if rest.len() == 1 {
        assert(all.drop_last() =~= seq![first]);
        assert(all.last() == rest[0]);
        assert(joined(seq![first], separator) == first);
    } else {
        lemma_joined_front(first, rest.drop_last(), separator);
        assert(all.drop_last() =~= seq![first] + rest.drop_last());
        assert(all.last() == rest.last());
        assert(first + separator + joined(rest.drop_last(), separator) + separator + rest.last()
            =~= first + separator + (joined(rest.drop_last(), separator) + separator
            + rest.last()));
    }
}

/// A text that neither begins nor ends with white space stays as it is when it is
/// trimmed.
pub proof fn law_trimmed_texts_stay(s: Seq<char>)
    requires
        s.len() == 0 || (!is_space(s[0]) && !is_space(s.last())),
    ensures
        trimmed(s) == s,
        trimmed_start(s) == s,
        trimmed_end(s) == s,
{
}

/// The lines of a text are those that end in a line feed, and what follows the
/// last of them where there is anything.
pub proof fn law_lines_hold_the_rest(s: Seq<char>, line: Seq<char>)
    requires
        s.len() == 0 || s.last() == '\n',
        !line.contains('\n'),
    ensures
        lines_of(s) == terminated_lines(s),
        line.len() > 0 ==> lines_of(s + line) == terminated_lines(s).push(line),
        lines_of(s + line + seq!['\n']) == terminated_lines(s).push(without_cr(line)),
{
    law_lines_end_in_line_feeds(s, line);
    law_lines_end_in_line_feeds(s, Seq::empty());
    assert(s + Seq::<char>::empty() =~= s);
}

/// Suffixes are taken off until a text does not end with them any more.
pub proof fn law_suffixes_are_taken_off(s: Seq<char>, suffix: Seq<char>)
    requires
        suffix.len() > 0,
    ensures
        without_suffixes(s + suffix, suffix) == without_suffixes(s, suffix),
        !finishes_with(s, suffix) ==> without_suffixes(s, suffix) == s,
{
    law_parts_of_a_text_are_found(s, suffix, Seq::empty());
    assert((s + suffix).take((s + suffix).len() - suffix.len()) =~= s);
}

/// A number that does not fit is refused for being too large or too small.
pub proof fn law_numbers_that_do_not_fit_are_refused(n: int, min: int, max: int)
    requires
        min <= 0 <= max,
    ensures
        n > max ==> integer_value(signed_decimal(n), min, max) == Err::<int, IntError>(
            IntError::TooLarge,
        ),
        n < min && min < 0 ==> integer_value(signed_decimal(n), min, max) == Err::<int, IntError>(
            IntError::TooSmall,
        ),
{
    reveal_strlit("-");
    if n > max {
        lemma_decimal_does_not_fit(n as nat, false, min, max);
    }
    if n < min && min < 0 {
        lemma_decimal_does_not_fit((-n) as nat, true, min, max);
        assert(signed_decimal(n).skip(1) =~= decimal((-n) as nat));
        assert(signed_decimal(n).len() > 1);
    }
}

proof fn lemma_decimal_does_not_fit(n: nat, negative: bool, min: int, max: int)
    requires
        min <= 0 <= max,
        negative ==> -n < min,
        !negative ==> n > max,
    ensures
        digits_value(decimal(n), negative, min, max) == Err::<int, IntError>(
            if negative {
                IntError::TooSmall
            } else {
                IntError::TooLarge
            },
        ),
        decimal(n).len() > 0,
        is_digit(decimal(n)[0]),
    decreases n,
{
    reveal_with_fuel(digits_value, 2);
    if n < 10 {
        assert(decimal(n).drop_last() =~= Seq::empty());
        assert(decimal(n).last() as u32 == 48 + n);
    } else {
        let rest = n / 10;
        assert(decimal(n).drop_last() =~= decimal(rest));
        assert(decimal(n).last() as u32 == 48 + n % 10);
        if (negative && -rest < min) || (!negative && rest > max) {
            lemma_decimal_does_not_fit(rest, negative, min, max);
        } else {
            lemma_decimal_is_read(rest, negative, min, max);
        }
        assert(decimal(n)[0] == decimal(rest)[0]);
    }
}

/// What keeps a text from being a number has a message of its own.
pub proof fn law_number_errors_have_messages()
    ensures
        int_error_text(IntError::Empty) == "cannot parse integer from empty string"@,
        int_error_text(IntError::InvalidDigit) == "invalid digit found in string"@,
        int_error_text(IntError::TooLarge) == "number too large to fit in target type"@,
        int_error_text(IntError::TooSmall) == "number too small to fit in target type"@,
{
}

/// The model of a text that may be missing is the text where it is there, and
/// the model of texts is each of them, in their order.
pub proof fn law_models_of_texts_are_the_texts(
    text: String,
    parts: Seq<String>,
    pair: (String, String),
    i: int,
)
    ensures
        opt_view(Some(text)) == Some(text@),
        opt_view(None) is None,
        opt_pair(Some(pair)) == Some((pair.0@, pair.1@)),
        opt_pair(None) is None,
        views(parts).len() == parts.len(),
        0 <= i < parts.len() ==> views(parts)[i] == parts[i]@,
{
}

} // verus!

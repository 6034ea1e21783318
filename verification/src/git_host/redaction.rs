//! Keeps credentials out of what a command line tool has printed.

use vstd::prelude::*;

use crate::text::{
    chars_of, chars_stand_at, concat2, finishes_with, join, joined, law_joined_parts_are_separated,
    law_parts_of_a_text_are_found, lemma_split_nonempty, lemma_split_one_more,
    lemma_split_one_piece, lemma_views_push, lowered, split, split_at_char, to_ascii_lowercase,
    views,
};

verus! {

/// The shortest run of letters, digits and underscores that may be a token.
pub const TOKEN_CHARS: usize = 32;

/// What stands in place of a credential.
pub const MASK: &'static str = "[redacted]";

/// Whether a character can be part of a token.
pub open spec fn is_token_char(c: char) -> bool {
    ('a' <= c && c <= 'z') || ('A' <= c && c <= 'Z') || ('0' <= c && c <= '9') || c == '_'
}

/// A run of token characters, masked where it may be a token.
pub open spec fn shown_run(run: Seq<char>) -> Seq<char> {
    if run.len() >= TOKEN_CHARS {
        MASK@
    } else {
        run
    }
}

/// A text cut behind its last character that is in no token: what precedes,
/// its runs shown, and the run at the end.
pub open spec fn run_scan(text: Seq<char>) -> (Seq<char>, Seq<char>)
    decreases text.len(),
{
    if text.len() == 0 {
        (Seq::empty(), Seq::empty())
    } else {
        let (shown, run) = run_scan(text.drop_last());
        if is_token_char(text.last()) {
            (shown, run.push(text.last()))
        } else {
            ((shown + shown_run(run)).push(text.last()), Seq::empty())
        }
    }
}

/// A text with the runs masked that may be tokens.
pub open spec fn without_tokens(text: Seq<char>) -> Seq<char> {
    run_scan(text).0 + shown_run(run_scan(text).1)
}

/// Whether a text, in lower case, ends with what precedes a credential.
pub open spec fn announces_credential(text: Seq<char>) -> bool {
    ||| finishes_with(text, "authorization:"@)
    ||| finishes_with(text, "authorization\":"@)
    ||| finishes_with(text, "token:"@)
    ||| finishes_with(text, "token\":"@)
    ||| finishes_with(text, "token="@)
    ||| finishes_with(text, "bearer "@)
}

/// Where a credential begins in a line, given in lower case.
pub open spec fn credential_start(lower: Seq<char>) -> Option<int>
    decreases lower.len(),
{
    if lower.len() == 0 {
        None
    } else {
        match credential_start(lower.drop_last()) {
            Some(start) => Some(start),
            None => if announces_credential(lower) {
                Some(lower.len() as int)
            } else {
                None
            },
        }
    }
}

/// A line without credentials: a header loses its value, and anything else the
/// runs that may be tokens.
pub open spec fn redacted_line(line: Seq<char>) -> Seq<char> {
    match credential_start(lowered(line)) {
        Some(start) => without_tokens(line.take(start)) + seq![' '] + MASK@,
        None => without_tokens(line),
    }
}

/// A text without credentials.
pub open spec fn redacted(text: Seq<char>) -> Seq<char> {
    joined(
        split_at_char(text, '\n').map_values(|line: Seq<char>| redacted_line(line)),
        "\n"@,
    )
}

fn show_run(run: String, len: usize) -> (shown: String)
    requires
        len == run@.len(),
    ensures
        shown@ == shown_run(run@),
{
    if len >= TOKEN_CHARS {
        MASK.to_owned()
    } else {
        run
    }
}

fn mask_tokens(chars: &Vec<char>, to: usize) -> (masked: String)
    requires
        to <= chars@.len(),
    ensures
        masked@ == without_tokens(chars@.take(to as int)),
{
    let mut shown = String::new();
    let mut run = String::new();
    let mut len: usize = 0;
    let mut i: usize = 0;
    while i < to
        invariant
            i <= to <= chars@.len(),
            len == run@.len(),
            len <= i,
            (shown@, run@) == run_scan(chars@.take(i as int)),
        decreases to - i,
    {
        let c = chars[i];
        proof {
            let seen = chars@.take(i + 1);
            assert(seen.drop_last() =~= chars@.take(i as int));
            assert(seen.last() == c);
        }
        if (c >= 'a' && c <= 'z') || (c >= 'A' && c <= 'Z') || (c >= '0' && c <= '9') || c == '_' {
            run.push(c);
            len = len + 1;
        } else {
            let piece = show_run(run, len);
            shown.append(&piece);
            shown.push(c);
            run = String::new();
            len = 0;
        }
        i = i + 1;
    }
    let piece = show_run(run, len);
    shown.append(&piece);
    shown
}

fn ends_at(chars: &Vec<char>, to: usize, suffix: &str) -> (ends: bool)
    requires
        to <= chars@.len(),
    ensures
        ends == finishes_with(chars@.take(to as int), suffix@),
{
    let part = chars_of(suffix);
    if part.len() > to {
        return false;
    }
    let at: usize = to - part.len();
    proof {
        assert(chars@.take(to as int).subrange(at as int, to as int) =~= chars@.subrange(
            at as int,
            to as int,
        ));
    }
    chars_stand_at(chars, &part, at)
}

proof fn lemma_start_stays(lower: Seq<char>, to: int)
    requires
        0 <= to <= lower.len(),
        credential_start(lower.take(to)) is Some,
    ensures
        credential_start(lower) == credential_start(lower.take(to)),
    decreases lower.len(),
{
    if to == lower.len() {
        assert(lower.take(to) =~= lower);
    } else {
        assert(lower.drop_last().take(to) =~= lower.take(to));
        lemma_start_stays(lower.drop_last(), to);
    }
}

proof fn lemma_start_bounds(lower: Seq<char>)
    ensures
        credential_start(lower) matches Some(start) ==> 0 < start <= lower.len(),
    decreases lower.len(),
{
    if lower.len() > 0 {
        lemma_start_bounds(lower.drop_last());
    }
}

fn find_credential(lower: &Vec<char>) -> (start: Option<usize>)
    ensures
        match start {
            Some(start) => credential_start(lower@) == Some(start as int) && start <= lower@.len(),
            None => credential_start(lower@) is None,
        },
{
    let mut i: usize = 0;
    while i < lower.len()
        invariant
            i <= lower@.len(),
            credential_start(lower@.take(i as int)) is None,
        decreases lower@.len() - i,
    {
        i = i + 1;
        assert(lower@.take(i as int).drop_last() =~= lower@.take(i - 1));
        if ends_at(lower, i, "authorization:") || ends_at(lower, i, "authorization\":") || ends_at(
            lower,
            i,
            "token:",
        ) || ends_at(lower, i, "token\":") || ends_at(lower, i, "token=") || ends_at(
            lower,
            i,
            "bearer ",
        ) {
            proof {
                lemma_start_stays(lower@, i as int);
            }
            return Some(i);
        }
    }
    assert(lower@.take(lower@.len() as int) =~= lower@);
    None
}

fn redact_line(line: &str) -> (shown: String)
    ensures
        shown@ == redacted_line(line@),
{
    let chars = chars_of(line);
    let lower = chars_of(&to_ascii_lowercase(line));
    match find_credential(&lower) {
        Some(start) => {
            let mut shown = mask_tokens(&chars, start);
            shown.push(' ');
            assert(without_tokens(line@.take(start as int)).push(' ') =~= without_tokens(
                line@.take(start as int),
            ) + seq![' ']);
            concat2(&shown, MASK)
        },
        None => {
            assert(chars@.take(chars@.len() as int) =~= chars@);
            mask_tokens(&chars, chars.len())
        },
    }
}

/// Takes the credentials out of a text: the values of headers that carry one,
/// and whatever is long enough to be a token.
pub fn redact(text: &str) -> (shown: String)
    ensures
        shown@ == redacted(text@),
{
    let lines = split(text, '\n');
    let ghost all = split_at_char(text@, '\n').map_values(|line: Seq<char>| redacted_line(line));
    let mut shown: Vec<String> = Vec::new();
    let mut i: usize = 0;
    assert(views(shown@) =~= all.take(0));
    while i < lines.len()
        invariant
            i <= lines@.len(),
            views(lines@) == split_at_char(text@, '\n'),
            all == split_at_char(text@, '\n').map_values(|line: Seq<char>| redacted_line(line)),
            views(shown@) == all.take(i as int),
        decreases lines@.len() - i,
    {
        let line = redact_line(&lines[i]);
        assert(views(lines@)[i as int] == lines@[i as int]@);
        proof {
            lemma_views_push(shown@, line);
        }
        shown.push(line);
        assert(all.take(i + 1) =~= all.take(i as int).push(all[i as int]));
        i = i + 1;
    }
    assert(all.take(all.len() as int) =~= all);
    join(&shown, "\n")
}

// ---------------------------------------------------------------------------
// Laws
// ---------------------------------------------------------------------------

/// Whether one of as many characters as a token has, from `at` on, can be part
/// of none.
pub open spec fn has_break(text: Seq<char>, at: int) -> bool {
    exists|k: int| at <= k < at + TOKEN_CHARS && !is_token_char(#[trigger] text[k])
}

/// Whether nothing in a text is long enough to be a token.
pub open spec fn holds_no_token(text: Seq<char>) -> bool {
    forall|at: int| 0 <= at <= text.len() - TOKEN_CHARS ==> #[trigger] has_break(text, at)
}

proof fn lemma_break_stays(part: Seq<char>, whole: Seq<char>, at: int, offset: int)
    requires
        has_break(part, at),
        0 <= at <= part.len() - TOKEN_CHARS,
        0 <= offset <= whole.len() - part.len(),
        whole.subrange(offset, offset + part.len()) == part,
    ensures
        has_break(whole, at + offset),
{
    let k = choose|k: int| at <= k < at + TOKEN_CHARS && !is_token_char(#[trigger] part[k]);
    assert(whole[k + offset] == part[k]);
}

/// A short text behind a break holds no token.
proof fn lemma_short_behind_break(first: Seq<char>, short: Seq<char>)
    requires
        holds_no_token(first),
        first.len() > 0 ==> !is_token_char(first.last()),
        short.len() < TOKEN_CHARS,
    ensures
        holds_no_token(first + short),
{
    let whole = first + short;
    assert forall|at: int| 0 <= at <= whole.len() - TOKEN_CHARS implies #[trigger] has_break(
        whole,
        at,
    ) by {
        if at + TOKEN_CHARS <= first.len() {
            assert(has_break(first, at));
            assert(whole.subrange(0, first.len() as int) =~= first);
            lemma_break_stays(first, whole, at, 0);
        } else {
            assert(whole[first.len() - 1] == first.last());
        }
    }
}

/// Two texts without tokens hold none with a break between them.
pub proof fn lemma_join_around_break(first: Seq<char>, between: char, second: Seq<char>)
    requires
        holds_no_token(first),
        holds_no_token(second),
        !is_token_char(between),
    ensures
        holds_no_token(first + seq![between] + second),
{
    let whole = first + seq![between] + second;
    assert forall|at: int| 0 <= at <= whole.len() - TOKEN_CHARS implies #[trigger] has_break(
        whole,
        at,
    ) by {
        if at + TOKEN_CHARS <= first.len() {
            assert(has_break(first, at));
            assert(whole.subrange(0, first.len() as int) =~= first);
            lemma_break_stays(first, whole, at, 0);
        } else if at > first.len() {
            let offset = first.len() as int + 1;
            assert(has_break(second, at - offset));
            assert(whole.subrange(offset, offset + second.len()) =~= second);
            lemma_break_stays(second, whole, at - offset, offset);
        } else {
            assert(whole[first.len() as int] == between);
        }
    }
}

proof fn lemma_scan_holds_no_token(text: Seq<char>)
    ensures
        holds_no_token(run_scan(text).0),
        run_scan(text).0.len() > 0 ==> !is_token_char(run_scan(text).0.last()),
    decreases text.len(),
{
    if text.len() > 0 {
        lemma_scan_holds_no_token(text.drop_last());
        let (shown, run) = run_scan(text.drop_last());
        if !is_token_char(text.last()) {
            lemma_mask_is_short();
            lemma_short_behind_break(shown, shown_run(run));
            let none = Seq::<char>::empty();
            lemma_join_around_break(shown + shown_run(run), text.last(), none);
            assert((shown + shown_run(run)).push(text.last()) =~= shown + shown_run(run)
                + seq![text.last()] + none);
        }
    }
}

proof fn lemma_mask_is_short()
    ensures
        MASK@.len() < TOKEN_CHARS,
{
    reveal_strlit("[redacted]");
}

proof fn lemma_masked_holds_no_token(text: Seq<char>)
    ensures
        holds_no_token(without_tokens(text)),
{
    lemma_scan_holds_no_token(text);
    lemma_mask_is_short();
    lemma_short_behind_break(run_scan(text).0, shown_run(run_scan(text).1));
}

proof fn lemma_line_holds_no_token(line: Seq<char>)
    ensures
        holds_no_token(redacted_line(line)),
{
    match credential_start(lowered(line)) {
        Some(start) => {
            lemma_masked_holds_no_token(line.take(start));
            lemma_mask_is_short();
            lemma_join_around_break(without_tokens(line.take(start)), ' ', MASK@);
        },
        None => {
            lemma_masked_holds_no_token(line);
        },
    }
}

proof fn lemma_joined_holds_no_token(lines: Seq<Seq<char>>)
    requires
        forall|i: int| 0 <= i < lines.len() ==> holds_no_token(#[trigger] lines[i]),
    ensures
        holds_no_token(joined(lines, "\n"@)),
    decreases lines.len(),
{
    if lines.len() > 1 {
        let rest = lines.drop_last();
        assert forall|i: int| 0 <= i < rest.len() implies holds_no_token(#[trigger] rest[i]) by {
            assert(rest[i] == lines[i]);
        }
        lemma_joined_holds_no_token(rest);
        reveal_strlit("\n");
        assert("\n"@ =~= seq!['\n']);
        assert(holds_no_token(lines[lines.len() - 1]));
        lemma_join_around_break(joined(rest, "\n"@), '\n', lines.last());
    } else if lines.len() == 1 {
        assert(holds_no_token(lines[0]));
    }
}

/// Nothing that is long enough to be a token is ever shown.
pub proof fn law_no_token_is_shown(text: Seq<char>)
    ensures
        holds_no_token(redacted(text)),
{
    let lines = split_at_char(text, '\n').map_values(|line: Seq<char>| redacted_line(line));
    assert forall|i: int| 0 <= i < lines.len() implies holds_no_token(#[trigger] lines[i]) by {
        lemma_line_holds_no_token(split_at_char(text, '\n')[i]);
    }
    lemma_joined_holds_no_token(lines);
}

/// The value of a header that carries a credential is not shown: whatever it
/// is, the line is shown as the same.
pub proof fn law_credentials_are_not_shown(start: Seq<char>, value: Seq<char>, other: Seq<char>)
    requires
        announces_credential(lowered(start)),
    ensures
        redacted_line(start + value) == redacted_line(start + other),
{
    lemma_start_of_line(start, value);
    lemma_start_of_line(start, other);
}

proof fn lemma_start_of_line(start: Seq<char>, value: Seq<char>)
    requires
        announces_credential(lowered(start)),
    ensures
        redacted_line(start + value) == redacted_line(start),
{
    let lower = lowered(start);
    let whole = lowered(start + value);
    reveal_strlit("authorization:");
    reveal_strlit("authorization\":");
    reveal_strlit("token:");
    reveal_strlit("token\":");
    reveal_strlit("token=");
    reveal_strlit("bearer ");
    assert(lower.len() > 0);
    assert(credential_start(lower) is Some);
    assert(whole.take(lower.len() as int) =~= lower);
    lemma_start_stays(whole, lower.len() as int);
    lemma_start_bounds(lower);
    let at = credential_start(lower)->0;
    assert((start + value).take(at) =~= start.take(at));
}

/// A line that announces no credential and is too short for a token is shown as
/// it is.
pub proof fn law_short_lines_are_shown(line: Seq<char>)
    requires
        credential_start(lowered(line)) is None,
        line.len() < TOKEN_CHARS,
    ensures
        redacted_line(line) == line,
{
    lemma_short_scan(line);
}

proof fn lemma_short_scan(text: Seq<char>)
    requires
        text.len() < TOKEN_CHARS,
    ensures
        run_scan(text).0 + run_scan(text).1 == text,
    decreases text.len(),
{
    if text.len() > 0 {
        lemma_short_scan(text.drop_last());
        let (shown, run) = run_scan(text.drop_last());
        assert(shown + run == text.drop_last());
        assert(text.drop_last().push(text.last()) =~= text);
        if is_token_char(text.last()) {
            assert(shown + run.push(text.last()) =~= (shown + run).push(text.last()));
        } else {
            assert((shown + run).len() < TOKEN_CHARS);
            assert(shown_run(run) == run);
            assert((shown + run).push(text.last()) + Seq::<char>::empty() =~= (shown + run).push(
                text.last(),
            ));
        }
    } else {
        assert(run_scan(text).0 + run_scan(text).1 =~= text);
    }
}

/// Letters, digits and underscores can be part of a token; no other character of
/// ASCII can.
pub proof fn law_tokens_are_letters_digits_and_underscores(c: char)
    ensures
        0x61 <= c as u32 <= 0x7A ==> is_token_char(c),
        0x41 <= c as u32 <= 0x5A ==> is_token_char(c),
        0x30 <= c as u32 <= 0x39 ==> is_token_char(c),
        c == '_' ==> is_token_char(c),
        !(0x61 <= c as u32 <= 0x7A) && !(0x41 <= c as u32 <= 0x5A) && !(0x30 <= c as u32 <= 0x39)
            && c != '_' ==> !is_token_char(c),
{
}

/// What precedes a credential is a header for one, as text or as JSON, a token
/// that is set, or the word that comes before a bearer token.
pub proof fn law_headers_announce_credentials(text: Seq<char>)
    ensures
        announces_credential(text + "authorization:"@),
        announces_credential(text + "authorization\":"@),
        announces_credential(text + "token:"@),
        announces_credential(text + "token\":"@),
        announces_credential(text + "token="@),
        announces_credential(text + "bearer "@),
        announces_credential(text) ==> finishes_with(text, "authorization:"@) || finishes_with(
            text,
            "authorization\":"@,
        ) || finishes_with(text, "token:"@) || finishes_with(text, "token\":"@) || finishes_with(
            text,
            "token="@,
        ) || finishes_with(text, "bearer "@),
{
    law_parts_of_a_text_are_found(text, "authorization:"@, Seq::empty());
    law_parts_of_a_text_are_found(text, "authorization\":"@, Seq::empty());
    law_parts_of_a_text_are_found(text, "token:"@, Seq::empty());
    law_parts_of_a_text_are_found(text, "token\":"@, Seq::empty());
    law_parts_of_a_text_are_found(text, "token="@, Seq::empty());
    law_parts_of_a_text_are_found(text, "bearer "@, Seq::empty());
}

/// A line is shown up to where the first credential is announced, in whatever
/// case, and a mask stands for the rest.
pub proof fn law_lines_are_shown_up_to_the_credential(start: Seq<char>, value: Seq<char>)
    requires
        start.len() > 0,
        announces_credential(lowered(start)),
        forall|k: int|
            0 < k < start.len() ==> !announces_credential(#[trigger] lowered(start.take(k))),
    ensures
        redacted_line(start + value) == without_tokens(start) + " [redacted]"@,
{
    lemma_start_of_line(start, value);
    reveal_strlit(" [redacted]");
    reveal_strlit("[redacted]");
    let lower = lowered(start);
    let rest = lower.drop_last();
    assert(credential_start(rest) is None) by {
        assert forall|k: int| 0 < k <= rest.len() implies !announces_credential(
            #[trigger] rest.take(k),
        ) by {
            assert(rest.take(k) =~= lowered(start.take(k)));
        }
        lemma_no_start(rest);
    }
    assert(start.take(start.len() as int) =~= start);
    assert(seq![' '] + MASK@ =~= " [redacted]"@);
    assert(without_tokens(start) + seq![' '] + MASK@ =~= without_tokens(start)
        + " [redacted]"@);
}

proof fn lemma_no_start(lower: Seq<char>)
    requires
        forall|k: int| 0 < k <= lower.len() ==> !announces_credential(#[trigger] lower.take(k)),
    ensures
        credential_start(lower) is None,
    decreases lower.len(),
{
    if lower.len() > 0 {
        let rest = lower.drop_last();
        assert forall|k: int| 0 < k <= rest.len() implies !announces_credential(
            #[trigger] rest.take(k),
        ) by {
            assert(rest.take(k) =~= lower.take(k));
        }
        lemma_no_start(rest);
        assert(lower.take(lower.len() as int) =~= lower);
    }
}

/// A line that announces no credential keeps everything but its tokens.
pub proof fn law_other_lines_lose_their_tokens_only(line: Seq<char>)
    requires
        forall|k: int|
            0 < k <= line.len() ==> !announces_credential(#[trigger] lowered(line.take(k))),
    ensures
        redacted_line(line) == without_tokens(line),
{
    let lower = lowered(line);
    assert forall|k: int| 0 < k <= lower.len() implies !announces_credential(
        #[trigger] lower.take(k),
    ) by {
        assert(lower.take(k) =~= lowered(line.take(k)));
    }
    lemma_no_start(lower);
}

/// A run of letters, digits and underscores is masked exactly where it has 32 of
/// them or more. Everything else is shown as it is.
pub proof fn law_long_runs_are_masked(text: Seq<char>, c: char, run: Seq<char>)
    requires
        !is_token_char(c),
        forall|k: int| 0 <= k < run.len() ==> is_token_char(#[trigger] run[k]),
    ensures
        run.len() >= 32 ==> without_tokens(run) == "[redacted]"@,
        run.len() < 32 ==> without_tokens(run) == run,
        run.len() >= 32 ==> without_tokens(text.push(c) + run) == without_tokens(text).push(c)
            + "[redacted]"@,
        run.len() < 32 ==> without_tokens(text.push(c) + run) == without_tokens(text).push(c) + run,
{
    lemma_run_scan(Seq::empty(), run);
    lemma_run_scan(text.push(c), run);
    assert(text.push(c).drop_last() =~= text);
    assert(Seq::<char>::empty() + run =~= run);
    assert(Seq::<char>::empty() + shown_run(run) =~= shown_run(run));
}

proof fn lemma_run_scan(text: Seq<char>, run: Seq<char>)
    requires
        forall|k: int| 0 <= k < run.len() ==> is_token_char(#[trigger] run[k]),
    ensures
        run_scan(text + run) == (run_scan(text).0, run_scan(text).1 + run),
    decreases run.len(),
{
    if run.len() == 0 {
        assert(text + run =~= text);
        assert(run_scan(text).1 + run =~= run_scan(text).1);
    } else {
        let rest = run.drop_last();
        assert(forall|k: int| 0 <= k < rest.len() ==> #[trigger] rest[k] == run[k]);
        lemma_run_scan(text, rest);
        assert((text + run).drop_last() =~= text + rest);
        assert((text + run).last() == run[run.len() - 1]);
        assert((run_scan(text).1 + rest).push(run.last()) =~= run_scan(text).1 + run);
    }
}

/// A text is redacted line by line.
pub proof fn law_texts_are_redacted_by_line(text: Seq<char>, line: Seq<char>)
    requires
        !line.contains('\n'),
    ensures
        redacted(line) == redacted_line(line),
        redacted(text.push('\n') + line) == redacted(text).push('\n') + redacted_line(line),
{
    let show = |line: Seq<char>| redacted_line(line);
    lemma_split_one_piece(line, '\n');
    assert(seq![line].map_values(show) =~= seq![redacted_line(line)]);
    lemma_split_one_more(text, '\n', line);
    lemma_split_nonempty(text, '\n');
    let pieces = split_at_char(text, '\n');
    assert(pieces.push(line).map_values(show) =~= pieces.map_values(show).push(
        redacted_line(line),
    ));
    law_joined_parts_are_separated(pieces.map_values(show), redacted_line(line), "\n"@);
    reveal_strlit("\n");
    assert(redacted(text) + "\n"@ + redacted_line(line) =~= redacted(text).push('\n')
        + redacted_line(line));
}

} // verus!

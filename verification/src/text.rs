//! Character sequences: conversions between strings and vectors of
//! characters, and comparisons against string literals.

use vstd::prelude::*;
use vstd::slice::slice_subrange;

verus! {

/// Whether a character has the Unicode property `White_Space`, as
/// `char::is_whitespace` decides it.
pub uninterp spec fn is_unicode_whitespace(c: char) -> bool;

/// Whether a character is alphabetic or numeric in Unicode, as
/// `char::is_alphanumeric` decides it.
pub uninterp spec fn is_unicode_alphanumeric(c: char) -> bool;

/// The upper-case form of a text in Unicode, as `str::to_uppercase` computes
/// it.
pub uninterp spec fn unicode_uppercase(text: Seq<char>) -> Seq<char>;

/// Calls `char::is_whitespace`. The result is a fixed property of the
/// character; the contract gives it a name and says nothing more of it.
#[verifier::external_body]
pub(crate) fn is_whitespace(c: char) -> (yes: bool)
    ensures
        yes == is_unicode_whitespace(c),
{
    c.is_whitespace()
}

/// Calls `char::is_alphanumeric`. The result is a fixed property of the
/// character; the contract gives it a name and says nothing more of it.
#[verifier::external_body]
pub(crate) fn is_alphanumeric(c: char) -> (yes: bool)
    ensures
        yes == is_unicode_alphanumeric(c),
{
    c.is_alphanumeric()
}

/// Calls `str::to_uppercase`. The result depends on the text alone; the
/// contract gives it a name and says nothing more of it.
#[verifier::external_body]
pub(crate) fn uppercase_string(text: &str) -> (upper: String)
    ensures
        upper@ == unicode_uppercase(text@),
{
    text.to_uppercase()
}

/// Calls `String::push`, which appends one character to a string.
#[verifier::external_body]
pub(crate) fn push_char(text: &mut String, c: char)
    ensures
        final(text)@ == old(text)@.push(c),
{
    text.push(c)
}

/// The characters of a string, in order.
pub fn chars_of(s: &str) -> (chars: Vec<char>)
    ensures
        chars@ == s@,
{
    let n = s.unicode_len();
    let mut chars: Vec<char> = Vec::new();
    let mut i: usize = 0;
    while i < n
        invariant
            n == s@.len(),
            i <= n,
            chars@ == s@.subrange(0, i as int),
        decreases n - i,
    {
        let c = s.get_char(i);
        chars.push(c);
        i = i + 1;
        assert(chars@ =~= s@.subrange(0, i as int));
    }
    assert(s@.subrange(0, n as int) =~= s@);
    chars
}

/// Whether a character sequence spells exactly the given string.
pub fn chars_eq_str(chars: &[char], s: &str) -> (eq: bool)
    ensures
        eq == (chars@ == s@),
{
    let n = s.unicode_len();
    if chars.len() != n {
        return false;
    }
    let mut i: usize = 0;
    while i < n
        invariant
            n == s@.len(),
            chars@.len() == n,
            i <= n,
            chars@.subrange(0, i as int) == s@.subrange(0, i as int),
        decreases n - i,
    {
        if chars[i] != s.get_char(i) {
            return false;
        }
        i = i + 1;
        assert(chars@.subrange(0, i as int) =~= s@.subrange(0, i as int)) by {
            assert(chars@.subrange(0, i as int) =~= chars@.subrange(0, i - 1).push(chars@[i - 1]));
            assert(s@.subrange(0, i as int) =~= s@.subrange(0, i - 1).push(s@[i - 1]));
        }
    }
    assert(chars@.subrange(0, n as int) =~= chars@);
    assert(s@.subrange(0, n as int) =~= s@);
    true
}

/// The string with the given characters, in order.
pub fn string_of(chars: &[char]) -> (text: String)
    ensures
        text@ == chars@,
{
    let mut text = String::new();
    let mut i: usize = 0;
    while i < chars.len()
        invariant
            i <= chars@.len(),
            text@ == chars@.subrange(0, i as int),
        decreases chars@.len() - i,
    {
        push_char(&mut text, chars[i]);
        i = i + 1;
        assert(text@ =~= chars@.subrange(0, i as int));
    }
    assert(chars@.subrange(0, chars@.len() as int) =~= chars@);
    text
}

/// The upper-case form of a text.
pub fn to_uppercase(chars: &[char]) -> (upper: Vec<char>)
    ensures
        upper@ == unicode_uppercase(chars@),
{
    let text = string_of(chars);
    let upper = uppercase_string(text.as_str());
    chars_of(upper.as_str())
}

/// The position of the first character at or after `from` that is not
/// whitespace, or the length if there is none.
pub open spec fn spec_skip_whitespace(text: Seq<char>, from: int) -> int
    decreases text.len() - from,
{
    if from < 0 || from >= text.len() {
        text.len() as int
    } else if is_unicode_whitespace(text[from]) {
        spec_skip_whitespace(text, from + 1)
    } else {
        from
    }
}

/// The end of the text between `from` and `to` once trailing whitespace is
/// left off.
pub open spec fn spec_trim_end_at(text: Seq<char>, from: int, to: int) -> int
    decreases to - from,
{
    if to <= from || to > text.len() {
        from
    } else if is_unicode_whitespace(text[to - 1]) {
        spec_trim_end_at(text, from, to - 1)
    } else {
        to
    }
}

/// The position of the first occurrence of a character at or after `from`,
/// or the length if there is none.
pub open spec fn spec_find_char(text: Seq<char>, from: int, c: char) -> int
    decreases text.len() - from,
{
    if from < 0 || from >= text.len() {
        text.len() as int
    } else if text[from] == c {
        from
    } else {
        spec_find_char(text, from + 1, c)
    }
}

/// The position of the first whitespace character at or after `from`, or
/// the length if there is none.
pub open spec fn spec_find_whitespace(text: Seq<char>, from: int) -> int
    decreases text.len() - from,
{
    if from < 0 || from >= text.len() {
        text.len() as int
    } else if is_unicode_whitespace(text[from]) {
        from
    } else {
        spec_find_whitespace(text, from + 1)
    }
}

/// A text without its leading whitespace.
pub open spec fn spec_trim_start(text: Seq<char>) -> Seq<char> {
    text.subrange(spec_skip_whitespace(text, 0), text.len() as int)
}

/// A text without its leading and trailing whitespace.
pub open spec fn spec_trim(text: Seq<char>) -> Seq<char> {
    let start = spec_skip_whitespace(text, 0);
    text.subrange(start, spec_trim_end_at(text, start, text.len() as int))
}

/// The pieces between the occurrences of a separator, from the piece that
/// began at `start` and has been scanned up to `from`.
pub open spec fn spec_split_from(text: Seq<char>, from: int, start: int, separator: char) -> Seq<
    Seq<char>,
>
    decreases text.len() - from,
{
    if from < 0 || from >= text.len() {
        seq![text.subrange(start, text.len() as int)]
    } else if text[from] == separator {
        seq![text.subrange(start, from)] + spec_split_from(text, from + 1, from + 1, separator)
    } else {
        spec_split_from(text, from + 1, start, separator)
    }
}

/// The pieces of a text between the occurrences of a separator. A text
/// without the separator is one piece, and so is the empty text.
pub open spec fn spec_split(text: Seq<char>, separator: char) -> Seq<Seq<char>> {
    spec_split_from(text, 0, 0, separator)
}

/// The maximal runs of characters that are not whitespace, from the run
/// that began at `start` and has been scanned up to `from`.
pub open spec fn spec_tokens_from(text: Seq<char>, from: int, start: int) -> Seq<Seq<char>>
    decreases text.len() - from,
{
    if from < 0 || from >= text.len() {
        if start < text.len() {
            seq![text.subrange(start, text.len() as int)]
        } else {
            Seq::<Seq<char>>::empty()
        }
    } else if is_unicode_whitespace(text[from]) {
        if start < from {
            seq![text.subrange(start, from)] + spec_tokens_from(text, from + 1, from + 1)
        } else {
            spec_tokens_from(text, from + 1, from + 1)
        }
    } else {
        spec_tokens_from(text, from + 1, start)
    }
}

/// The maximal runs of characters of a text that are not whitespace.
pub open spec fn spec_tokens(text: Seq<char>) -> Seq<Seq<char>> {
    spec_tokens_from(text, 0, 0)
}

/// The texts that a sequence of slices holds.
pub open spec fn texts(pieces: Seq<&[char]>) -> Seq<Seq<char>> {
    Seq::new(pieces.len(), |i: int| pieces[i]@)
}

/// The position of the first character at or after `from` that is not
/// whitespace, or the length if there is none.
pub fn skip_whitespace(text: &[char], from: usize) -> (at: usize)
    requires
        from <= text@.len(),
    ensures
        at == spec_skip_whitespace(text@, from as int),
        from <= at <= text@.len(),
{
    let mut at = from;
    while at < text.len() && is_whitespace(text[at])
        invariant
            from <= at <= text@.len(),
            spec_skip_whitespace(text@, from as int) == spec_skip_whitespace(text@, at as int),
        decreases text@.len() - at,
    {
        at = at + 1;
    }
    at
}

/// The end of the text between `from` and `to` once trailing whitespace is
/// left off.
pub fn trim_end_at(text: &[char], from: usize, to: usize) -> (end: usize)
    requires
        from <= to <= text@.len(),
    ensures
        end == spec_trim_end_at(text@, from as int, to as int),
        from <= end <= to,
{
    let mut end = to;
    while end > from && is_whitespace(text[end - 1])
        invariant
            from <= end <= to,
            to <= text@.len(),
            spec_trim_end_at(text@, from as int, to as int) == spec_trim_end_at(
                text@,
                from as int,
                end as int,
            ),
        decreases end - from,
    {
        end = end - 1;
    }
    end
}

/// The position of the first occurrence of a character at or after `from`,
/// or the length if there is none.
pub fn find_char(text: &[char], from: usize, c: char) -> (at: usize)
    requires
        from <= text@.len(),
    ensures
        at == spec_find_char(text@, from as int, c),
        from <= at <= text@.len(),
        at < text@.len() ==> text@[at as int] == c,
{
    let mut at = from;
    while at < text.len() && text[at] != c
        invariant
            from <= at <= text@.len(),
            spec_find_char(text@, from as int, c) == spec_find_char(text@, at as int, c),
        decreases text@.len() - at,
    {
        at = at + 1;
    }
    at
}

/// The position of the first whitespace character at or after `from`, or
/// the length if there is none.
pub fn find_whitespace(text: &[char], from: usize) -> (at: usize)
    requires
        from <= text@.len(),
    ensures
        at == spec_find_whitespace(text@, from as int),
        from <= at <= text@.len(),
{
    let mut at = from;
    while at < text.len() && !is_whitespace(text[at])
        invariant
            from <= at <= text@.len(),
            spec_find_whitespace(text@, from as int) == spec_find_whitespace(text@, at as int),
        decreases text@.len() - at,
    {
        at = at + 1;
    }
    at
}

/// A text without its leading whitespace.
pub fn trim_start<'a>(text: &'a [char]) -> (trimmed: &'a [char])
    ensures
        trimmed@ == spec_trim_start(text@),
{
    let start = skip_whitespace(text, 0);
    slice_subrange(text, start, text.len())
}

/// A text without its leading and trailing whitespace.
pub fn trim<'a>(text: &'a [char]) -> (trimmed: &'a [char])
    ensures
        trimmed@ == spec_trim(text@),
{
    let start = skip_whitespace(text, 0);
    let end = trim_end_at(text, start, text.len());
    slice_subrange(text, start, end)
}

/// The pieces of a text between the occurrences of a separator.
pub fn split<'a>(text: &'a [char], separator: char) -> (pieces: Vec<&'a [char]>)
    ensures
        texts(pieces@) == spec_split(text@, separator),
        pieces@.len() >= 1,
{
    let mut pieces: Vec<&'a [char]> = Vec::new();
    let mut start: usize = 0;
    let mut at: usize = 0;
    while at < text.len()
        invariant
            start <= at <= text@.len(),
            texts(pieces@) + spec_split_from(text@, at as int, start as int, separator)
                == spec_split(text@, separator),
        decreases text@.len() - at,
    {
        if text[at] == separator {
            let ghost before = pieces@;
            pieces.push(slice_subrange(text, start, at));
            assert(texts(pieces@) =~= texts(before) + seq![text@.subrange(start as int, at as int)]);
            assert(texts(pieces@) + spec_split_from(text@, at + 1, at + 1, separator) =~= texts(
                before,
            ) + spec_split_from(text@, at as int, start as int, separator));
            start = at + 1;
        }
        at = at + 1;
    }
    let ghost before = pieces@;
    pieces.push(slice_subrange(text, start, text.len()));
    assert(texts(pieces@) =~= texts(before) + seq![
        text@.subrange(start as int, text@.len() as int),
    ]);
    pieces
}

/// The maximal runs of characters of a text that are not whitespace.
pub fn tokens<'a>(text: &'a [char]) -> (pieces: Vec<&'a [char]>)
    ensures
        texts(pieces@) == spec_tokens(text@),
{
    let mut pieces: Vec<&'a [char]> = Vec::new();
    let mut start: usize = 0;
    let mut at: usize = 0;
    while at < text.len()
        invariant
            start <= at <= text@.len(),
            texts(pieces@) + spec_tokens_from(text@, at as int, start as int) == spec_tokens(text@),
        decreases text@.len() - at,
    {
        if is_whitespace(text[at]) {
            if start < at {
                let ghost before = pieces@;
                pieces.push(slice_subrange(text, start, at));
                assert(texts(pieces@) =~= texts(before) + seq![
                    text@.subrange(start as int, at as int),
                ]);
                assert(texts(pieces@) + spec_tokens_from(text@, at + 1, at + 1) =~= texts(before)
                    + spec_tokens_from(text@, at as int, start as int));
            }
            start = at + 1;
        }
        at = at + 1;
    }
    if start < text.len() {
        let ghost before = pieces@;
        pieces.push(slice_subrange(text, start, text.len()));
        assert(texts(pieces@) =~= texts(before) + seq![
            text@.subrange(start as int, text@.len() as int),
        ]);
    } else {
        assert(texts(pieces@) + Seq::<Seq<char>>::empty() =~= texts(pieces@));
    }
    pieces
}

/// The pieces put together again with the separator between them.
pub open spec fn spec_join(pieces: Seq<Seq<char>>, separator: char) -> Seq<char>
    decreases pieces.len(),
{
    if pieces.len() == 0 {
        Seq::<char>::empty()
    } else if pieces.len() == 1 {
        pieces[0]
    } else {
        pieces[0] + seq![separator] + spec_join(pieces.drop_first(), separator)
    }
}

/// Whether no piece holds the separator.
pub open spec fn free_of(pieces: Seq<Seq<char>>, separator: char) -> bool {
    forall|i: int, k: int|
        0 <= i < pieces.len() && 0 <= k < pieces[i].len() ==> (#[trigger] pieces[i][k])
            != separator
}

/// What splitting from a position on yields: pieces without the separator
/// that, joined by it, give the text from where the current piece began.
proof fn lemma_split_from(text: Seq<char>, from: int, start: int, separator: char)
    requires
        0 <= start <= from <= text.len(),
        forall|k: int| start <= k < from ==> text[k] != separator,
    ensures
        spec_split_from(text, from, start, separator).len() >= 1,
        free_of(spec_split_from(text, from, start, separator), separator),
        spec_join(spec_split_from(text, from, start, separator), separator) == text.subrange(
            start,
            text.len() as int,
        ),
    decreases text.len() - from,
{
    let pieces = spec_split_from(text, from, start, separator);
    if from >= text.len() {
        assert(pieces[0] == text.subrange(start, text.len() as int));
    } else if text[from] == separator {
        let rest = spec_split_from(text, from + 1, from + 1, separator);
        lemma_split_from(text, from + 1, from + 1, separator);
        let head = text.subrange(start, from);
        assert(pieces =~= seq![head] + rest);
        assert(pieces.drop_first() =~= rest);
        assert(spec_join(pieces, separator) =~= text.subrange(start, text.len() as int));
        assert forall|i: int, k: int|
            0 <= i < pieces.len() && 0 <= k < pieces[i].len() implies (#[trigger] pieces[i][k])
            != separator by {
            if i > 0 {
                assert(pieces[i] == rest[i - 1]);
                assert(rest[i - 1][k] != separator);
            }
        }
    } else {
        lemma_split_from(text, from + 1, start, separator);
    }
}

/// Splitting and joining undo each other: the pieces of a text hold no
/// separator, and joined by the separator they give the text again.
pub proof fn lemma_split_then_join(text: Seq<char>, separator: char)
    ensures
        spec_split(text, separator).len() >= 1,
        free_of(spec_split(text, separator), separator),
        spec_join(spec_split(text, separator), separator) == text,
{
    lemma_split_from(text, 0, 0, separator);
    assert(text.subrange(0, text.len() as int) =~= text);
}

/// Whether every piece is at least one character long and free of
/// whitespace.
pub open spec fn are_words(pieces: Seq<Seq<char>>) -> bool {
    forall|i: int|
        0 <= i < pieces.len() ==> (#[trigger] pieces[i]).len() > 0 && forall|k: int|
            0 <= k < pieces[i].len() ==> !is_unicode_whitespace(#[trigger] pieces[i][k])
}

/// What the runs from a position on are: words, that is, pieces of at least
/// one character without whitespace.
proof fn lemma_tokens_from(text: Seq<char>, from: int, start: int)
    requires
        0 <= start <= from <= text.len(),
        forall|k: int| start <= k < from ==> !is_unicode_whitespace(text[k]),
    ensures
        are_words(spec_tokens_from(text, from, start)),
    decreases text.len() - from,
{
    let pieces = spec_tokens_from(text, from, start);
    if from >= text.len() {
    } else if is_unicode_whitespace(text[from]) {
        let rest = spec_tokens_from(text, from + 1, from + 1);
        lemma_tokens_from(text, from + 1, from + 1);
        if start < from {
            let head = text.subrange(start, from);
            assert(pieces =~= seq![head] + rest);
            assert forall|i: int| 0 <= i < pieces.len() implies (#[trigger] pieces[i]).len() > 0
                && forall|k: int|
                0 <= k < pieces[i].len() ==> !is_unicode_whitespace(#[trigger] pieces[i][k]) by {
                if i > 0 {
                    assert(pieces[i] == rest[i - 1]);
                }
            }
        }
    } else {
        lemma_tokens_from(text, from + 1, start);
    }
}

/// The tokens of a text are words: none is empty and none holds
/// whitespace.
pub proof fn lemma_tokens_are_words(text: Seq<char>)
    ensures
        are_words(spec_tokens(text)),
{
    lemma_tokens_from(text, 0, 0);
}

} // verus!

//! Spelling tokens out.
//!
//! The tokens of a text, spelled out one after the other with a space
//! between them, are a text that has the same tokens.

use vstd::prelude::*;
use crate::common::ErrorView;
use crate::text::alphabetic;
use crate::tokenizer::{
    char_at, is_blank, is_digit, is_word_start, lex, lex_from, lex_one, lex_one_advances,
    number_end, number_end_bounds, origin, shift, spec_escape, spec_is_identifier_char,
    spec_operator, step, string_scan, token_at, word_end, word_end_bounds, word_kind, Lexed,
    Place, StringScan, TokenKind, TokenView,
};

verus! {

/// The characters of `value` from the index `from` on, as they are written
/// inside a string literal: a line feed, a carriage return and a tab are
/// written as escapes.
pub open spec fn escaped(value: Seq<char>, from: int) -> Seq<char>
    decreases value.len() - from,
{
    if from < 0 || from >= value.len() {
        Seq::empty()
    } else if value[from] == '\n' {
        seq!['\\', 'n'] + escaped(value, from + 1)
    } else if value[from] == '\r' {
        seq!['\\', 'r'] + escaped(value, from + 1)
    } else if value[from] == '\t' {
        seq!['\\', 't'] + escaped(value, from + 1)
    } else {
        seq![value[from]] + escaped(value, from + 1)
    }
}

/// The quote with which a string of the given text is written: the double
/// quote, unless the text holds one.
pub open spec fn quote_for(value: Seq<char>) -> char {
    if value.contains('"') {
        '\''
    } else {
        '"'
    }
}

/// A token as it is written in a source text.
pub open spec fn spelled(t: TokenView) -> Seq<char> {
    if t.kind == TokenKind::String {
        seq![quote_for(t.value)] + escaped(t.value, 0) + seq![quote_for(t.value)]
    } else {
        t.value
    }
}

/// The tokens from the index `from` on, spelled out one after the other,
/// with a space after each.
pub open spec fn respelled(tokens: Seq<TokenView>, from: int) -> Seq<char>
    decreases tokens.len() - from,
{
    if from < 0 || from >= tokens.len() {
        Seq::empty()
    } else {
        spelled(tokens[from]) + seq![' '] + respelled(tokens, from + 1)
    }
}

/// Whether two sequences of tokens hold the same kinds and texts, one by
/// one.
pub open spec fn same_texts(a: Seq<TokenView>, b: Seq<TokenView>) -> bool {
    &&& a.len() == b.len()
    &&& forall|i: int|
        0 <= i < a.len() ==> (#[trigger] a[i]).kind == b[i].kind && a[i].value == b[i].value
}

/// The character after the first one of an operator, as the lexer sees it
/// where the operator is followed by a space.
pub open spec fn second(value: Seq<char>) -> Option<char> {
    if value.len() >= 2 {
        Some(value[1])
    } else {
        Some(' ')
    }
}

/// Whether a token is one that the lexer gives: its text is the text of a
/// token of its kind.
pub open spec fn written(t: TokenView) -> bool {
    match t.kind {
        TokenKind::EOF => t.value.len() == 0,
        TokenKind::Number => t.value.len() > 0 && is_digit(t.value[0]) && number_end(
            t.value,
            0,
            false,
        ) == t.value.len(),
        TokenKind::String => forall|i: int|
            0 <= i < t.value.len() ==> #[trigger] t.value[i] != '\\' && t.value[i] != quote_for(
                t.value,
            ),
        TokenKind::Identifier
        | TokenKind::Let
        | TokenKind::Function
        | TokenKind::If
        | TokenKind::Else
        | TokenKind::Return
        | TokenKind::Null
        | TokenKind::True
        | TokenKind::False
        | TokenKind::While
        | TokenKind::For => {
            &&& t.value.len() > 0
            &&& is_word_start(t.value[0])
            &&& !is_blank(t.value[0])
            &&& t.value[0] != '"'
            &&& t.value[0] != '\''
            &&& spec_operator(t.value[0], Some(' ')) is None
            &&& word_end(t.value, 0) == t.value.len()
            &&& word_kind(t.value) == t.kind
        },
        _ => {
            &&& 1 <= t.value.len() <= 2
            &&& spec_operator(t.value[0], second(t.value)) == Some((t.kind, t.value.len() as int))
            &&& !(t.value[0] == '/' && t.value.len() == 2)
        },
    }
}

/// A run of digits with at most one `.` ends in one text where it ends in
/// another, if the two texts hold the same characters over the run and the
/// second text ends behind it or goes on with a character that is no part
/// of a number.
pub proof fn number_run(a: Seq<char>, i: int, b: Seq<char>, j: int, dotted: bool)
    requires
        0 <= i <= a.len(),
        0 <= j,
        j + (number_end(a, i, dotted) - i) <= b.len(),
        forall|k: int|
            0 <= k && i + k < number_end(a, i, dotted) ==> #[trigger] b[j + k] == a[i + k],
        j + (number_end(a, i, dotted) - i) >= b.len() || !(is_digit(
            b[j + (number_end(a, i, dotted) - i)],
        ) || b[j + (number_end(a, i, dotted) - i)] == '.'),
    ensures
        number_end(b, j, dotted) == j + (number_end(a, i, dotted) - i),
    decreases a.len() - i,
{
    number_end_bounds(a, i, dotted);
    if i < a.len() && (is_digit(a[i]) || (a[i] == '.' && !dotted)) {
        let next = dotted || !is_digit(a[i]);
        number_end_bounds(a, i + 1, next);
        assert(number_end(a, i, dotted) == number_end(a, i + 1, next));
        assert(b[j + 0] == a[i + 0]);
        assert forall|k: int|
            0 <= k && (i + 1) + k < number_end(a, i + 1, next) implies #[trigger] b[(j + 1) + k]
            == a[(i + 1) + k] by {
            assert(i + (k + 1) < number_end(a, i, dotted));
            assert(b[j + (k + 1)] == a[i + (k + 1)]);
            assert(j + (k + 1) == (j + 1) + k);
            assert(i + (k + 1) == (i + 1) + k);
        }
        number_run(a, i + 1, b, j + 1, next);
    }
}

/// A run of the characters of a word ends in one text where it ends in
/// another, if the two texts hold the same characters over the run and the
/// second text ends behind it or goes on with a character that is no part
/// of a word.
pub proof fn word_run(a: Seq<char>, i: int, b: Seq<char>, j: int)
    requires
        0 <= i <= a.len(),
        0 <= j,
        j + (word_end(a, i) - i) <= b.len(),
        forall|k: int| 0 <= k && i + k < word_end(a, i) ==> #[trigger] b[j + k] == a[i + k],
        j + (word_end(a, i) - i) >= b.len() || !spec_is_identifier_char(
            b[j + (word_end(a, i) - i)],
        ),
    ensures
        word_end(b, j) == j + (word_end(a, i) - i),
    decreases a.len() - i,
{
    word_end_bounds(a, i);
    if i < a.len() && spec_is_identifier_char(a[i]) {
        word_end_bounds(a, i + 1);
        assert(word_end(a, i) == word_end(a, i + 1));
        assert(b[j + 0] == a[i + 0]);
        assert forall|k: int| 0 <= k && (i + 1) + k < word_end(a, i + 1) implies #[trigger] b[(j
            + 1) + k] == a[(i + 1) + k] by {
            assert(i + (k + 1) < word_end(a, i));
            assert(b[j + (k + 1)] == a[i + (k + 1)]);
            assert(j + (k + 1) == (j + 1) + k);
            assert(i + (k + 1) == (i + 1) + k);
        }
        word_run(a, i + 1, b, j + 1);
    }
}

/// Whether a text holds neither a backslash nor the given quote.
pub open spec fn plain(text: Seq<char>, quote: char) -> bool {
    forall|i: int| 0 <= i < text.len() ==> #[trigger] text[i] != '\\' && text[i] != quote
}

/// The text of a string literal holds neither a backslash nor the quote of
/// the literal.
pub proof fn strings_are_plain(src: Seq<char>, p: Place, quote: char, text: Seq<char>)
    requires
        quote == '"' || quote == '\'',
        plain(text, quote),
    ensures
        string_scan(src, p, quote, text) matches StringScan::Closed { text: whole, .. } ==> plain(
            whole,
            quote,
        ),
    decreases src.len() - p.pos,
{
    if 0 <= p.pos < src.len() && src[p.pos] != quote {
        if src[p.pos] == '\\' {
            if p.pos + 1 < src.len() {
                match spec_escape(src[p.pos + 1]) {
                    Some(k) => {
                        assert(plain(text.push(k), quote));
                        strings_are_plain(src, shift(p, 2), quote, text.push(k));
                    },
                    None => {},
                }
            }
        } else {
            assert(plain(text.push(src[p.pos]), quote));
            strings_are_plain(src, step(p, src[p.pos]), quote, text.push(src[p.pos]));
        }
    }
}

/// A token that the lexer finds is written, and is no `EOF` token.
pub proof fn found_tokens_are_written(src: Seq<char>, p: Place)
    requires
        0 <= p.pos < src.len(),
    ensures
        lex_one(src, p) matches Lexed::Token { token, .. } ==> written(token) && token.kind
            != TokenKind::EOF,
{
    let c = src[p.pos];
    let next = char_at(src, p.pos + 1);
    if is_digit(c) {
        let end = number_end(src, p.pos, false);
        number_end_bounds(src, p.pos, false);
        let value = src.subrange(p.pos, end);
        assert forall|k: int| 0 <= k && p.pos + k < end implies #[trigger] value[0 + k] == src[p.pos
            + k] by {}
        number_run(src, p.pos, value, 0, false);
    } else if is_blank(c) {
    } else if c == '"' || c == '\'' {
        let empty = Seq::<char>::empty();
        assert(plain(empty, c));
        strings_are_plain(src, shift(p, 1), c, empty);
        match string_scan(src, shift(p, 1), c, empty) {
            StringScan::Closed { text, after } => {
                if text.contains('"') {
                    assert(c != '"');
                }
                assert forall|i: int| 0 <= i < text.len() implies #[trigger] text[i] != '\\'
                    && text[i] != quote_for(text) by {
                    if !text.contains('"') {
                        assert(text[i] != '"');
                    }
                }
            },
            _ => {},
        }
    } else if c == '/' && (next == Some('/') || next == Some('*')) {
    } else {
        match spec_operator(c, next) {
            Some((kind, len)) => {
                let value = src.subrange(p.pos, p.pos + len);
                if len == 2 {
                    assert(value[1] == src[p.pos + 1]);
                }
                assert(value[0] == c);
            },
            None => {
                if is_word_start(c) {
                    let end = word_end(src, p.pos);
                    word_end_bounds(src, p.pos);
                    let word = src.subrange(p.pos, end);
                    assert forall|k: int| 0 <= k && p.pos + k < end implies #[trigger] word[0 + k]
                        == src[p.pos + k] by {}
                    word_run(src, p.pos, word, 0);
                    assert(word[0] == c);
                }
            },
        }
    }
}

/// Whether every token of a sequence is written, and none is an `EOF` token
/// but the last, which is one if `closed` says so.
pub open spec fn all_written(tokens: Seq<TokenView>, closed: bool) -> bool {
    &&& closed ==> tokens.len() > 0
    &&& forall|i: int| 0 <= i < tokens.len() ==> written(#[trigger] tokens[i])
    &&& forall|i: int|
        0 <= i < tokens.len() ==> ((#[trigger] tokens[i]).kind == TokenKind::EOF <==> closed && i
            == tokens.len() - 1)
}

/// The tokens of a text are written, and the last of them is the only `EOF`
/// token.
pub proof fn lexed_tokens_are_written(src: Seq<char>, p: Place, done: Seq<TokenView>)
    requires
        0 <= p.pos,
        all_written(done, false),
    ensures
        lex_from(src, p, done) matches Ok(tokens) ==> all_written(tokens, true),
    decreases src.len() - p.pos,
{
    if p.pos < src.len() {
        lex_one_advances(src, p);
        found_tokens_are_written(src, p);
        match lex_one(src, p) {
            Lexed::Token { token, after } => {
                assert(all_written(done.push(token), false));
                lexed_tokens_are_written(src, after, done.push(token));
            },
            Lexed::Skip { after } => {
                lexed_tokens_are_written(src, after, done);
            },
            Lexed::Fail { .. } => {},
        }
    } else {
        let last = token_at(TokenKind::EOF, Seq::empty(), p);
        assert(written(last));
        assert(all_written(done.push(last), true));
    }
}

/// Whether `text` holds the characters of `part` from the index `at` on.
pub open spec fn holds_at(text: Seq<char>, at: int, part: Seq<char>) -> bool {
    &&& 0 <= at
    &&& at + part.len() <= text.len()
    &&& forall|k: int| 0 <= k < part.len() ==> #[trigger] text[at + k] == part[k]
}

/// The inside of a string literal that is written with escapes, and closed
/// by its quote, is read back as the text that was written.
pub proof fn escaped_text_reads_back(
    text: Seq<char>,
    p: Place,
    quote: char,
    value: Seq<char>,
    from: int,
    read: Seq<char>,
)
    requires
        0 <= from <= value.len(),
        quote == '"' || quote == '\'',
        forall|i: int| from <= i < value.len() ==> #[trigger] value[i] != '\\' && value[i] != quote,
        holds_at(text, p.pos, escaped(value, from).push(quote)),
    ensures
        string_scan(text, p, quote, read) matches StringScan::Closed { text: whole, after }
            && whole == read + value.skip(from) && after.pos == p.pos + escaped(value, from).len()
            + 1,
    decreases value.len() - from,
{
    let all = escaped(value, from).push(quote);
    if from == value.len() {
        assert(text[p.pos + 0] == all[0]);
        assert(read + value.skip(from) =~= read);
    } else {
        let c = value[from];
        let rest = escaped(value, from + 1);
        let special = c == '\n' || c == '\r' || c == '\t';
        let width: int = if special { 2 } else { 1 };
        let k = if c == '\n' { 'n' } else if c == '\r' { 'r' } else { 't' };
        let q = if special { shift(p, 2) } else { step(p, c) };
        assert(text[p.pos + 0] == all[0]);
        if special {
            assert(text[p.pos + 1] == all[1]);
            assert(all[0] == '\\' && all[1] == k);
            assert(spec_escape(k) == Some(c));
        } else {
            assert(all[0] == c);
        }
        assert(q.pos == p.pos + width);
        assert(escaped(value, from).len() == width + rest.len());
        assert forall|j: int| 0 <= j < rest.push(quote).len() implies #[trigger] text[q.pos + j]
            == rest.push(quote)[j] by {
            assert(text[p.pos + (j + width)] == all[j + width]);
            assert(p.pos + (j + width) == q.pos + j);
        }
        escaped_text_reads_back(text, q, quote, value, from + 1, read.push(c));
        assert(read.push(c) + value.skip(from + 1) =~= read + value.skip(from));
    }
}

/// A written token that stands in a text, spelled out and followed by a
/// space, is what the lexer finds there, provided that the space is no
/// letter.
pub proof fn token_reads_back(text: Seq<char>, p: Place, t: TokenView)
    requires
        !alphabetic(' '),
        written(t),
        t.kind != TokenKind::EOF,
        holds_at(text, p.pos, spelled(t).push(' ')),
    ensures
        lex_one(text, p) matches Lexed::Token { token, after } && token.kind == t.kind
            && token.value == t.value && after.pos == p.pos + spelled(t).len(),
{
    let part = spelled(t).push(' ');
    let n = spelled(t).len() as int;
    assert(text[p.pos + n] == part[n]);
    match t.kind {
        TokenKind::Number => {
            assert(text[p.pos + 0] == part[0]);
            assert forall|k: int|
                0 <= k && 0 + k < number_end(t.value, 0, false) implies #[trigger] text[p.pos + k]
                == t.value[0 + k] by {
                assert(part[k] == t.value[k]);
            }
            number_run(t.value, 0, text, p.pos, false);
            assert forall|k: int| 0 <= k < n implies text.subrange(p.pos, p.pos + n)[k]
                == #[trigger] t.value[k] by {
                assert(text[p.pos + k] == part[k]);
            }
            assert(text.subrange(p.pos, p.pos + n) =~= t.value);
        },
        TokenKind::String => {
            let quote = quote_for(t.value);
            let inner = escaped(t.value, 0).push(quote);
            assert(text[p.pos + 0] == part[0]);
            let q = shift(p, 1);
            assert forall|j: int| 0 <= j < inner.len() implies #[trigger] text[q.pos + j]
                == inner[j] by {
                assert(text[p.pos + (j + 1)] == part[j + 1]);
                assert(p.pos + (j + 1) == q.pos + j);
            }
            escaped_text_reads_back(text, q, quote, t.value, 0, Seq::empty());
            assert(Seq::<char>::empty() + t.value.skip(0) =~= t.value);
        },
        TokenKind::Identifier
        | TokenKind::Let
        | TokenKind::Function
        | TokenKind::If
        | TokenKind::Else
        | TokenKind::Return
        | TokenKind::Null
        | TokenKind::True
        | TokenKind::False
        | TokenKind::While
        | TokenKind::For => {
            assert(text[p.pos + 0] == part[0]);
            assert forall|k: int|
                0 <= k && 0 + k < word_end(t.value, 0) implies #[trigger] text[p.pos + k]
                == t.value[0 + k] by {
                assert(part[k] == t.value[k]);
            }
            word_run(t.value, 0, text, p.pos);
            assert forall|k: int| 0 <= k < n implies text.subrange(p.pos, p.pos + n)[k]
                == #[trigger] t.value[k] by {
                assert(text[p.pos + k] == part[k]);
            }
            assert(text.subrange(p.pos, p.pos + n) =~= t.value);
        },
        _ => {
            assert(text[p.pos + 0] == part[0]);
            assert(text[p.pos + 1] == part[1]);
            assert(char_at(text, p.pos + 1) == second(t.value));
            assert forall|k: int| 0 <= k < n implies text.subrange(p.pos, p.pos + n)[k]
                == #[trigger] t.value[k] by {
                assert(text[p.pos + k] == part[k]);
            }
            assert(text.subrange(p.pos, p.pos + n) =~= t.value);
        },
    }
}

/// Lexing the written tokens of a sequence, spelled out from the index
/// `from` on, gives tokens of the same kinds and texts, after the tokens
/// that were read before.
pub proof fn tokens_read_back(
    text: Seq<char>,
    p: Place,
    tokens: Seq<TokenView>,
    from: int,
    done: Seq<TokenView>,
)
    requires
        !alphabetic(' '),
        all_written(tokens, true),
        0 <= from < tokens.len(),
        holds_at(text, p.pos, respelled(tokens, from)),
        text.len() == p.pos + respelled(tokens, from).len(),
    ensures
        lex_from(text, p, done) matches Ok(again) && again.len() == done.len() + tokens.len()
            - from && (forall|i: int| 0 <= i < done.len() ==> #[trigger] again[i] == done[i])
            && (forall|i: int|
            from <= i < tokens.len() ==> (#[trigger] again[done.len() + i - from]).kind
                == tokens[i].kind && again[done.len() + i - from].value == tokens[i].value),
    decreases tokens.len() - from,
{
    let t = tokens[from];
    let all = respelled(tokens, from);
    let rest = respelled(tokens, from + 1);
    let n = spelled(t).len() as int;
    assert(all == spelled(t) + seq![' '] + rest);
    assert(text[p.pos + n] == all[n]);
    if from == tokens.len() - 1 {
        assert(rest.len() == 0);
        let after = step(p, ' ');
        assert(lex_one(text, p) == Lexed::Skip { after });
        let again = done.push(token_at(TokenKind::EOF, Seq::empty(), after));
        assert(lex_from(text, after, done) == Ok::<Seq<TokenView>, ErrorView>(again));
        assert(lex_from(text, p, done) == lex_from(text, after, done));
        assert(again[done.len() + from - from] == again[done.len() as int]);
    } else {
        assert forall|k: int| 0 <= k < spelled(t).push(' ').len() implies #[trigger] text[p.pos + k]
            == spelled(t).push(' ')[k] by {
            assert(all[k] == spelled(t).push(' ')[k]);
        }
        token_reads_back(text, p, t);
        let token = lex_one(text, p)->token;
        let after = lex_one(text, p)->Token_after;
        let q = step(after, ' ');
        assert(lex_from(text, p, done) == lex_from(text, after, done.push(token)));
        assert(lex_one(text, after) == Lexed::Skip { after: q });
        assert(lex_from(text, after, done.push(token)) == lex_from(text, q, done.push(token)));
        assert forall|k: int| 0 <= k < rest.len() implies #[trigger] text[q.pos + k] == rest[k] by {
            assert(text[p.pos + (n + 1 + k)] == all[n + 1 + k]);
            assert(p.pos + (n + 1 + k) == q.pos + k);
        }
        tokens_read_back(text, q, tokens, from + 1, done.push(token));
        let again = lex_from(text, q, done.push(token))->Ok_0;
        assert forall|i: int| 0 <= i < done.len() implies #[trigger] again[i] == done[i] by {
            assert(again[i] == done.push(token)[i]);
        }
        assert forall|i: int| from <= i < tokens.len() implies (#[trigger] again[done.len() + i
            - from]).kind == tokens[i].kind && again[done.len() + i - from].value
            == tokens[i].value by {
            if i == from {
                assert(again[done.len() as int] == done.push(token)[done.len() as int]);
            } else {
                assert(done.len() + i - from == done.push(token).len() + i - (from + 1));
            }
        }
    }
}

/// The lexer reads its own tokens back: where a text has tokens, the text
/// that spells them out one after the other, with a space after each, has
/// tokens of the same kinds and texts in the same order. It is stated for a
/// space that is no letter, and for a spelling short enough to be a text.
pub proof fn spelled_tokens_read_back(src: Seq<char>)
    requires
        !alphabetic(' '),
        lex(src) is Ok,
        respelled(lex(src)->Ok_0, 0).len() < usize::MAX,
    ensures
        lex(respelled(lex(src)->Ok_0, 0)) matches Ok(again) && same_texts(again, lex(src)->Ok_0),
{
    let tokens = lex(src)->Ok_0;
    let text = respelled(tokens, 0);
    assert(all_written(Seq::<TokenView>::empty(), false));
    lexed_tokens_are_written(src, origin(), Seq::empty());
    tokens_read_back(text, origin(), tokens, 0, Seq::empty());
    let again = lex(text)->Ok_0;
    assert forall|i: int| 0 <= i < again.len() implies (#[trigger] again[i]).kind
        == tokens[i].kind && again[i].value == tokens[i].value by {
        assert(again[0 + i - 0].kind == tokens[i].kind);
    }
}

} // verus!

//! PGN movetext scanning.
//!
//! A PGN record is a sequence of tag pairs followed by movetext. Expansion
//! only needs the mainline SAN tokens, so the scanner skips tag pairs
//! (`[...]`), brace and rest-of-line comments (`{...}`, `;...`), variations
//! (`(...)`, nested, comment-aware), numeric annotation glyphs (`$n`),
//! move numbers (digits followed by dots, possibly glued to the next token),
//! game termination markers (tokens starting with a digit, such as the
//! result, and `*`), stray annotation characters (`!`, `?`) and whitespace.
//! What remains, chunks of token characters, are the mainline SAN tokens in
//! order.

use vstd::prelude::*;

verus! {

pub open spec fn is_pgn_space(c: char) -> bool {
    c == ' ' || c == '\t' || c == '\n' || c == '\r'
}

pub open spec fn is_pgn_digit(c: char) -> bool {
    '0' <= c && c <= '9'
}

/// Characters that may stand inside a SAN token. Everything that opens or
/// closes a skipped region, annotates a move, or separates tokens is out.
pub open spec fn is_token_char(c: char) -> bool {
    !is_pgn_space(c) && c != '[' && c != ']' && c != '{' && c != '}' && c != '(' && c != ')'
        && c != ';' && c != '$' && c != '!' && c != '?' && c != '*' && c != '.'
}

/// Index just past the first occurrence of `stop` at or after `i`
/// (or the end of the input).
pub open spec fn skip_past(s: Seq<char>, i: int, stop: char) -> int
    decreases s.len() - i,
{
    if i < 0 || i >= s.len() {
        s.len() as int
    } else if s[i] == stop {
        i + 1
    } else {
        skip_past(s, i + 1, stop)
    }
}

pub proof fn lemma_skip_past_bounds(s: Seq<char>, i: int, stop: char)
    requires
        0 <= i <= s.len(),
    ensures
        i <= skip_past(s, i, stop) <= s.len(),
    decreases s.len() - i,
{
    if i < s.len() && s[i] != stop {
        lemma_skip_past_bounds(s, i + 1, stop);
    }
}

/// Index just past the first index at or after `i` whose character is not a
/// decimal digit.
pub open spec fn skip_digits(s: Seq<char>, i: int) -> int
    decreases s.len() - i,
{
    if i < 0 || i >= s.len() {
        s.len() as int
    } else if is_pgn_digit(s[i]) {
        skip_digits(s, i + 1)
    } else {
        i
    }
}

pub proof fn lemma_skip_digits_bounds(s: Seq<char>, i: int)
    requires
        0 <= i <= s.len(),
    ensures
        i <= skip_digits(s, i) <= s.len(),
    decreases s.len() - i,
{
    if i < s.len() && is_pgn_digit(s[i]) {
        lemma_skip_digits_bounds(s, i + 1);
    }
}

/// Index of the first index at or after `i` whose character is not a dot.
pub open spec fn skip_dots(s: Seq<char>, i: int) -> int
    decreases s.len() - i,
{
    if i < 0 || i >= s.len() {
        s.len() as int
    } else if s[i] == '.' {
        skip_dots(s, i + 1)
    } else {
        i
    }
}

pub proof fn lemma_skip_dots_bounds(s: Seq<char>, i: int)
    requires
        0 <= i <= s.len(),
    ensures
        i <= skip_dots(s, i) <= s.len(),
    decreases s.len() - i,
{
    if i < s.len() && s[i] == '.' {
        lemma_skip_dots_bounds(s, i + 1);
    }
}

/// Index of the first index at or after `i` whose character cannot stand in
/// a SAN token.
pub open spec fn token_end(s: Seq<char>, i: int) -> int
    decreases s.len() - i,
{
    if i < 0 || i >= s.len() {
        s.len() as int
    } else if is_token_char(s[i]) {
        token_end(s, i + 1)
    } else {
        i
    }
}

pub proof fn lemma_token_end_bounds(s: Seq<char>, i: int)
    requires
        0 <= i <= s.len(),
    ensures
        i <= token_end(s, i) <= s.len(),
    decreases s.len() - i,
{
    if i < s.len() && is_token_char(s[i]) {
        lemma_token_end_bounds(s, i + 1);
    }
}

/// Index just past the point where a variation opened before `i` closes.
/// `depth` counts the parentheses still open; brace and rest-of-line
/// comments inside the variation may hold unbalanced parentheses and are
/// skipped whole.
pub open spec fn skip_variation(s: Seq<char>, i: int, depth: int) -> int
    decreases s.len() - i,
    via skip_variation_dec
{
    if i < 0 || i >= s.len() || depth <= 0 {
        if depth <= 0 && 0 <= i <= s.len() {
            i
        } else {
            s.len() as int
        }
    } else if s[i] == '(' {
        skip_variation(s, i + 1, depth + 1)
    } else if s[i] == ')' {
        skip_variation(s, i + 1, depth - 1)
    } else if s[i] == '{' {
        skip_variation(s, skip_past(s, i + 1, '}'), depth)
    } else if s[i] == ';' {
        skip_variation(s, skip_past(s, i + 1, '\n'), depth)
    } else {
        skip_variation(s, i + 1, depth)
    }
}

#[via_fn]
proof fn skip_variation_dec(s: Seq<char>, i: int, depth: int) {
    if 0 <= i < s.len() && depth > 0 {
        lemma_skip_past_bounds(s, i + 1, '}');
        lemma_skip_past_bounds(s, i + 1, '\n');
    }
}

pub proof fn lemma_skip_variation_bounds(s: Seq<char>, i: int, depth: int)
    requires
        0 <= i <= s.len(),
    ensures
        i <= skip_variation(s, i, depth) <= s.len(),
    decreases s.len() - i,
{
    if 0 <= i < s.len() && depth > 0 {
        if s[i] == '{' {
            lemma_skip_past_bounds(s, i + 1, '}');
            lemma_skip_variation_bounds(s, skip_past(s, i + 1, '}'), depth);
        } else if s[i] == ';' {
            lemma_skip_past_bounds(s, i + 1, '\n');
            lemma_skip_variation_bounds(s, skip_past(s, i + 1, '\n'), depth);
        } else {
            lemma_skip_variation_bounds(s, i + 1, if s[i] == '(' { depth + 1 } else if s[i] == ')' { depth - 1 } else { depth });
        }
    }
}

/// The mainline SAN tokens of the input from index `i` on.
pub open spec fn tokens_from(s: Seq<char>, i: int) -> Seq<Seq<char>>
    decreases s.len() - i,
    via tokens_from_dec
{
    if i < 0 || i >= s.len() {
        Seq::empty()
    } else {
        let c = s[i];
        if c == '[' {
            tokens_from(s, skip_past(s, i + 1, ']'))
        } else if c == '{' {
            tokens_from(s, skip_past(s, i + 1, '}'))
        } else if c == ';' {
            tokens_from(s, skip_past(s, i + 1, '\n'))
        } else if c == '(' {
            tokens_from(s, skip_variation(s, i + 1, 1))
        } else if c == '$' {
            tokens_from(s, skip_digits(s, i + 1))
        } else if is_pgn_digit(c) {
            let j = skip_digits(s, i + 1);
            if j < s.len() && s[j] == '.' {
                tokens_from(s, skip_dots(s, j))
            } else {
                tokens_from(s, token_end(s, j))
            }
        } else if is_token_char(c) {
            let j = token_end(s, i + 1);
            seq![s.subrange(i, j)] + tokens_from(s, j)
        } else {
            tokens_from(s, i + 1)
        }
    }
}

#[via_fn]
proof fn tokens_from_dec(s: Seq<char>, i: int) {
    if 0 <= i < s.len() {
        lemma_skip_past_bounds(s, i + 1, ']');
        lemma_skip_past_bounds(s, i + 1, '}');
        lemma_skip_past_bounds(s, i + 1, '\n');
        lemma_skip_variation_bounds(s, i + 1, 1);
        lemma_skip_digits_bounds(s, i + 1);
        lemma_skip_dots_bounds(s, skip_digits(s, i + 1));
        lemma_token_end_bounds(s, skip_digits(s, i + 1));
        lemma_token_end_bounds(s, i + 1);
        if is_pgn_digit(s[i]) {
            let j = skip_digits(s, i + 1);
            if j < s.len() && s[j] == '.' {
                assert(skip_dots(s, j) == skip_dots(s, j + 1));
                lemma_skip_dots_bounds(s, j + 1);
            }
        }
    }
}

/// The mainline SAN tokens of a whole PGN record.
pub open spec fn san_tokens_of(s: Seq<char>) -> Seq<Seq<char>> {
    tokens_from(s, 0)
}

fn skip_past_exec(s: &Vec<char>, start: usize, stop: char) -> (j: usize)
    requires
        start <= s@.len(),
    ensures
        j == skip_past(s@, start as int, stop),
        start <= j <= s@.len(),
{
    proof {
        lemma_skip_past_bounds(s@, start as int, stop);
    }
    let mut i: usize = start;
    while i < s.len() && s[i] != stop
        invariant
            start <= i <= s@.len(),
            skip_past(s@, start as int, stop) == skip_past(s@, i as int, stop),
        decreases s@.len() - i,
    {
        i = i + 1;
    }
    if i < s.len() {
        i + 1
    } else {
        i
    }
}

fn skip_digits_exec(s: &Vec<char>, start: usize) -> (j: usize)
    requires
        start <= s@.len(),
    ensures
        j == skip_digits(s@, start as int),
        start <= j <= s@.len(),
{
    proof {
        lemma_skip_digits_bounds(s@, start as int);
    }
    let mut i: usize = start;
    while i < s.len() && '0' <= s[i] && s[i] <= '9'
        invariant
            start <= i <= s@.len(),
            skip_digits(s@, start as int) == skip_digits(s@, i as int),
        decreases s@.len() - i,
    {
        i = i + 1;
    }
    i
}

fn skip_dots_exec(s: &Vec<char>, start: usize) -> (j: usize)
    requires
        start <= s@.len(),
    ensures
        j == skip_dots(s@, start as int),
        start <= j <= s@.len(),
{
    proof {
        lemma_skip_dots_bounds(s@, start as int);
    }
    let mut i: usize = start;
    while i < s.len() && s[i] == '.'
        invariant
            start <= i <= s@.len(),
            skip_dots(s@, start as int) == skip_dots(s@, i as int),
        decreases s@.len() - i,
    {
        i = i + 1;
    }
    i
}

fn is_token_char_exec(c: char) -> (r: bool)
    ensures
        r == is_token_char(c),
{
    !(c == ' ' || c == '\t' || c == '\n' || c == '\r' || c == '[' || c == ']' || c == '{'
        || c == '}' || c == '(' || c == ')' || c == ';' || c == '$' || c == '!' || c == '?'
        || c == '*' || c == '.')
}

fn token_end_exec(s: &Vec<char>, start: usize) -> (j: usize)
    requires
        start <= s@.len(),
    ensures
        j == token_end(s@, start as int),
        start <= j <= s@.len(),
{
    proof {
        lemma_token_end_bounds(s@, start as int);
    }
    let mut i: usize = start;
    while i < s.len() && is_token_char_exec(s[i])
        invariant
            start <= i <= s@.len(),
            token_end(s@, start as int) == token_end(s@, i as int),
        decreases s@.len() - i,
    {
        i = i + 1;
    }
    i
}

fn skip_variation_exec(s: &Vec<char>, start: usize) -> (j: usize)
    requires
        1 <= start <= s@.len(),
    ensures
        j == skip_variation(s@, start as int, 1),
        start <= j <= s@.len(),
{
    proof {
        lemma_skip_variation_bounds(s@, start as int, 1);
    }
    let mut i: usize = start;
    let mut depth: usize = 1;
    while depth > 0 && i < s.len()
        invariant
            start <= i <= s@.len(),
            depth <= i,
            skip_variation(s@, start as int, 1) == skip_variation(s@, i as int, depth as int),
        decreases s@.len() - i,
    {
        let c = s[i];
        if c == '(' {
            depth = depth + 1;
            i = i + 1;
        } else if c == ')' {
            depth = depth - 1;
            i = i + 1;
        } else if c == '{' {
            i = skip_past_exec(s, i + 1, '}');
        } else if c == ';' {
            i = skip_past_exec(s, i + 1, '\n');
        } else {
            i = i + 1;
        }
    }
    if depth == 0 {
        i
    } else {
        s.len()
    }
}

/// Extracts the mainline SAN tokens of a PGN record given as characters.
pub fn san_tokens(s: &Vec<char>) -> (toks: Vec<Vec<char>>)
    ensures
        toks.deep_view() == san_tokens_of(s@),
{
    let mut toks: Vec<Vec<char>> = Vec::new();
    let mut i: usize = 0;
    proof {
        assert(toks.deep_view() + tokens_from(s@, 0) =~= san_tokens_of(s@));
    }
    while i < s.len()
        invariant
            i <= s@.len(),
            toks.deep_view() + tokens_from(s@, i as int) == san_tokens_of(s@),
        decreases s@.len() - i,
    {
        let c = s[i];
        if c == '[' {
            i = skip_past_exec(s, i + 1, ']');
        } else if c == '{' {
            i = skip_past_exec(s, i + 1, '}');
        } else if c == ';' {
            i = skip_past_exec(s, i + 1, '\n');
        } else if c == '(' {
            i = skip_variation_exec(s, i + 1);
        } else if c == '$' {
            i = skip_digits_exec(s, i + 1);
        } else if '0' <= c && c <= '9' {
            let j = skip_digits_exec(s, i + 1);
            if j < s.len() && s[j] == '.' {
                i = skip_dots_exec(s, j);
            } else {
                i = token_end_exec(s, j);
            }
        } else if is_token_char_exec(c) {
            let j = token_end_exec(s, i + 1);
            let mut tok: Vec<char> = Vec::new();
            let mut k: usize = i;
            while k < j
                invariant
                    i <= k <= j <= s@.len(),
                    tok@ == s@.subrange(i as int, k as int),
                decreases j - k,
            {
                let ghost prev = tok@;
                tok.push(s[k]);
                proof {
                    assert(tok@ =~= s@.subrange(i as int, k as int + 1));
                }
                k = k + 1;
            }
            let ghost prev_toks = toks.deep_view();
            toks.push(tok);
            proof {
                assert(tok.deep_view() =~= tok@);
                assert(toks.deep_view() =~= prev_toks.push(tok@));
                assert(toks.deep_view() + tokens_from(s@, j as int) =~= prev_toks + (seq![
                    s@.subrange(i as int, token_end(s@, i as int + 1)),
                ] + tokens_from(s@, token_end(s@, i as int + 1))));
            }
            i = j;
        } else {
            i = i + 1;
        }
    }
    proof {
        assert(toks.deep_view() + tokens_from(s@, i as int) =~= toks.deep_view());
    }
    toks
}

} // verus!

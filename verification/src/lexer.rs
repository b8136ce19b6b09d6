//! The tokenizer: it cuts a source text into words, numbers and single
//! symbols, and drops the white space between them.

use vstd::prelude::*;
use crate::token::{Token, TokenType, TokenView};

verus! {

/// An ASCII letter.
pub open spec fn is_letter(c: char) -> bool {
    ('a' <= c && c <= 'z') || ('A' <= c && c <= 'Z')
}

/// An ASCII digit.
pub open spec fn is_digit(c: char) -> bool {
    '0' <= c && c <= '9'
}

/// A character with the Unicode property White_Space.
pub open spec fn is_space(c: char) -> bool {
    let n = c as u32;
    (0x09 <= n && n <= 0x0D) || n == 0x20 || n == 0x85 || n == 0xA0 || n == 0x1680 || (0x2000 <= n
        && n <= 0x200A) || n == 0x2028 || n == 0x2029 || n == 0x202F || n == 0x205F || n == 0x3000
}

/// The end of the run of letters and digits that begins at index `i`.
pub open spec fn word_end(s: Seq<char>, i: int) -> int
    decreases s.len() - i,
{
    if 0 <= i < s.len() && (is_letter(s[i]) || is_digit(s[i])) {
        word_end(s, i + 1)
    } else {
        i
    }
}

/// The end of the run of digits that begins at index `i`.
pub open spec fn digits_end(s: Seq<char>, i: int) -> int
    decreases s.len() - i,
{
    if 0 <= i < s.len() && is_digit(s[i]) {
        digits_end(s, i + 1)
    } else {
        i
    }
}

/// The class of the token that begins with the character `c`.
pub open spec fn kind_of(c: char) -> TokenType {
    if is_letter(c) {
        TokenType::Word
    } else if is_digit(c) {
        TokenType::Number
    } else {
        TokenType::Single
    }
}

/// The end of the token that begins at index `i`. A word is a letter
/// and the letters and digits behind it. A number is a run of digits; a
/// dot with at least one digit behind it, and the digits behind that,
/// belong to it too. Any other character is a token by itself.
pub open spec fn token_end(s: Seq<char>, i: int) -> int {
    if is_letter(s[i]) {
        word_end(s, i + 1)
    } else if is_digit(s[i]) {
        let whole = digits_end(s, i + 1);
        if whole < s.len() && s[whole] == '.' && digits_end(s, whole + 1) > whole + 1 {
            digits_end(s, whole + 1)
        } else {
            whole
        }
    } else {
        i + 1
    }
}

/// A run ends at or behind the index where it begins, and inside the text.
pub proof fn lemma_run_ends(s: Seq<char>, i: int)
    requires
        0 <= i <= s.len(),
    ensures
        i <= word_end(s, i) <= s.len(),
        i <= digits_end(s, i) <= s.len(),
    decreases s.len() - i,
{
    if i < s.len() {
        lemma_run_ends(s, i + 1);
    }
}

/// A token is not empty and ends inside the text.
pub proof fn lemma_token_end(s: Seq<char>, i: int)
    requires
        0 <= i < s.len(),
    ensures
        i < token_end(s, i) <= s.len(),
{
    lemma_run_ends(s, i + 1);
    let whole = digits_end(s, i + 1);
    if whole < s.len() {
        lemma_run_ends(s, whole + 1);
    }
}

/// The tokens of the text from index `i` on.
pub open spec fn tokens_from(s: Seq<char>, i: int) -> Seq<TokenView>
    decreases s.len() - i,
{
    if i < 0 || i >= s.len() {
        Seq::empty()
    } else if is_space(s[i]) {
        tokens_from(s, i + 1)
    } else {
        proof {
            lemma_token_end(s, i);
        }
        seq![TokenView { kind: kind_of(s[i]), text: s.subrange(i, token_end(s, i)) }] + tokens_from(
            s,
            token_end(s, i),
        )
    }
}

/// The tokens of a text.
pub open spec fn tokens_of(s: Seq<char>) -> Seq<TokenView> {
    tokens_from(s, 0)
}

/// The values of a sequence of tokens.
pub open spec fn tokens_view<'a>(tokens: Seq<Token<'a>>) -> Seq<TokenView> {
    tokens.map_values(|t: Token<'a>| t@)
}

/// Whether the scan that begins at index `j` comes to index `p`: the scan
/// goes from a white space character to the next index, and from the
/// beginning of a token to its end.
pub open spec fn scan_reaches(s: Seq<char>, j: int, p: int) -> bool
    decreases p - j,
{
    if j >= p {
        j == p
    } else if j < 0 || j >= s.len() {
        false
    } else if is_space(s[j]) {
        scan_reaches(s, j + 1, p)
    } else if token_end(s, j) > p {
        false
    } else {
        proof {
            lemma_token_end(s, j);
        }
        scan_reaches(s, token_end(s, j), p)
    }
}

/// A white space character in front of index `p` leaves the runs that end
/// at or before `p` as they are.
pub proof fn lemma_runs_before(s: Seq<char>, p: int, w: char, j: int)
    requires
        0 <= j <= p <= s.len(),
        is_space(w),
    ensures
        word_end(s, j) <= p ==> word_end(s.insert(p, w), j) == word_end(s, j),
        digits_end(s, j) <= p ==> digits_end(s.insert(p, w), j) == digits_end(s, j),
    decreases p - j,
{
    let t = s.insert(p, w);
    lemma_run_ends(s, j);
    if j < p {
        assert(t[j] == s[j]);
        lemma_runs_before(s, p, w, j + 1);
    } else {
        assert(t[p] == w);
    }
}

/// A white space character in front of index `p` moves the runs behind
/// `p` by one place.
pub proof fn lemma_runs_behind(s: Seq<char>, p: int, w: char, i: int)
    requires
        0 <= p <= i <= s.len(),
    ensures
        word_end(s.insert(p, w), i + 1) == word_end(s, i) + 1,
        digits_end(s.insert(p, w), i + 1) == digits_end(s, i) + 1,
    decreases s.len() - i,
{
    let t = s.insert(p, w);
    if i < s.len() {
        assert(t[i + 1] == s[i]);
        lemma_runs_behind(s, p, w, i + 1);
    }
}

/// A white space character in front of index `p` moves the tokens behind
/// `p` by one place and changes none.
pub proof fn lemma_tokens_behind(s: Seq<char>, p: int, w: char, i: int)
    requires
        0 <= p <= i <= s.len(),
    ensures
        tokens_from(s.insert(p, w), i + 1) == tokens_from(s, i),
    decreases s.len() - i,
{
    let t = s.insert(p, w);
    if i < s.len() {
        assert(t[i + 1] == s[i]);
        if is_space(s[i]) {
            lemma_tokens_behind(s, p, w, i + 1);
        } else {
            lemma_token_end(s, i);
            lemma_runs_behind(s, p, w, i + 1);
            let whole = digits_end(s, i + 1);
            lemma_run_ends(s, i + 1);
            if whole < s.len() {
                assert(t[whole + 1] == s[whole]);
                lemma_runs_behind(s, p, w, whole + 1);
            }
            let end = token_end(s, i);
            assert(token_end(t, i + 1) == end + 1);
            assert(t.subrange(i + 1, end + 1) =~= s.subrange(i, end));
            lemma_tokens_behind(s, p, w, end);
        }
    }
}

/// A white space character in front of index `p`, where a token ends or
/// begins, changes no token in front of `p`.
pub proof fn lemma_tokens_before(s: Seq<char>, p: int, w: char, j: int)
    requires
        0 <= j <= p <= s.len(),
        is_space(w),
        scan_reaches(s, j, p),
    ensures
        tokens_from(s.insert(p, w), j) == tokens_from(s, j),
    decreases p - j,
{
    let t = s.insert(p, w);
    if j == p {
        assert(t[p] == w);
        lemma_tokens_behind(s, p, w, p);
    } else {
        assert(t[j] == s[j]);
        if is_space(s[j]) {
            lemma_tokens_before(s, p, w, j + 1);
        } else {
            lemma_token_end(s, j);
            let end = token_end(s, j);
            lemma_runs_before(s, p, w, j + 1);
            lemma_run_ends(s, j + 1);
            let whole = digits_end(s, j + 1);
            if is_digit(s[j]) {
                if whole < p {
                    assert(t[whole] == s[whole]);
                    lemma_run_ends(s, whole + 1);
                    lemma_runs_before(s, p, w, whole + 1);
                } else {
                    assert(t[p] == w);
                }
            }
            assert(token_end(t, j) == end);
            assert(t.subrange(j, end) =~= s.subrange(j, end));
            lemma_tokens_before(s, p, w, end);
        }
    }
}

/// White space between tokens does not matter: a white space character put
/// where a token ends or begins, in front of the text or behind it, changes
/// no token.
pub proof fn law_white_space_between_tokens(s: Seq<char>, p: int, w: char)
    requires
        0 <= p <= s.len(),
        is_space(w),
        scan_reaches(s, 0, p),
    ensures
        tokens_of(s.insert(p, w)) == tokens_of(s),
{
    lemma_tokens_before(s, p, w, 0);
}

/// Whether `c` is an ASCII letter.
pub fn letter(c: char) -> (r: bool)
    ensures
        r == is_letter(c),
{
    ('a' <= c && c <= 'z') || ('A' <= c && c <= 'Z')
}

/// Whether `c` is an ASCII digit.
pub fn digit(c: char) -> (r: bool)
    ensures
        r == is_digit(c),
{
    '0' <= c && c <= '9'
}

/// Whether `c` is white space.
pub fn space(c: char) -> (r: bool)
    ensures
        r == is_space(c),
{
    let n: u32 = c as u32;
    (0x09 <= n && n <= 0x0D) || n == 0x20 || n == 0x85 || n == 0xA0 || n == 0x1680 || (0x2000 <= n
        && n <= 0x200A) || n == 0x2028 || n == 0x2029 || n == 0x202F || n == 0x205F || n == 0x3000
}

/// The characters of a text.
fn chars_of(s: &str) -> (r: Vec<char>)
    ensures
        r@ == s@,
{
    let n = s.unicode_len();
    let mut out: Vec<char> = Vec::new();
    let mut i: usize = 0;
    while i < n
        invariant
            i <= n,
            n == s@.len(),
            out@ == s@.take(i as int),
        decreases n - i,
    {
        out.push(s.get_char(i));
        assert(s@.take(i as int).push(s@[i as int]) =~= s@.take(i + 1));
        i += 1;
    }
    assert(s@.take(n as int) =~= s@);
    out
}

/// The end of the run of digits that begins at index `i`.
fn skip_digits(chars: &Vec<char>, i: usize) -> (r: usize)
    requires
        i <= chars@.len(),
    ensures
        r == digits_end(chars@, i as int),
        i <= r <= chars@.len(),
{
    let mut j = i;
    while j < chars.len() && digit(chars[j])
        invariant
            i <= j <= chars@.len(),
            digits_end(chars@, i as int) == digits_end(chars@, j as int),
        decreases chars@.len() - j,
    {
        j += 1;
    }
    j
}

/// The end of the run of letters and digits that begins at index `i`.
fn skip_word(chars: &Vec<char>, i: usize) -> (r: usize)
    requires
        i <= chars@.len(),
    ensures
        r == word_end(chars@, i as int),
        i <= r <= chars@.len(),
{
    let mut j = i;
    while j < chars.len() && (letter(chars[j]) || digit(chars[j]))
        invariant
            i <= j <= chars@.len(),
            word_end(chars@, i as int) == word_end(chars@, j as int),
        decreases chars@.len() - j,
    {
        j += 1;
    }
    j
}

/// Cuts a text into its tokens, in order, without the white space.
pub fn lex<'a>(s: &'a str) -> (r: Vec<Token<'a>>)
    ensures
        tokens_view(r@) == tokens_of(s@),
{
    let chars = chars_of(s);
    let n = chars.len();
    let mut tokens: Vec<Token<'a>> = Vec::new();
    let mut i: usize = 0;
    assert(tokens_view(tokens@) =~= Seq::<TokenView>::empty());
    while i < n
        invariant
            i <= n,
            n == chars@.len(),
            chars@ == s@,
            tokens_of(s@) == tokens_view(tokens@) + tokens_from(s@, i as int),
        decreases n - i,
    {
        let c = chars[i];
        if space(c) {
            i += 1;
        } else {
            proof {
                lemma_token_end(s@, i as int);
            }
            let mut token_type = TokenType::Single;
            let mut end = i + 1;
            if letter(c) {
                token_type = TokenType::Word;
                end = skip_word(&chars, i + 1);
            } else if digit(c) {
                token_type = TokenType::Number;
                end = skip_digits(&chars, i + 1);
                if end < n && chars[end] == '.' {
                    let fraction = skip_digits(&chars, end + 1);
                    if fraction > end + 1 {
                        end = fraction;
                    }
                }
            }
            let ghost before = tokens_view(tokens@);
            let token = Token::new(token_type, s.substring_char(i, end));
            tokens.push(token);
            assert(tokens_view(tokens@) =~= before.push(token@));
            assert(before.push(token@) + tokens_from(s@, end as int) =~= before + (seq![token@]
                + tokens_from(s@, end as int)));
            i = end;
        }
    }
    assert(tokens_view(tokens@) + tokens_from(s@, n as int) =~= tokens_view(tokens@));
    tokens
}

} // verus!

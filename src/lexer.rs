//! Line-oriented tokeniser of the netlist language.
//!
//! The token stream is described by spec functions over the input's
//! characters: after blanks and comments are skipped, the token that starts
//! at a position ends where `token_end` says, and its text is exactly the
//! characters in between.

use vstd::prelude::*;
use crate::error::DslError;

verus! {

/// The class of a token.
#[derive(Debug, Clone, Copy, PartialEq, Eq, Structural)]
pub enum TokenKind {
    /// A name of a component, node, model or parameter.
    Identifier,
    /// A number, possibly signed, with fraction, exponent and unit suffix.
    Number,
    /// A word introduced by '.'.
    Directive,
    OpenParen,
    CloseParen,
    Equals,
    Newline,
    /// The end of the input.
    Eof,
}

/// A token with its text and the 1-based line and column of its first
/// character.
#[derive(Debug, Clone, PartialEq)]
pub struct Token {
    pub kind: TokenKind,
    pub text: String,
    pub line: usize,
    pub column: usize,
}

/// Whether `char::is_alphabetic` holds of a character (Unicode property).
pub uninterp spec fn alphabetic(c: char) -> bool;

/// Whether `char::is_alphanumeric` holds of a character (Unicode property).
pub uninterp spec fn alphanumeric(c: char) -> bool;

/// Relies on `char::is_alphabetic`: the Unicode Alphabetic property of `c`;
/// `char::is_alphanumeric` is documented to hold of every such character.
#[verifier::external_body]
fn char_is_alphabetic(c: char) -> (r: bool)
    ensures
        r == alphabetic(c),
        r ==> alphanumeric(c),
{
    c.is_alphabetic()
}

/// Relies on `char::is_alphanumeric`: Alphabetic or Numeric in Unicode.
#[verifier::external_body]
fn char_is_alphanumeric(c: char) -> (r: bool)
    ensures
        r == alphanumeric(c),
{
    c.is_alphanumeric()
}

/// Relies on `String::push`, which appends one character.
pub assume_specification[ String::push ](s: &mut String, ch: char)
    ensures
        final(s)@ == old(s)@.push(ch),
;

pub open spec fn is_digit(c: char) -> bool {
    '0' <= c && c <= '9'
}

pub open spec fn is_blank(c: char) -> bool {
    c == ' ' || c == '\t' || c == '\r'
}

pub open spec fn is_comment_start(c: char) -> bool {
    c == '#' || c == ';'
}

pub open spec fn is_sign(c: char) -> bool {
    c == '-' || c == '+'
}

/// The engineering suffixes p, n, u, µ, m, k, K, M and G.
pub open spec fn is_unit_suffix(c: char) -> bool {
    c == 'p' || c == 'n' || c == 'u' || c == 'µ' || c == 'm' || c == 'k' || c == 'K' || c
        == 'M' || c == 'G'
}

pub open spec fn is_ident_char(c: char) -> bool {
    alphanumeric(c) || c == '_'
}

/// Whether a character begins an identifier. Every alphabetic character is
/// alphanumeric too (see `char_is_alphabetic`), so the second conjunct only
/// records that fact.
pub open spec fn starts_identifier(c: char) -> bool {
    (alphabetic(c) && alphanumeric(c)) || c == '_'
}

/// 1-based line of position `p`.
pub open spec fn line_at(s: Seq<char>, p: int) -> int
    decreases p,
{
    if p <= 0 {
        1
    } else if s[p - 1] == '\n' {
        line_at(s, p - 1) + 1
    } else {
        line_at(s, p - 1)
    }
}

/// 1-based column of position `p`.
pub open spec fn col_at(s: Seq<char>, p: int) -> int
    decreases p,
{
    if p <= 0 {
        1
    } else if s[p - 1] == '\n' {
        1
    } else {
        col_at(s, p - 1) + 1
    }
}

/// First position at or after `p` that holds a newline, or the end.
pub open spec fn line_end(s: Seq<char>, p: int) -> int
    decreases s.len() - p,
{
    if p < 0 || p >= s.len() || s[p] == '\n' {
        p
    } else {
        line_end(s, p + 1)
    }
}

/// Position reached from `p` by skipping blanks and one trailing comment.
pub open spec fn skip_end(s: Seq<char>, p: int) -> int
    decreases s.len() - p,
{
    if p < 0 || p >= s.len() {
        p
    } else if is_blank(s[p]) {
        skip_end(s, p + 1)
    } else if is_comment_start(s[p]) {
        line_end(s, p)
    } else {
        p
    }
}

/// End of the run of identifier characters that starts at `p`.
pub open spec fn ident_end(s: Seq<char>, p: int) -> int
    decreases s.len() - p,
{
    if p < 0 || p >= s.len() || !is_ident_char(s[p]) {
        p
    } else {
        ident_end(s, p + 1)
    }
}

/// End of the run of ASCII digits that starts at `p`.
pub open spec fn digits_end(s: Seq<char>, p: int) -> int
    decreases s.len() - p,
{
    if p < 0 || p >= s.len() || !is_digit(s[p]) {
        p
    } else {
        digits_end(s, p + 1)
    }
}

/// Whether position `p` holds a character satisfying `f`.
pub open spec fn holds_at(s: Seq<char>, p: int, f: spec_fn(char) -> bool) -> bool {
    0 <= p < s.len() && f(s[p])
}

/// End of an optional fraction `.digits` at `p`.
pub open spec fn fraction_end(s: Seq<char>, p: int) -> int {
    if holds_at(s, p, |c: char| c == '.') {
        digits_end(s, p + 1)
    } else {
        p
    }
}

/// End of an optional exponent `e[sign]digits` at `p`.
pub open spec fn exponent_end(s: Seq<char>, p: int) -> int {
    if holds_at(s, p, |c: char| c == 'e' || c == 'E') {
        let q = if holds_at(s, p + 1, |c: char| is_sign(c)) {
            p + 2
        } else {
            p + 1
        };
        digits_end(s, q)
    } else {
        p
    }
}

/// End of an optional unit suffix at `p`.
pub open spec fn suffix_end(s: Seq<char>, p: int) -> int {
    if holds_at(s, p, |c: char| is_unit_suffix(c)) {
        p + 1
    } else {
        p
    }
}

/// End of an unsigned number at `p`: digits, fraction, exponent, suffix.
pub open spec fn unsigned_number_end(s: Seq<char>, p: int) -> int {
    suffix_end(s, exponent_end(s, fraction_end(s, digits_end(s, p))))
}

/// End of a number at `p`, with an optional leading sign.
pub open spec fn number_end(s: Seq<char>, p: int) -> int {
    if holds_at(s, p, |c: char| is_sign(c)) {
        unsigned_number_end(s, p + 1)
    } else {
        unsigned_number_end(s, p)
    }
}

/// Whether a word is a number written without sign, such as `10k`.
pub open spec fn looks_like_number(t: Seq<char>) -> bool {
    t.len() > 0 && is_digit(t[0]) && unsigned_number_end(t, 0) == t.len()
}

/// Whether a character can begin a token.
pub open spec fn starts_token(c: char) -> bool {
    c == '\n' || c == '.' || c == '(' || c == ')' || c == '=' || is_sign(c) || is_digit(c)
        || starts_identifier(c)
}

/// End of the token that starts at `q` (no blank or comment at `q`).
pub open spec fn token_end(s: Seq<char>, q: int) -> int {
    if q >= s.len() {
        q
    } else {
        let c = s[q];
        if c == '\n' || c == '(' || c == ')' || c == '=' {
            q + 1
        } else if c == '.' {
            ident_end(s, q + 1)
        } else if is_sign(c) || is_digit(c) {
            number_end(s, q)
        } else if starts_identifier(c) {
            ident_end(s, q)
        } else {
            q + 1
        }
    }
}

/// Kind of the token that starts at `q`.
pub open spec fn token_kind(s: Seq<char>, q: int) -> TokenKind {
    if q >= s.len() {
        TokenKind::Eof
    } else {
        let c = s[q];
        if c == '\n' {
            TokenKind::Newline
        } else if c == '.' {
            TokenKind::Directive
        } else if c == '(' {
            TokenKind::OpenParen
        } else if c == ')' {
            TokenKind::CloseParen
        } else if c == '=' {
            TokenKind::Equals
        } else if is_sign(c) || is_digit(c) {
            TokenKind::Number
        } else if looks_like_number(s.subrange(q, ident_end(s, q))) {
            TokenKind::Number
        } else {
            TokenKind::Identifier
        }
    }
}

/// Whether `t` is the token that lexing from `p` yields.
pub open spec fn lexed(s: Seq<char>, p: int, t: Token) -> bool {
    let q = skip_end(s, p);
    &&& t.kind == token_kind(s, q)
    &&& t.text@ == s.subrange(q, token_end(s, q))
    &&& t.line == line_at(s, q)
    &&& t.column == col_at(s, q)
}

/// The error that lexing from `p` reports where no token starts.
pub open spec fn lex_error(s: Seq<char>, p: int) -> DslError {
    let q = skip_end(s, p);
    DslError::UnexpectedCharacter {
        line: line_at(s, q) as usize,
        column: col_at(s, q) as usize,
        found: s[q],
    }
}

/// Whether lexing from `p` yields a token rather than an error.
pub open spec fn lexes_at(s: Seq<char>, p: int) -> bool {
    let q = skip_end(s, p);
    q >= s.len() || starts_token(s[q])
}

/// Bounds of the scanning functions: each stays between its start and the end.
pub proof fn lemma_scan_bounds(s: Seq<char>, p: int)
    requires
        0 <= p <= s.len(),
    ensures
        p <= line_end(s, p) <= s.len(),
        p <= skip_end(s, p) <= s.len(),
        p <= ident_end(s, p) <= s.len(),
        p <= digits_end(s, p) <= s.len(),
    decreases s.len() - p,
{
    if p < s.len() {
        lemma_scan_bounds(s, p + 1);
    }
}

/// Bounds of the number scanners.
pub proof fn lemma_number_bounds(s: Seq<char>, p: int)
    requires
        0 <= p <= s.len(),
    ensures
        p <= fraction_end(s, p) <= s.len(),
        p <= exponent_end(s, p) <= s.len(),
        p <= suffix_end(s, p) <= s.len(),
        p <= unsigned_number_end(s, p) <= s.len(),
        p <= number_end(s, p) <= s.len(),
        holds_at(s, p, |c: char| is_sign(c)) ==> p + 1 <= number_end(s, p),
        holds_at(s, p, |c: char| is_digit(c)) ==> p + 1 <= number_end(s, p),
{
    lemma_scan_bounds(s, p);
    if p + 1 <= s.len() {
        lemma_scan_bounds(s, p + 1);
    }
    if p + 2 <= s.len() {
        lemma_scan_bounds(s, p + 2);
    }
    let a = digits_end(s, p);
    lemma_scan_bounds(s, a);
    if a + 1 <= s.len() {
        lemma_scan_bounds(s, a + 1);
    }
    let b = fraction_end(s, a);
    lemma_scan_bounds(s, b);
    if b + 1 <= s.len() {
        lemma_scan_bounds(s, b + 1);
    }
    if b + 2 <= s.len() {
        lemma_scan_bounds(s, b + 2);
    }
    if p + 1 <= s.len() {
        let a1 = digits_end(s, p + 1);
        lemma_scan_bounds(s, a1);
        if a1 + 1 <= s.len() {
            lemma_scan_bounds(s, a1 + 1);
        }
        let b1 = fraction_end(s, a1);
        lemma_scan_bounds(s, b1);
        if b1 + 1 <= s.len() {
            lemma_scan_bounds(s, b1 + 1);
        }
        if b1 + 2 <= s.len() {
            lemma_scan_bounds(s, b1 + 2);
        }
    }
}

/// Line and column of a position never exceed the position plus one.
pub proof fn lemma_line_col_bounds(s: Seq<char>, p: int)
    requires
        0 <= p,
    ensures
        1 <= line_at(s, p) <= p + 1,
        1 <= col_at(s, p) <= p + 1,
    decreases p,
{
    if p > 0 {
        lemma_line_col_bounds(s, p - 1);
    }
}

fn is_digit_char(c: char) -> (r: bool)
    ensures
        r == is_digit(c),
{
    '0' <= c && c <= '9'
}

fn is_unit_suffix_char(c: char) -> (r: bool)
    ensures
        r == is_unit_suffix(c),
{
    c == 'p' || c == 'n' || c == 'u' || c == 'µ' || c == 'm' || c == 'k' || c == 'K' || c
        == 'M' || c == 'G'
}

fn is_ident_char_exec(c: char) -> (r: bool)
    ensures
        r == is_ident_char(c),
{
    char_is_alphanumeric(c) || c == '_'
}

fn scan_line_end(s: &Vec<char>, p: usize) -> (r: usize)
    requires
        p <= s.len(),
    ensures
        r == line_end(s@, p as int),
{
    let mut i: usize = p;
    while i < s.len() && s[i] != '\n'
        invariant
            p <= i <= s.len(),
            line_end(s@, p as int) == line_end(s@, i as int),
        decreases s.len() - i,
    {
        i = i + 1;
    }
    i
}

fn scan_skip_end(s: &Vec<char>, p: usize) -> (r: usize)
    requires
        p <= s.len(),
    ensures
        r == skip_end(s@, p as int),
{
    let mut i: usize = p;
    while i < s.len() && is_blank_char(s[i])
        invariant
            p <= i <= s.len(),
            skip_end(s@, p as int) == skip_end(s@, i as int),
        decreases s.len() - i,
    {
        i = i + 1;
    }
    if i < s.len() && (s[i] == '#' || s[i] == ';') {
        scan_line_end(s, i)
    } else {
        i
    }
}

fn is_blank_char(c: char) -> (r: bool)
    ensures
        r == is_blank(c),
{
    c == ' ' || c == '\t' || c == '\r'
}

fn scan_ident_end(s: &Vec<char>, p: usize) -> (r: usize)
    requires
        p <= s.len(),
    ensures
        r == ident_end(s@, p as int),
{
    let mut i: usize = p;
    while i < s.len() && is_ident_char_exec(s[i])
        invariant
            p <= i <= s.len(),
            ident_end(s@, p as int) == ident_end(s@, i as int),
        decreases s.len() - i,
    {
        i = i + 1;
    }
    i
}

fn scan_digits_end(s: &Vec<char>, p: usize) -> (r: usize)
    requires
        p <= s.len(),
    ensures
        r == digits_end(s@, p as int),
{
    let mut i: usize = p;
    while i < s.len() && is_digit_char(s[i])
        invariant
            p <= i <= s.len(),
            digits_end(s@, p as int) == digits_end(s@, i as int),
        decreases s.len() - i,
    {
        i = i + 1;
    }
    i
}

fn scan_unsigned_number_end(s: &Vec<char>, p: usize) -> (r: usize)
    requires
        p <= s.len(),
    ensures
        r == unsigned_number_end(s@, p as int),
{
    proof {
        lemma_number_bounds(s@, p as int);
        lemma_scan_bounds(s@, p as int);
    }
    let a = scan_digits_end(s, p);
    proof {
        lemma_scan_bounds(s@, a as int);
        if a + 1 <= s.len() {
            lemma_scan_bounds(s@, a + 1);
        }
    }
    let b = if a < s.len() && s[a] == '.' {
        scan_digits_end(s, a + 1)
    } else {
        a
    };
    assert(b == fraction_end(s@, a as int));
    proof {
        lemma_scan_bounds(s@, b as int);
        if b + 1 <= s.len() {
            lemma_scan_bounds(s@, b + 1);
        }
        if b + 2 <= s.len() {
            lemma_scan_bounds(s@, b + 2);
        }
    }
    let e = if b < s.len() && (s[b] == 'e' || s[b] == 'E') {
        let q = if b + 1 < s.len() && (s[b + 1] == '-' || s[b + 1] == '+') {
            b + 2
        } else {
            b + 1
        };
        scan_digits_end(s, q)
    } else {
        b
    };
    assert(e == exponent_end(s@, b as int));
    proof {
        lemma_scan_bounds(s@, e as int);
    }
    let r = if e < s.len() && is_unit_suffix_char(s[e]) {
        e + 1
    } else {
        e
    };
    assert(r == suffix_end(s@, e as int));
    r
}

fn scan_number_end(s: &Vec<char>, p: usize) -> (r: usize)
    requires
        p <= s.len(),
    ensures
        r == number_end(s@, p as int),
{
    if p < s.len() && (s[p] == '-' || s[p] == '+') {
        scan_unsigned_number_end(s, p + 1)
    } else {
        scan_unsigned_number_end(s, p)
    }
}

/// The text of the characters between two positions.
fn text_between(s: &Vec<char>, from: usize, to: usize) -> (r: String)
    requires
        from <= to <= s.len(),
    ensures
        r@ == s@.subrange(from as int, to as int),
{
    let mut r = String::new();
    let mut i: usize = from;
    while i < to
        invariant
            from <= i <= to <= s.len(),
            r@ == s@.subrange(from as int, i as int),
        decreases to - i,
    {
        r.push(s[i]);
        i = i + 1;
        assert(r@ =~= s@.subrange(from as int, i as int));
    }
    r
}

/// The characters of a string, in order.
fn chars_of(t: &str) -> (r: Vec<char>)
    ensures
        r@ == t@,
{
    let n = t.unicode_len();
    let mut r: Vec<char> = Vec::new();
    let mut i: usize = 0;
    while i < n
        invariant
            i <= n,
            n == t@.len(),
            r@ == t@.subrange(0, i as int),
        decreases n - i,
    {
        r.push(t.get_char(i));
        i = i + 1;
        assert(r@ =~= t@.subrange(0, i as int));
    }
    assert(r@ =~= t@);
    r
}

/// Position where lexing of the `k`-th token after position `start_pos` starts.
pub open spec fn nth_pos(s: Seq<char>, start_pos: int, k: nat) -> int
    decreases k,
{
    if k == 0 {
        start_pos
    } else {
        let p = nth_pos(s, start_pos, (k - 1) as nat);
        token_end(s, skip_end(s, p))
    }
}

/// A token that is not the end of input takes at least one character.
pub proof fn lemma_token_progress(s: Seq<char>, p: int)
    requires
        0 <= p <= s.len(),
    ensures
        p <= skip_end(s, p) <= token_end(s, skip_end(s, p)) <= s.len(),
        skip_end(s, p) < s.len() ==> token_end(s, skip_end(s, p)) > p,
{
    lemma_scan_bounds(s, p);
    let q = skip_end(s, p);
    lemma_scan_bounds(s, q);
    lemma_number_bounds(s, q);
    if q + 1 <= s.len() {
        lemma_scan_bounds(s, q + 1);
    }
}

/// Token start positions stay in the input and never move back.
pub proof fn lemma_nth_pos_bounds(s: Seq<char>, start_pos: int, k: nat)
    requires
        0 <= start_pos <= s.len(),
    ensures
        start_pos <= nth_pos(s, start_pos, k) <= s.len(),
        nth_pos(s, start_pos, k) <= nth_pos(s, start_pos, k + 1),
    decreases k,
{
    if k > 0 {
        lemma_nth_pos_bounds(s, start_pos, (k - 1) as nat);
        lemma_token_progress(s, nth_pos(s, start_pos, (k - 1) as nat));
    }
    lemma_token_progress(s, nth_pos(s, start_pos, k));
}

/// The tokens of an input from some position on: every token up to the end
/// of input, which comes last; or, where a character starts no token, the
/// tokens before it and the error it raises.
pub struct TokenStream {
    pub tokens: Vec<Token>,
    pub error: Option<DslError>,
}

/// Whether `t` is the `k`-th token that lexing `s` from `start_pos` yields.
pub open spec fn stream_token(s: Seq<char>, start_pos: int, k: nat, t: Token) -> bool {
    lexes_at(s, nth_pos(s, start_pos, k)) && lexed(s, nth_pos(s, start_pos, k), t)
}

/// Whether `tokens` and `error` are what lexing `s` from `start_pos` gives.
pub open spec fn is_stream_of(s: Seq<char>, start_pos: int, tokens: Seq<Token>, error: Option<DslError>) -> bool {
    &&& forall|k: int| 0 <= k < tokens.len() ==> stream_token(s, start_pos, k as nat, #[trigger] tokens[k])
    &&& forall|k: int|
        0 <= k < tokens.len() && #[trigger] tokens[k].kind == TokenKind::Eof ==> k == tokens.len() - 1
            && error is None
    &&& match error {
        None => tokens.len() >= 1 && tokens[tokens.len() - 1].kind == TokenKind::Eof,
        Some(e) => !lexes_at(s, nth_pos(s, start_pos, tokens.len())) && e == lex_error(
            s,
            nth_pos(s, start_pos, tokens.len()),
        ),
    }
}

/// A tokeniser over the characters of one netlist.
pub struct Lexer {
    chars: Vec<char>,
    pos: usize,
    line: usize,
    column: usize,
}

impl Lexer {
    /// The characters being tokenised.
    pub closed spec fn input(&self) -> Seq<char> {
        self.chars@
    }

    /// Position of the next character to read.
    pub closed spec fn pos(&self) -> int {
        self.pos as int
    }

    /// The position lies in the input and line and column describe it.
    pub closed spec fn wf(&self) -> bool {
        &&& self.pos <= self.chars.len() < usize::MAX
        &&& self.line == line_at(self.chars@, self.pos as int)
        &&& self.column == col_at(self.chars@, self.pos as int)
    }

    /// A lexer at the start of `input`.
    pub fn new(input: &str) -> (r: Lexer)
        requires
            input@.len() < usize::MAX,
        ensures
            r.wf(),
            r.input() == input@,
            r.pos() == 0,
    {
        Lexer { chars: chars_of(input), pos: 0, line: 1, column: 1 }
    }

    /// Offset, in characters, of the next character to read.
    pub fn current_pos(&self) -> (r: usize)
        ensures
            r == self.pos(),
    {
        self.pos
    }

    /// Consumes one character, keeping line and column up to date.
    fn advance(&mut self) -> (r: Option<char>)
        requires
            old(self).wf(),
        ensures
            final(self).wf(),
            final(self).input() == old(self).input(),
            old(self).pos() < old(self).input().len() ==> r == Some(old(self).input()[old(self).pos()])
                && final(self).pos() == old(self).pos() + 1,
            old(self).pos() >= old(self).input().len() ==> r is None && final(self).pos()
                == old(self).pos(),
    {
        if self.pos < self.chars.len() {
            let ch = self.chars[self.pos];
            proof {
                lemma_line_col_bounds(self.chars@, self.pos as int);
            }
            if ch == '\n' {
                self.line = self.line + 1;
                self.column = 1;
            } else {
                self.column = self.column + 1;
            }
            self.pos = self.pos + 1;
            Some(ch)
        } else {
            None
        }
    }

    /// Consumes characters up to position `end`.
    fn advance_to(&mut self, end: usize)
        requires
            old(self).wf(),
            old(self).pos() <= end <= old(self).input().len(),
        ensures
            final(self).wf(),
            final(self).input() == old(self).input(),
            final(self).pos() == end,
    {
        while self.pos < end
            invariant
                self.wf(),
                self.input() == old(self).input(),
                self.pos() <= end <= self.input().len(),
            decreases end - self.pos,
        {
            self.advance();
        }
    }

    /// Skips blanks, and a comment that runs to the end of the line.
    fn skip_whitespace_and_comments(&mut self)
        requires
            old(self).wf(),
        ensures
            final(self).wf(),
            final(self).input() == old(self).input(),
            final(self).pos() == skip_end(old(self).input(), old(self).pos()),
    {
        proof {
            lemma_scan_bounds(self.chars@, self.pos as int);
        }
        let end = scan_skip_end(&self.chars, self.pos);
        self.advance_to(end);
    }

    /// Reads a run of identifier characters.
    fn read_identifier(&mut self) -> (text: String)
        requires
            old(self).wf(),
        ensures
            final(self).wf(),
            final(self).input() == old(self).input(),
            final(self).pos() == ident_end(old(self).input(), old(self).pos()),
            text@ == old(self).input().subrange(old(self).pos(), final(self).pos()),
    {
        proof {
            lemma_scan_bounds(self.chars@, self.pos as int);
        }
        let end = scan_ident_end(&self.chars, self.pos);
        let text = text_between(&self.chars, self.pos, end);
        self.advance_to(end);
        text
    }

    /// Reads a number: sign, digits, fraction, exponent and unit suffix.
    fn read_number(&mut self) -> (text: String)
        requires
            old(self).wf(),
        ensures
            final(self).wf(),
            final(self).input() == old(self).input(),
            final(self).pos() == number_end(old(self).input(), old(self).pos()),
            text@ == old(self).input().subrange(old(self).pos(), final(self).pos()),
    {
        proof {
            lemma_number_bounds(self.chars@, self.pos as int);
        }
        let end = scan_number_end(&self.chars, self.pos);
        let text = text_between(&self.chars, self.pos, end);
        self.advance_to(end);
        text
    }

    /// The next token: after blanks and a comment are skipped, the token
    /// that starts there, or an error naming a character that starts none.
    pub fn next_token(&mut self) -> (r: Result<Token, DslError>)
        requires
            old(self).wf(),
        ensures
            final(self).wf(),
            final(self).input() == old(self).input(),
            ({
                let s = old(self).input();
                let q = skip_end(s, old(self).pos());
                match r {
                    Ok(t) => {
                        &&& lexes_at(s, old(self).pos())
                        &&& lexed(s, old(self).pos(), t)
                        &&& final(self).pos() == token_end(s, q)
                        &&& t.kind != TokenKind::Eof ==> final(self).pos() > old(self).pos()
                    },
                    Err(e) => {
                        &&& !lexes_at(s, old(self).pos())
                        &&& final(self).pos() == q
                        &&& e == lex_error(s, old(self).pos())
                    },
                }
            }),
    {
        self.skip_whitespace_and_comments();
        let ghost s = self.chars@;
        let ghost q = self.pos as int;
        proof {
            lemma_scan_bounds(s, old(self).pos());
            lemma_scan_bounds(s, q);
            lemma_line_col_bounds(s, q);
        }
        let start_line = self.line;
        let start_column = self.column;
        let start = self.pos;
        if self.pos >= self.chars.len() {
            assert(s.subrange(q, q) =~= Seq::<char>::empty());
            return Ok(Token { kind: TokenKind::Eof, text: String::new(), line: start_line, column: start_column });
        }
        let ch = self.chars[self.pos];
        let kind = if ch == '\n' || ch == '(' || ch == ')' || ch == '=' {
            self.advance();
            if ch == '\n' {
                TokenKind::Newline
            } else if ch == '(' {
                TokenKind::OpenParen
            } else if ch == ')' {
                TokenKind::CloseParen
            } else {
                TokenKind::Equals
            }
        } else if ch == '.' {
            self.advance();
            proof {
                lemma_scan_bounds(s, q + 1);
            }
            let _ = self.read_identifier();
            TokenKind::Directive
        } else if ch == '-' || ch == '+' || is_digit_char(ch) {
            proof {
                lemma_number_bounds(s, q);
                lemma_scan_bounds(s, q);
                if q + 1 <= s.len() {
                    lemma_scan_bounds(s, q + 1);
                }
            }
            let _ = self.read_number();
            TokenKind::Number
        } else if char_is_alphabetic(ch) || ch == '_' {
            proof {
                lemma_scan_bounds(s, q + 1);
            }
            let word = self.read_identifier();
            if self.looks_like_number(word.as_str()) {
                TokenKind::Number
            } else {
                TokenKind::Identifier
            }
        } else {
            return Err(DslError::UnexpectedCharacter { line: start_line, column: start_column, found: ch });
        };
        let text = text_between(&self.chars, start, self.pos);
        Ok(Token { kind, text, line: start_line, column: start_column })
    }

    /// The next token, without consuming it.
    pub fn peek_token(&mut self) -> (r: Result<Token, DslError>)
        requires
            old(self).wf(),
        ensures
            final(self).wf(),
            final(self).input() == old(self).input(),
            final(self).pos() == old(self).pos(),
            match r {
                Ok(t) => lexes_at(old(self).input(), old(self).pos()) && lexed(
                    old(self).input(),
                    old(self).pos(),
                    t,
                ),
                Err(e) => !lexes_at(old(self).input(), old(self).pos()) && e == lex_error(
                    old(self).input(),
                    old(self).pos(),
                ),
            },
    {
        let saved_pos = self.pos;
        let saved_line = self.line;
        let saved_column = self.column;
        let r = self.next_token();
        self.pos = saved_pos;
        self.line = saved_line;
        self.column = saved_column;
        r
    }

    /// All remaining tokens, up to the end of input or the first character
    /// that starts no token.
    pub fn tokenize(&mut self) -> (r: TokenStream)
        requires
            old(self).wf(),
        ensures
            final(self).wf(),
            final(self).input() == old(self).input(),
            is_stream_of(old(self).input(), old(self).pos(), r.tokens@, r.error),
    {
        let ghost s = self.chars@;
        let ghost start_pos = self.pos as int;
        let mut tokens: Vec<Token> = Vec::new();
        loop
            invariant
                self.wf(),
                self.input() == s,
                s == old(self).input(),
                start_pos == old(self).pos(),
                0 <= start_pos <= s.len(),
                self.pos() == nth_pos(s, start_pos, tokens.len() as nat),
                forall|k: int|
                    0 <= k < tokens.len() ==> stream_token(s, start_pos, k as nat, #[trigger] tokens@[k]),
                forall|k: int| 0 <= k < tokens.len() ==> #[trigger] tokens@[k].kind != TokenKind::Eof,
            decreases s.len() - self.pos(),
        {
            proof {
                lemma_nth_pos_bounds(s, start_pos, tokens.len() as nat);
            }
            let ghost before = tokens@;
            let ghost p = self.pos();
            match self.next_token() {
                Ok(t) => {
                    let is_eof = t.kind == TokenKind::Eof;
                    assert(lexes_at(s, p) && lexed(s, p, t));
                    assert(p == nth_pos(s, start_pos, before.len() as nat));
                    tokens.push(t);
                    assert(tokens@ == before.push(t));
                    assert(nth_pos(s, start_pos, tokens.len() as nat) == token_end(s, skip_end(s, p)));
                    assert forall|k: int| 0 <= k < tokens.len() implies stream_token(
                        s,
                        start_pos,
                        k as nat,
                        #[trigger] tokens@[k],
                    ) by {
                        if k < before.len() {
                            assert(tokens@[k] == before[k]);
                        } else {
                            assert(k == before.len());
                            assert(tokens@[k] == t);
                        }
                    }
                    if is_eof {
                        return TokenStream { tokens, error: None };
                    }
                },
                Err(e) => {
                    return TokenStream { tokens, error: Some(e) };
                },
            }
        }
    }

    /// Whether a word is an unsigned number with an optional unit suffix.
    pub fn looks_like_number(&self, text: &str) -> (r: bool)
        ensures
            r == looks_like_number(text@),
    {
        let t = chars_of(text);
        if t.len() == 0 {
            return false;
        }
        if !is_digit_char(t[0]) {
            return false;
        }
        scan_unsigned_number_end(&t, 0) == t.len()
    }
}

} // verus!

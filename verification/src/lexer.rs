//! Tokens of the source language and the tokenizer.
use vstd::prelude::*;
use vstd::std_specs::convert::FromSpecImpl;

verus! {

/// A token of the source language.
#[derive(Debug, Clone, Copy, PartialEq, Eq, Structural, Hash)]
pub enum Lexeme {
    Input,
    Output,
    LeftParentheses,
    RightParentheses,
    Plus,
    Equals,
    Loop,
    LeftCurlyBracket,
    RightCurlyBracket,
    Star,
    Comma,
    Semicolon,
    Number(u8),
    If,
    ExclamationMark,
    Minus,
    LeftArrow,
    RightArrow,
    Else,
    While,
    Break,
}

/// The kind of a token: a `Lexeme` without the value that a number carries.
#[derive(Debug, Clone, Copy, PartialEq, Eq, Structural, Hash)]
pub enum LexemeType {
    Input,
    Output,
    LeftParentheses,
    RightParentheses,
    Plus,
    Equals,
    Loop,
    LeftCurlyBracket,
    RightCurlyBracket,
    Star,
    Comma,
    Semicolon,
    Number,
    If,
    ExclamationMark,
    Minus,
    LeftArrow,
    RightArrow,
    Else,
    While,
    Break,
}

impl Lexeme {
    /// The kind of this token.
    pub open spec fn kind(self) -> LexemeType {
        match self {
            Lexeme::Star => LexemeType::Star,
            Lexeme::Input => LexemeType::Input,
            Lexeme::Output => LexemeType::Output,
            Lexeme::LeftParentheses => LexemeType::LeftParentheses,
            Lexeme::RightParentheses => LexemeType::RightParentheses,
            Lexeme::Plus => LexemeType::Plus,
            Lexeme::Equals => LexemeType::Equals,
            Lexeme::Loop => LexemeType::Loop,
            Lexeme::LeftCurlyBracket => LexemeType::LeftCurlyBracket,
            Lexeme::RightCurlyBracket => LexemeType::RightCurlyBracket,
            Lexeme::Comma => LexemeType::Comma,
            Lexeme::Semicolon => LexemeType::Semicolon,
            Lexeme::Number(_) => LexemeType::Number,
            Lexeme::If => LexemeType::If,
            Lexeme::ExclamationMark => LexemeType::ExclamationMark,
            Lexeme::Minus => LexemeType::Minus,
            Lexeme::LeftArrow => LexemeType::LeftArrow,
            Lexeme::RightArrow => LexemeType::RightArrow,
            Lexeme::Else => LexemeType::Else,
            Lexeme::While => LexemeType::While,
            Lexeme::Break => LexemeType::Break,
        }
    }
}

impl LexemeType {
    /// The token of this kind; for a number, the one with value 0.
    pub open spec fn plain(self) -> Lexeme {
        match self {
            LexemeType::Star => Lexeme::Star,
            LexemeType::Input => Lexeme::Input,
            LexemeType::Output => Lexeme::Output,
            LexemeType::LeftParentheses => Lexeme::LeftParentheses,
            LexemeType::RightParentheses => Lexeme::RightParentheses,
            LexemeType::Plus => Lexeme::Plus,
            LexemeType::Equals => Lexeme::Equals,
            LexemeType::Loop => Lexeme::Loop,
            LexemeType::LeftCurlyBracket => Lexeme::LeftCurlyBracket,
            LexemeType::RightCurlyBracket => Lexeme::RightCurlyBracket,
            LexemeType::Comma => Lexeme::Comma,
            LexemeType::Semicolon => Lexeme::Semicolon,
            LexemeType::Number => Lexeme::Number(0),
            LexemeType::If => Lexeme::If,
            LexemeType::ExclamationMark => Lexeme::ExclamationMark,
            LexemeType::Minus => Lexeme::Minus,
            LexemeType::LeftArrow => Lexeme::LeftArrow,
            LexemeType::RightArrow => Lexeme::RightArrow,
            LexemeType::Else => Lexeme::Else,
            LexemeType::While => Lexeme::While,
            LexemeType::Break => Lexeme::Break,
        }
    }
}

impl From<LexemeType> for Lexeme {
    fn from(arg: LexemeType) -> (r: Self) {
        match arg {
            LexemeType::Star => Lexeme::Star,
            LexemeType::Input => Lexeme::Input,
            LexemeType::Output => Lexeme::Output,
            LexemeType::LeftParentheses => Lexeme::LeftParentheses,
            LexemeType::RightParentheses => Lexeme::RightParentheses,
            LexemeType::Plus => Lexeme::Plus,
            LexemeType::Equals => Lexeme::Equals,
            LexemeType::Loop => Lexeme::Loop,
            LexemeType::LeftCurlyBracket => Lexeme::LeftCurlyBracket,
            LexemeType::RightCurlyBracket => Lexeme::RightCurlyBracket,
            LexemeType::Comma => Lexeme::Comma,
            LexemeType::Semicolon => Lexeme::Semicolon,
            LexemeType::Number => Lexeme::Number(0),
            LexemeType::If => Lexeme::If,
            LexemeType::ExclamationMark => Lexeme::ExclamationMark,
            LexemeType::Minus => Lexeme::Minus,
            LexemeType::LeftArrow => Lexeme::LeftArrow,
            LexemeType::RightArrow => Lexeme::RightArrow,
            LexemeType::Else => Lexeme::Else,
            LexemeType::While => Lexeme::While,
            LexemeType::Break => Lexeme::Break,
        }
    }
}

impl FromSpecImpl<LexemeType> for Lexeme {
    open spec fn obeys_from_spec() -> bool {
        true
    }

    open spec fn from_spec(arg: LexemeType) -> Self {
        arg.plain()
    }
}

impl From<Lexeme> for LexemeType {
    fn from(arg: Lexeme) -> (r: Self) {
        match arg {
            Lexeme::Star => LexemeType::Star,
            Lexeme::Input => LexemeType::Input,
            Lexeme::Output => LexemeType::Output,
            Lexeme::LeftParentheses => LexemeType::LeftParentheses,
            Lexeme::RightParentheses => LexemeType::RightParentheses,
            Lexeme::Plus => LexemeType::Plus,
            Lexeme::Equals => LexemeType::Equals,
            Lexeme::Loop => LexemeType::Loop,
            Lexeme::LeftCurlyBracket => LexemeType::LeftCurlyBracket,
            Lexeme::RightCurlyBracket => LexemeType::RightCurlyBracket,
            Lexeme::Comma => LexemeType::Comma,
            Lexeme::Semicolon => LexemeType::Semicolon,
            Lexeme::Number(_) => LexemeType::Number,
            Lexeme::If => LexemeType::If,
            Lexeme::ExclamationMark => LexemeType::ExclamationMark,
            Lexeme::Minus => LexemeType::Minus,
            Lexeme::LeftArrow => LexemeType::LeftArrow,
            Lexeme::RightArrow => LexemeType::RightArrow,
            Lexeme::Else => LexemeType::Else,
            Lexeme::While => LexemeType::While,
            Lexeme::Break => LexemeType::Break,
        }
    }
}

impl FromSpecImpl<Lexeme> for LexemeType {
    open spec fn obeys_from_spec() -> bool {
        true
    }

    open spec fn from_spec(arg: Lexeme) -> Self {
        arg.kind()
    }
}

/// The kind of a token, then back to a token, keeps everything but a
/// number's value.
pub proof fn kind_of_plain(kind: LexemeType)
    ensures
        kind.plain().kind() == kind,
{
}

/// Why a source text could not be turned into tokens.
#[derive(Debug, Clone, PartialEq, Eq)]
pub enum LexError {
    /// No token begins where the text that this holds begins.
    InvalidTokenError(String),
}

/// Whether `c` is white space: a character with the Unicode property
/// White_Space.
pub open spec fn is_whitespace(c: char) -> bool {
    let n = c as u32;
    ||| 0x09 <= n <= 0x0D
    ||| n == 0x20
    ||| n == 0x85
    ||| n == 0xA0
    ||| n == 0x1680
    ||| 0x2000 <= n <= 0x200A
    ||| n == 0x2028
    ||| n == 0x2029
    ||| n == 0x202F
    ||| n == 0x205F
    ||| n == 0x3000
}

/// Whether `c` is one of the digits `0` to `9`.
pub open spec fn is_digit(c: char) -> bool {
    0x30 <= c as u32 <= 0x39
}

/// The first place from `i` on where no white space stands.
pub open spec fn skip_whitespace(s: Seq<char>, i: int) -> int
    decreases s.len() - i,
{
    if 0 <= i < s.len() && is_whitespace(s[i]) {
        skip_whitespace(s, i + 1)
    } else {
        i
    }
}

/// Whether `word` stands in `s` at `i`.
pub open spec fn stands_at(s: Seq<char>, i: int, word: Seq<char>) -> bool {
    0 <= i && i + word.len() <= s.len() && s.subrange(i, i + word.len()) == word
}

/// Where the digits that begin at `i` end.
pub open spec fn digits_end(s: Seq<char>, i: int) -> int
    decreases s.len() - i,
{
    if 0 <= i < s.len() && is_digit(s[i]) {
        digits_end(s, i + 1)
    } else {
        i
    }
}

/// The number that the digits of `s` from `from` up to `to` write.
pub open spec fn number_value(s: Seq<char>, from: int, to: int) -> nat
    decreases to - from,
{
    if to <= from {
        0
    } else {
        number_value(s, from, to - 1) * 10 + (s[to - 1] as u32 - 0x30) as nat
    }
}

/// A token and the place where it ends.
pub type Scanned = Option<(Lexeme, int)>;

/// The token `lexeme` if `word` stands at `i`, else `otherwise`.
pub open spec fn word_or(
    s: Seq<char>,
    i: int,
    word: Seq<char>,
    lexeme: Lexeme,
    otherwise: Scanned,
) -> Scanned {
    if stands_at(s, i, word) {
        Some((lexeme, i + word.len()))
    } else {
        otherwise
    }
}

/// The number that begins at `i`, if digits begin there that write a number
/// of at most 255, else `otherwise`.
pub open spec fn number_or(s: Seq<char>, i: int, otherwise: Scanned) -> Scanned {
    let end = digits_end(s, i);
    if i < end && number_value(s, i, end) <= 255 {
        Some((Lexeme::Number(number_value(s, i, end) as u8), end))
    } else {
        otherwise
    }
}

/// The token that begins at `i`: that of the first rule that applies there,
/// in the order in which the rules stand here.
pub open spec fn token_at(s: Seq<char>, i: int) -> Scanned {
    word_or(s, i, "input"@, Lexeme::Input,
    word_or(s, i, "output"@, Lexeme::Output,
    word_or(s, i, "("@, Lexeme::LeftParentheses,
    word_or(s, i, ")"@, Lexeme::RightParentheses,
    word_or(s, i, "+"@, Lexeme::Plus,
    word_or(s, i, "="@, Lexeme::Equals,
    word_or(s, i, "loop"@, Lexeme::Loop,
    word_or(s, i, "{"@, Lexeme::LeftCurlyBracket,
    word_or(s, i, "}"@, Lexeme::RightCurlyBracket,
    word_or(s, i, "*"@, Lexeme::Star,
    number_or(s, i,
    word_or(s, i, ";"@, Lexeme::Semicolon,
    word_or(s, i, "if"@, Lexeme::If,
    word_or(s, i, "!"@, Lexeme::ExclamationMark,
    word_or(s, i, "-"@, Lexeme::Minus,
    word_or(s, i, "<"@, Lexeme::LeftArrow,
    word_or(s, i, ">"@, Lexeme::RightArrow,
    word_or(s, i, "else"@, Lexeme::Else,
    word_or(s, i, "while"@, Lexeme::While,
    word_or(s, i, "break"@, Lexeme::Break,
    None))))))))))))))))))))
}

/// What tokenizing yields: the tokens, or the text at which no token begins.
pub type Tokenized = Result<Seq<Lexeme>, Seq<char>>;

/// The tokens of `s` from `i` on. Behind the end there are none. Else white
/// space is passed over and a token must begin; where none does, the rest of
/// the text is the failure. Every token takes at least one character, so the
/// place moves on.
pub open spec fn tokens_from(s: Seq<char>, i: int) -> Tokenized
    decreases s.len() - i,
{
    if i < 0 || i >= s.len() {
        Ok(Seq::empty())
    } else {
        let at = skip_whitespace(s, i);
        match token_at(s, at) {
            Some((lexeme, end)) => if i <= at < end <= s.len() {
                match tokens_from(s, end) {
                    Ok(rest) => Ok(seq![lexeme] + rest),
                    Err(e) => Err(e),
                }
            } else {
                Err(s.subrange(at, s.len() as int))
            },
            None => Err(s.subrange(at, s.len() as int)),
        }
    }
}

/// The tokens of the source text `s`.
pub open spec fn tokens_of(s: Seq<char>) -> Tokenized {
    tokens_from(s, 0)
}

/// `done` before what `more` yields.
pub open spec fn tokens_after(done: Seq<Lexeme>, more: Tokenized) -> Tokenized {
    match more {
        Ok(tokens) => Ok(done + tokens),
        Err(e) => Err(e),
    }
}

/// The characters of `source`.
fn chars_of(source: &str) -> (chars: Vec<char>)
    ensures
        chars@ == source@,
{
    let mut chars: Vec<char> = Vec::new();
    for c in it: source.chars()
        invariant
            it.seq() == source@,
            chars@ == it.seq().take(it.index()),
    {
        chars.push(c);
        assert(it.seq().take(it.index() + 1) == it.seq().take(it.index()).push(c));
    }
    assert(source@.take(source@.len() as int) == source@);
    chars
}

/// Whether `c` is white space.
fn white(c: char) -> (b: bool)
    ensures
        b == is_whitespace(c),
{
    let n = c as u32;
    (0x09 <= n && n <= 0x0D) || n == 0x20 || n == 0x85 || n == 0xA0 || n == 0x1680 || (0x2000 <= n
        && n <= 0x200A) || n == 0x2028 || n == 0x2029 || n == 0x202F || n == 0x205F || n == 0x3000
}

/// Whether `c` is a digit.
fn digit(c: char) -> (b: bool)
    ensures
        b == is_digit(c),
{
    let n = c as u32;
    0x30 <= n && n <= 0x39
}

/// Whether `word` stands in `chars` at `i`.
fn word_at(chars: &Vec<char>, i: usize, word: &str) -> (b: bool)
    requires
        i <= chars@.len(),
    ensures
        b == stands_at(chars@, i as int, word@),
{
    let n = word.unicode_len();
    let total = chars.len();
    if n > total - i {
        return false;
    }
    let mut k: usize = 0;
    while k < n
        invariant
            k <= n,
            n == word@.len(),
            total == chars@.len(),
            i + n <= total,
            chars@.subrange(i as int, i + k) == word@.subrange(0, k as int),
        decreases n - k,
    {
        if chars[i + k] != word.get_char(k) {
            assert(chars@.subrange(i as int, i + n)[k as int] != word@[k as int]);
            return false;
        }
        assert(chars@.subrange(i as int, i + k + 1) == chars@.subrange(i as int, i + k).push(
            chars@[i + k],
        ));
        assert(word@.subrange(0, k + 1) == word@.subrange(0, k as int).push(word@[k as int]));
        k = k + 1;
    }
    assert(word@.subrange(0, n as int) == word@);
    true
}

/// The number that begins at `i`, with the place where its digits end.
fn number_at(chars: &Vec<char>, i: usize) -> (r: Option<(u8, usize)>)
    requires
        i <= chars@.len(),
    ensures
        match r {
            Some((value, end)) => i < end <= chars@.len() && end == digits_end(chars@, i as int)
                && value == number_value(chars@, i as int, end as int),
            None => !(i < digits_end(chars@, i as int) && number_value(
                chars@,
                i as int,
                digits_end(chars@, i as int),
            ) <= 255),
        },
{
    let mut end: usize = i;
    let mut value: u32 = 0;
    let mut fits = true;
    while end < chars.len() && digit(chars[end])
        invariant
            i <= end <= chars@.len(),
            digits_end(chars@, i as int) == digits_end(chars@, end as int),
            fits ==> value == number_value(chars@, i as int, end as int) && value <= 255,
            !fits ==> number_value(chars@, i as int, end as int) > 255,
        decreases chars@.len() - end,
    {
        let d = chars[end] as u32 - 0x30;
        if fits {
            value = value * 10 + d;
            if value > 255 {
                fits = false;
            }
        }
        end = end + 1;
    }
    if i < end && fits {
        Some((value as u8, end))
    } else {
        None
    }
}

/// Where `word` ends if it stands in `chars` at `i`.
fn word_end(chars: &Vec<char>, i: usize, word: &str) -> (r: Option<usize>)
    requires
        i <= chars@.len(),
    ensures
        match r {
            Some(end) => stands_at(chars@, i as int, word@) && end == i + word@.len(),
            None => !stands_at(chars@, i as int, word@),
        },
{
    let total = chars.len();
    if word_at(chars, i, word) {
        assert(i + word@.len() <= total);
        Some(i + word.unicode_len())
    } else {
        None
    }
}

/// The token that begins at `i`, with the place where it ends.
fn scan(chars: &Vec<char>, i: usize) -> (r: Option<(Lexeme, usize)>)
    requires
        i <= chars@.len(),
    ensures
        match r {
            Some((lexeme, end)) => token_at(chars@, i as int) == Some((lexeme, end as int)) && i
                < end <= chars@.len(),
            None => token_at(chars@, i as int) is None,
        },
{
    proof {
        reveal_strlit("input");
        reveal_strlit("output");
        reveal_strlit("(");
        reveal_strlit(")");
        reveal_strlit("+");
        reveal_strlit("=");
        reveal_strlit("loop");
        reveal_strlit("{");
        reveal_strlit("}");
        reveal_strlit("*");
        reveal_strlit(";");
        reveal_strlit("if");
        reveal_strlit("!");
        reveal_strlit("-");
        reveal_strlit("<");
        reveal_strlit(">");
        reveal_strlit("else");
        reveal_strlit("while");
        reveal_strlit("break");
    }
    if let Some(end) = word_end(chars, i, "input") {
        return Some((Lexeme::Input, end));
    }
    if let Some(end) = word_end(chars, i, "output") {
        return Some((Lexeme::Output, end));
    }
    if let Some(end) = word_end(chars, i, "(") {
        return Some((Lexeme::LeftParentheses, end));
    }
    if let Some(end) = word_end(chars, i, ")") {
        return Some((Lexeme::RightParentheses, end));
    }
    if let Some(end) = word_end(chars, i, "+") {
        return Some((Lexeme::Plus, end));
    }
    if let Some(end) = word_end(chars, i, "=") {
        return Some((Lexeme::Equals, end));
    }
    if let Some(end) = word_end(chars, i, "loop") {
        return Some((Lexeme::Loop, end));
    }
    if let Some(end) = word_end(chars, i, "{") {
        return Some((Lexeme::LeftCurlyBracket, end));
    }
    if let Some(end) = word_end(chars, i, "}") {
        return Some((Lexeme::RightCurlyBracket, end));
    }
    if let Some(end) = word_end(chars, i, "*") {
        return Some((Lexeme::Star, end));
    }
    if let Some((value, end)) = number_at(chars, i) {
        return Some((Lexeme::Number(value), end));
    }
    if let Some(end) = word_end(chars, i, ";") {
        return Some((Lexeme::Semicolon, end));
    }
    if let Some(end) = word_end(chars, i, "if") {
        return Some((Lexeme::If, end));
    }
    if let Some(end) = word_end(chars, i, "!") {
        return Some((Lexeme::ExclamationMark, end));
    }
    if let Some(end) = word_end(chars, i, "-") {
        return Some((Lexeme::Minus, end));
    }
    if let Some(end) = word_end(chars, i, "<") {
        return Some((Lexeme::LeftArrow, end));
    }
    if let Some(end) = word_end(chars, i, ">") {
        return Some((Lexeme::RightArrow, end));
    }
    if let Some(end) = word_end(chars, i, "else") {
        return Some((Lexeme::Else, end));
    }
    if let Some(end) = word_end(chars, i, "while") {
        return Some((Lexeme::While, end));
    }
    if let Some(end) = word_end(chars, i, "break") {
        return Some((Lexeme::Break, end));
    }
    None
}

/// The first place from `i` on where no white space stands.
fn skip(chars: &Vec<char>, i: usize) -> (at: usize)
    requires
        i <= chars@.len(),
    ensures
        at == skip_whitespace(chars@, i as int),
        i <= at <= chars@.len(),
{
    let mut at: usize = i;
    while at < chars.len() && white(chars[at])
        invariant
            i <= at <= chars@.len(),
            skip_whitespace(chars@, i as int) == skip_whitespace(chars@, at as int),
        decreases chars@.len() - at,
    {
        at = at + 1;
    }
    at
}

/// The text of `source` from its character `from` on.
fn rest_of(source: &str, from: usize) -> (rest: String)
    requires
        from <= source@.len(),
    ensures
        rest@ == source@.subrange(from as int, source@.len() as int),
{
    source.substring_char(from, source.unicode_len()).to_owned()
}

/// The tokens of `source`, in its order; or the rest of the text from the
/// first place on, behind white space, at which no token begins.
pub fn lex(source: &str) -> (r: Result<Vec<Lexeme>, LexError>)
    ensures
        match r {
            Ok(tokens) => tokens_of(source@) == Ok::<Seq<Lexeme>, Seq<char>>(tokens@),
            Err(LexError::InvalidTokenError(rest)) => tokens_of(source@) == Err::<
                Seq<Lexeme>,
                Seq<char>,
            >(rest@),
        },
{
    let chars = chars_of(source);
    let mut out: Vec<Lexeme> = Vec::new();
    let mut i: usize = 0;
    assert(out@ + Seq::<Lexeme>::empty() =~= out@);
    while i < chars.len()
        invariant
            i <= chars@.len(),
            chars@ == source@,
            tokens_of(source@) == tokens_after(out@, tokens_from(chars@, i as int)),
        decreases chars@.len() - i,
    {
        let at = skip(&chars, i);
        match scan(&chars, at) {
            Some((lexeme, end)) => {
                let ghost before = out@;
                out.push(lexeme);
                proof {
                    match tokens_from(chars@, end as int) {
                        Ok(rest) => {
                            assert(before + (seq![lexeme] + rest) =~= out@ + rest);
                        },
                        Err(_) => {},
                    }
                }
                i = end;
            },
            None => {
                return Err(LexError::InvalidTokenError(rest_of(source, at)));
            },
        }
    }
    assert(out@ + Seq::<Lexeme>::empty() =~= out@);
    Ok(out)
}

} // verus!

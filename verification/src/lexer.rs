use vstd::prelude::*;
use crate::number::{decimal_of, digits_end, parse_decimal};
use crate::scalar::Decimal;
use crate::text::is_digit;

verus! {

/// A word of the language. Names and texts are given by where they stand in
/// the source, from `start` up to `end`.
#[derive(Clone, Copy, Debug, PartialEq, Eq, Structural)]
pub enum Token {
    Identifier { start: usize, end: usize },
    /// A text between double quotes, without the quotes.
    Text { start: usize, end: usize },
    Number(Decimal),
    /// The word `system`.
    System,
    LeftParen,
    RightParen,
    LeftBracket,
    RightBracket,
    LeftBrace,
    RightBrace,
    Comma,
    Equals,
    Plus,
    Minus,
    Star,
    Slash,
    /// A line break or a semicolon.
    Separator,
}

pub open spec fn is_space(c: char) -> bool {
    c == ' ' || c == '\t' || c == '\r'
}

pub open spec fn is_letter(c: char) -> bool {
    ('a' <= c <= 'z') || ('A' <= c <= 'Z') || c == '_'
}

pub open spec fn is_word(c: char) -> bool {
    is_letter(c) || is_digit(c)
}

/// The place of the first character from `from` on that is no blank.
pub open spec fn skip_spaces(s: Seq<char>, from: int) -> int
    decreases s.len() - from,
{
    if 0 <= from < s.len() && is_space(s[from]) {
        skip_spaces(s, from + 1)
    } else {
        from
    }
}

/// The place after the letters, digits and underscores from `from` on.
pub open spec fn word_end(s: Seq<char>, from: int) -> int
    decreases s.len() - from,
{
    if 0 <= from < s.len() && is_word(s[from]) {
        word_end(s, from + 1)
    } else {
        from
    }
}

/// The place of the first double quote from `from` on, or the end.
pub open spec fn quote_at(s: Seq<char>, from: int) -> int
    decreases s.len() - from,
{
    if 0 <= from < s.len() && s[from] != '"' {
        quote_at(s, from + 1)
    } else {
        from
    }
}

/// The place after the number that begins at `from`: digits, and after them a
/// point and digits where a digit follows the point.
pub open spec fn number_end(s: Seq<char>, from: int) -> int {
    let int_end = digits_end(s, from);
    if int_end + 1 < s.len() && s[int_end] == '.' && is_digit(s[int_end + 1]) {
        digits_end(s, int_end + 1)
    } else {
        int_end
    }
}

/// A token and the place after it.
pub struct Lexeme {
    pub token: Token,
    pub next: int,
}

/// The token of a single character.
pub open spec fn mark(c: char) -> Option<Token> {
    if c == '\n' || c == ';' {
        Some(Token::Separator)
    } else if c == '(' {
        Some(Token::LeftParen)
    } else if c == ')' {
        Some(Token::RightParen)
    } else if c == '[' {
        Some(Token::LeftBracket)
    } else if c == ']' {
        Some(Token::RightBracket)
    } else if c == '{' {
        Some(Token::LeftBrace)
    } else if c == '}' {
        Some(Token::RightBrace)
    } else if c == ',' {
        Some(Token::Comma)
    } else if c == '=' {
        Some(Token::Equals)
    } else if c == '+' {
        Some(Token::Plus)
    } else if c == '-' {
        Some(Token::Minus)
    } else if c == '*' {
        Some(Token::Star)
    } else if c == '/' {
        Some(Token::Slash)
    } else {
        None
    }
}

/// The token that begins at `i`, where `i` is a place in the text.
pub open spec fn lexeme_at(s: Seq<char>, i: int) -> Option<Lexeme> {
    let c = s[i];
    if mark(c) is Some {
        Some(Lexeme { token: mark(c).unwrap(), next: i + 1 })
    } else if is_digit(c) {
        match decimal_of(s.subrange(i, number_end(s, i))) {
            Some(d) => Some(Lexeme { token: Token::Number(d), next: number_end(s, i) }),
            None => None,
        }
    } else if is_letter(c) {
        if s.subrange(i, word_end(s, i)) == "system"@ {
            Some(Lexeme { token: Token::System, next: word_end(s, i) })
        } else {
            Some(
                Lexeme {
                    token: Token::Identifier { start: i as usize, end: word_end(s, i) as usize },
                    next: word_end(s, i),
                },
            )
        }
    } else if c == '"' && quote_at(s, i + 1) < s.len() {
        Some(
            Lexeme {
                token: Token::Text { start: (i + 1) as usize, end: quote_at(s, i + 1) as usize },
                next: quote_at(s, i + 1) + 1,
            },
        )
    } else {
        None
    }
}

/// The tokens of the text from `from` on, or none where a character fits no
/// token.
pub open spec fn tokens_from(s: Seq<char>, from: int) -> Option<Seq<Token>>
    decreases s.len() - from,
{
    let i = skip_spaces(s, from);
    if i < 0 || i >= s.len() {
        Some(Seq::empty())
    } else {
        match lexeme_at(s, i) {
            Some(lexeme) => if from <= i < lexeme.next <= s.len() {
                match tokens_from(s, lexeme.next) {
                    Some(rest) => Some(seq![lexeme.token] + rest),
                    None => None,
                }
            } else {
                None
            },
            None => None,
        }
    }
}

/// The tokens of a text.
pub open spec fn tokens_of(s: Seq<char>) -> Option<Seq<Token>> {
    tokens_from(s, 0)
}

/// The names and texts among the tokens lie within a text of length `n`.
pub open spec fn within(tokens: Seq<Token>, n: int) -> bool {
    forall|k: int|
        0 <= k < tokens.len() ==> match #[trigger] tokens[k] {
            Token::Identifier { start, end } => start <= end <= n,
            Token::Text { start, end } => start <= end <= n,
            _ => true,
        }
}

fn is_digit_char(c: char) -> (r: bool)
    ensures
        r == is_digit(c),
{
    '0' <= c && c <= '9'
}

fn is_letter_char(c: char) -> (r: bool)
    ensures
        r == is_letter(c),
{
    ('a' <= c && c <= 'z') || ('A' <= c && c <= 'Z') || c == '_'
}

fn mark_of(c: char) -> (r: Option<Token>)
    ensures
        r == mark(c),
{
    if c == '\n' || c == ';' {
        Some(Token::Separator)
    } else if c == '(' {
        Some(Token::LeftParen)
    } else if c == ')' {
        Some(Token::RightParen)
    } else if c == '[' {
        Some(Token::LeftBracket)
    } else if c == ']' {
        Some(Token::RightBracket)
    } else if c == '{' {
        Some(Token::LeftBrace)
    } else if c == '}' {
        Some(Token::RightBrace)
    } else if c == ',' {
        Some(Token::Comma)
    } else if c == '=' {
        Some(Token::Equals)
    } else if c == '+' {
        Some(Token::Plus)
    } else if c == '-' {
        Some(Token::Minus)
    } else if c == '*' {
        Some(Token::Star)
    } else if c == '/' {
        Some(Token::Slash)
    } else {
        None
    }
}

fn scan_digits(s: &Vec<char>, from: usize) -> (r: usize)
    requires
        from <= s@.len(),
    ensures
        r == digits_end(s@, from as int),
        from <= r <= s@.len(),
{
    let mut i: usize = from;
    while i < s.len() && is_digit_char(s[i])
        invariant
            from <= i <= s@.len(),
            digits_end(s@, from as int) == digits_end(s@, i as int),
        decreases s@.len() - i,
    {
        i += 1;
    }
    i
}

fn scan_word(s: &Vec<char>, from: usize) -> (r: usize)
    requires
        from <= s@.len(),
    ensures
        r == word_end(s@, from as int),
        from <= r <= s@.len(),
{
    let mut i: usize = from;
    while i < s.len() && (is_letter_char(s[i]) || is_digit_char(s[i]))
        invariant
            from <= i <= s@.len(),
            word_end(s@, from as int) == word_end(s@, i as int),
        decreases s@.len() - i,
    {
        i += 1;
    }
    i
}

fn scan_quote(s: &Vec<char>, from: usize) -> (r: usize)
    requires
        from <= s@.len(),
    ensures
        r == quote_at(s@, from as int),
        from <= r <= s@.len(),
{
    let mut i: usize = from;
    while i < s.len() && s[i] != '"'
        invariant
            from <= i <= s@.len(),
            quote_at(s@, from as int) == quote_at(s@, i as int),
        decreases s@.len() - i,
    {
        i += 1;
    }
    i
}

fn scan_spaces(s: &Vec<char>, from: usize) -> (r: usize)
    requires
        from <= s@.len(),
    ensures
        r == skip_spaces(s@, from as int),
        from <= r <= s@.len(),
{
    let mut i: usize = from;
    while i < s.len() && (s[i] == ' ' || s[i] == '\t' || s[i] == '\r')
        invariant
            from <= i <= s@.len(),
            skip_spaces(s@, from as int) == skip_spaces(s@, i as int),
        decreases s@.len() - i,
    {
        i += 1;
    }
    i
}

fn copy_range(s: &Vec<char>, from: usize, to: usize) -> (r: Vec<char>)
    requires
        from <= to <= s@.len(),
    ensures
        r@ == s@.subrange(from as int, to as int),
{
    let mut out: Vec<char> = Vec::new();
    let mut i: usize = from;
    while i < to
        invariant
            from <= i <= to <= s@.len(),
            out@ == s@.subrange(from as int, i as int),
        decreases to - i,
    {
        out.push(s[i]);
        i += 1;
        assert(out@ =~= s@.subrange(from as int, i as int));
    }
    out
}

fn is_system_word(s: &Vec<char>, from: usize, to: usize) -> (r: bool)
    requires
        from <= to <= s@.len(),
    ensures
        r == (s@.subrange(from as int, to as int) == "system"@),
{
    proof {
        reveal_strlit("system");
    }
    let ghost word = s@.subrange(from as int, to as int);
    if to - from != 6 {
        assert(word.len() != 6);
        return false;
    }
    let r = s[from] == 's' && s[from + 1] == 'y' && s[from + 2] == 's' && s[from + 3] == 't' && s[from + 4] == 'e'
        && s[from + 5] == 'm';
    proof {
        if r {
            assert(word =~= "system"@);
        } else {
            assert(word[0] == s@[from as int] && word[1] == s@[from + 1] && word[2] == s@[from + 2] && word[3]
                == s@[from + 3] && word[4] == s@[from + 4] && word[5] == s@[from + 5]);
        }
    }
    r
}

fn lexeme(s: &Vec<char>, i: usize) -> (r: Option<(Token, usize)>)
    requires
        i < s@.len(),
    ensures
        match r {
            Some((token, next)) => lexeme_at(s@, i as int) == Some(Lexeme { token, next: next as int }) && i < next
                <= s@.len() && within(seq![token], s@.len() as int),
            None => lexeme_at(s@, i as int) is None,
        },
{
    let n = s.len();
    let c = s[i];
    match mark_of(c) {
        Some(token) => {
            return Some((token, i + 1));
        },
        None => {},
    }
    if is_digit_char(c) {
        let int_end = scan_digits(s, i + 1);
        assert(digits_end(s@, i as int) == digits_end(s@, i + 1));
        let end = if int_end < n && int_end + 1 < n && s[int_end] == '.' && is_digit_char(s[int_end + 1]) {
            scan_digits(s, int_end + 1)
        } else {
            int_end
        };
        let text = copy_range(s, i, end);
        match parse_decimal(&text) {
            Some(d) => Some((Token::Number(d), end)),
            None => None,
        }
    } else if is_letter_char(c) {
        let end = scan_word(s, i + 1);
        assert(word_end(s@, i as int) == word_end(s@, i + 1));
        if is_system_word(s, i, end) {
            Some((Token::System, end))
        } else {
            Some((Token::Identifier { start: i, end }, end))
        }
    } else if c == '"' {
        let end = scan_quote(s, i + 1);
        if end < s.len() {
            Some((Token::Text { start: i + 1, end }, end + 1))
        } else {
            None
        }
    } else {
        None
    }
}

/// Cuts a text into tokens.
pub fn tokenize(s: &Vec<char>) -> (r: Option<Vec<Token>>)
    ensures
        match r {
            Some(tokens) => tokens_of(s@) == Some(tokens@) && within(tokens@, s@.len() as int),
            None => tokens_of(s@) is None,
        },
{
    let mut tokens: Vec<Token> = Vec::new();
    let mut i: usize = 0;
    loop
        invariant
            i <= s@.len(),
            within(tokens@, s@.len() as int),
            tokens_of(s@) == match tokens_from(s@, i as int) {
                Some(rest) => Some(tokens@ + rest),
                None => None,
            },
        decreases s@.len() - i,
    {
        proof {
            assert(tokens@ + Seq::<Token>::empty() =~= tokens@);
        }
        let j = scan_spaces(s, i);
        if j >= s.len() {
            assert(tokens@ + Seq::<Token>::empty() =~= tokens@);
            return Some(tokens);
        }
        match lexeme(s, j) {
            Some((token, next)) => {
                proof {
                    let before = tokens@;
                    assert forall|rest: Seq<Token>| before + (seq![token] + rest) == before.push(token) + rest by {
                        assert(before + (seq![token] + rest) =~= before.push(token) + rest);
                    }
                }
                tokens.push(token);
                i = next;
            },
            None => {
                return None;
            },
        }
    }
}

} // verus!

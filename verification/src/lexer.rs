//! The lexer: source text to tokens.
use crate::text::{
    byte_offset, cat3, char_width, from_chars, lemma_byte_offset_monotone, lemma_byte_offset_step,
    same, to_chars,
};
use crate::token::{Span, Token, TokenView};
use vstd::prelude::*;
use vstd::utf8::encode_utf8;

verus! {

/// Blanks between tokens.
pub open spec fn is_space(c: char) -> bool {
    c == ' ' || c == '\t' || c == '\n' || c == '\r'
}

/// A decimal digit.
pub open spec fn is_digit(c: char) -> bool {
    '0' <= c <= '9'
}

/// A letter or the underscore: what a name starts with.
pub open spec fn is_name_start(c: char) -> bool {
    'a' <= c <= 'z' || 'A' <= c <= 'Z' || c == '_'
}

/// What a name goes on with.
pub open spec fn is_name_char(c: char) -> bool {
    is_name_start(c) || is_digit(c)
}

/// The end of the longest run of characters from `i` on that satisfy `p`.
pub open spec fn run_end(s: Seq<char>, i: int, p: spec_fn(char) -> bool) -> int
    decreases s.len() - i,
{
    if 0 <= i < s.len() && p(s[i]) {
        run_end(s, i + 1, p)
    } else {
        i
    }
}

/// A run ends between its start and the end of the text.
pub proof fn lemma_run_end(s: Seq<char>, i: int, p: spec_fn(char) -> bool)
    ensures
        i <= run_end(s, i, p),
        i <= s.len() ==> run_end(s, i, p) <= s.len(),
        i >= s.len() ==> run_end(s, i, p) == i,
        forall|k: int| i <= k < run_end(s, i, p) ==> p(#[trigger] s[k]),
        0 <= i && run_end(s, i, p) < s.len() ==> !p(s[run_end(s, i, p)]),
    decreases s.len() - i,
{
    if 0 <= i < s.len() && p(s[i]) {
        lemma_run_end(s, i + 1, p);
    }
}

/// The end of the blanks from `i` on.
pub open spec fn space_end(s: Seq<char>, i: int) -> int {
    run_end(s, i, |c: char| is_space(c))
}

/// The end of the digits from `i` on.
pub open spec fn digits_end(s: Seq<char>, i: int) -> int {
    run_end(s, i, |c: char| is_digit(c))
}

/// The end of the name characters from `i` on.
pub open spec fn name_end(s: Seq<char>, i: int) -> int {
    run_end(s, i, |c: char| is_name_char(c))
}

/// The end of the line that `i` stands on.
pub open spec fn line_end(s: Seq<char>, i: int) -> int {
    run_end(s, i, |c: char| c != '\n')
}

/// Whether a line comment starts at `i`.
pub open spec fn comment_at(s: Seq<char>, i: int) -> bool {
    0 <= i && i + 1 < s.len() && s[i] == '/' && s[i + 1] == '/'
}

/// Where the next token starts: behind all blanks and line comments.
pub open spec fn token_start(s: Seq<char>, i: int) -> int
    decreases s.len() - i,
{
    let j = space_end(s, i);
    if comment_at(s, j) {
        proof {
            lemma_run_end(s, i, |c: char| is_space(c));
            lemma_run_end(s, j + 2, |c: char| c != '\n');
        }
        token_start(s, line_end(s, j + 2))
    } else {
        j
    }
}

/// The number that a run of decimal digits writes.
pub open spec fn decimal(s: Seq<char>) -> nat
    decreases s.len(),
{
    if s.len() == 0 {
        0
    } else {
        decimal(s.drop_last()) * 10 + (s.last() as int - '0' as int) as nat
    }
}

/// The type names that may stand right behind a number.
pub open spec fn number_suffix(s: Seq<char>) -> Option<Token> {
    if s == "i8"@ {
        Some(Token::I8)
    } else if s == "i16"@ {
        Some(Token::I16)
    } else if s == "i32"@ {
        Some(Token::I32)
    } else if s == "i64"@ {
        Some(Token::I64)
    } else if s == "u8"@ {
        Some(Token::U8)
    } else if s == "u16"@ {
        Some(Token::U16)
    } else if s == "u32"@ {
        Some(Token::U32)
    } else if s == "u64"@ {
        Some(Token::U64)
    } else if s == "usize"@ {
        Some(Token::Usize)
    } else if s == "isize"@ {
        Some(Token::Isize)
    } else if s == "f32"@ {
        Some(Token::F32)
    } else if s == "f64"@ {
        Some(Token::F64)
    } else {
        None
    }
}

/// The keywords, the type names among them.
pub open spec fn keyword(s: Seq<char>) -> Option<Token> {
    if number_suffix(s) is Some {
        number_suffix(s)
    } else if s == "fn"@ {
        Some(Token::Fn)
    } else if s == "let"@ {
        Some(Token::Let)
    } else if s == "mod"@ {
        Some(Token::Mod)
    } else if s == "mut"@ {
        Some(Token::Mut)
    } else if s == "const"@ {
        Some(Token::Const)
    } else if s == "use"@ {
        Some(Token::Use)
    } else if s == "extern"@ {
        Some(Token::Extern)
    } else if s == "as"@ {
        Some(Token::As)
    } else if s == "str"@ {
        Some(Token::Str)
    } else if s == "bool"@ {
        Some(Token::Bool)
    } else if s == "true"@ {
        Some(Token::True)
    } else if s == "false"@ {
        Some(Token::False)
    } else if s == "if"@ {
        Some(Token::If)
    } else if s == "else"@ {
        Some(Token::Else)
    } else if s == "loop"@ {
        Some(Token::Loop)
    } else if s == "while"@ {
        Some(Token::While)
    } else if s == "match"@ {
        Some(Token::Match)
    } else if s == "return"@ {
        Some(Token::Return)
    } else if s == "enum"@ {
        Some(Token::Enum)
    } else if s == "pub"@ {
        Some(Token::Pub)
    } else if s == "struct"@ {
        Some(Token::Struct)
    } else if s == "type"@ {
        Some(Token::Type)
    } else if s == "impl"@ {
        Some(Token::Impl)
    } else if s == "trait"@ {
        Some(Token::Trait)
    } else if s == "for"@ {
        Some(Token::For)
    } else if s == "in"@ {
        Some(Token::In)
    } else if s == "self"@ {
        Some(Token::Self_)
    } else if s == "Self"@ {
        Some(Token::SelfType)
    } else if s == "_"@ {
        Some(Token::Underscore)
    } else {
        None
    }
}

/// What reading one token gives: the token or a message, and the index where reading stopped.
pub enum Scan {
    Tok(TokenView, int),
    Bad(Seq<char>, int),
}

/// What reading the inside of a string literal gives.
pub enum StrScan {
    Done(Seq<char>, int),
    Bad(Seq<char>, int),
}

pub open spec fn plain(t: Token, end: int) -> Scan {
    Scan::Tok(TokenView::Plain(t), end)
}

/// `long` if the character `second` stands at `i`, else `short`.
pub open spec fn one_or_two(s: Seq<char>, i: int, second: char, long: Token, short: Token) -> Scan {
    if i < s.len() && s[i] == second {
        plain(long, i + 1)
    } else {
        plain(short, i)
    }
}

/// The inside of a string literal from `i` on, behind what `acc` holds already.
pub open spec fn scan_string(s: Seq<char>, i: int, acc: Seq<char>) -> StrScan
    decreases s.len() - i,
{
    if i < 0 || i >= s.len() {
        StrScan::Bad("unterminated string literal"@, i)
    } else if s[i] == '"' {
        StrScan::Done(acc, i + 1)
    } else if s[i] == '\\' {
        if i + 1 >= s.len() {
            StrScan::Bad("unterminated string literal after backslash"@, i + 1)
        } else if s[i + 1] == 'n' {
            scan_string(s, i + 2, acc.push('\n'))
        } else if s[i + 1] == '\\' {
            scan_string(s, i + 2, acc.push('\\'))
        } else if s[i + 1] == '"' {
            scan_string(s, i + 2, acc.push('"'))
        } else {
            StrScan::Bad("invalid escape sequence '\\"@ + seq![s[i + 1]] + "'"@, i + 1)
        }
    } else {
        scan_string(s, i + 1, acc.push(s[i]))
    }
}

/// A number literal at `j`: digits, or digits, a dot and digits; then a type name, if one follows.
pub open spec fn scan_number(s: Seq<char>, j: int) -> Scan {
    let e = digits_end(s, j);
    if e + 1 < s.len() && s[e] == '.' && is_digit(s[e + 1]) {
        let f = digits_end(s, e + 1);
        let text = s.subrange(j, f);
        match number_suffix(s.subrange(f, name_end(s, f))) {
            Some(t) => Scan::Tok(TokenView::FloatSuffixLit(text, t), name_end(s, f)),
            None => Scan::Tok(TokenView::FloatLit(text), f),
        }
    } else {
        let text = s.subrange(j, e);
        if decimal(text) > i64::MAX {
            Scan::Bad("invalid integer literal '"@ + text + "'"@, e)
        } else {
            let v = decimal(text) as i64;
            match number_suffix(s.subrange(e, name_end(s, e))) {
                Some(t) => Scan::Tok(TokenView::IntSuffixLit(v, t), name_end(s, e)),
                None => Scan::Tok(TokenView::IntLit(v), e),
            }
        }
    }
}

/// A keyword or a name at `j`.
pub open spec fn scan_name(s: Seq<char>, j: int) -> Scan {
    let e = name_end(s, j);
    let text = s.subrange(j, e);
    match keyword(text) {
        Some(t) => plain(t, e),
        None => Scan::Tok(TokenView::Ident(text), e),
    }
}

/// The token that starts at `j`, where no blank and no comment stands.
pub open spec fn scan_token(s: Seq<char>, j: int) -> Scan {
    let c = s[j];
    let k = j + 1;
    if c == '+' {
        plain(Token::Plus, k)
    } else if c == '-' {
        one_or_two(s, k, '>', Token::RArrow, Token::Minus)
    } else if c == '*' {
        plain(Token::Star, k)
    } else if c == '/' {
        plain(Token::Slash, k)
    } else if c == ':' {
        one_or_two(s, k, ':', Token::DoubleColon, Token::Colon)
    } else if c == '=' {
        if k < s.len() && s[k] == '=' {
            plain(Token::EqEq, k + 1)
        } else {
            one_or_two(s, k, '>', Token::FatArrow, Token::Eq)
        }
    } else if c == ';' {
        plain(Token::Semicolon, k)
    } else if c == '.' {
        if k < s.len() && s[k] == '.' {
            if k + 1 < s.len() && s[k + 1] == '.' {
                plain(Token::Ellipsis, k + 2)
            } else {
                Scan::Bad("unexpected token '..'"@, k + 1)
            }
        } else {
            plain(Token::Dot, k)
        }
    } else if c == '(' {
        plain(Token::LParen, k)
    } else if c == ',' {
        plain(Token::Comma, k)
    } else if c == ')' {
        plain(Token::RParen, k)
    } else if c == '{' {
        plain(Token::LBrace, k)
    } else if c == '}' {
        plain(Token::RBrace, k)
    } else if c == '&' {
        one_or_two(s, k, '&', Token::AndAnd, Token::Ampersand)
    } else if c == '|' {
        one_or_two(s, k, '|', Token::OrOr, Token::Pipe)
    } else if c == '!' {
        one_or_two(s, k, '=', Token::BangEq, Token::Bang)
    } else if c == '<' {
        one_or_two(s, k, '=', Token::Le, Token::Lt)
    } else if c == '>' {
        one_or_two(s, k, '=', Token::Ge, Token::Gt)
    } else if c == '#' {
        plain(Token::Pound, k)
    } else if c == '[' {
        plain(Token::LBracket, k)
    } else if c == ']' {
        plain(Token::RBracket, k)
    } else if c == '"' {
        match scan_string(s, k, Seq::empty()) {
            StrScan::Done(text, e) => Scan::Tok(TokenView::StrLit(text), e),
            StrScan::Bad(msg, e) => Scan::Bad(msg, e),
        }
    } else if is_digit(c) {
        scan_number(s, j)
    } else if is_name_start(c) {
        scan_name(s, j)
    } else {
        Scan::Bad("unexpected character '"@ + seq![c] + "'"@, j)
    }
}

/// What one call of `next_token` reads from index `i` on.
pub open spec fn scan_next(s: Seq<char>, i: int) -> Scan {
    let j = token_start(s, i);
    if j >= s.len() {
        plain(Token::Eof, j)
    } else {
        scan_token(s, j)
    }
}

/// The index behind the character at `i`; the end of the text stays where it is.
pub open spec fn step(s: Seq<char>, i: int) -> int {
    if i < s.len() {
        i + 1
    } else {
        i
    }
}

/// The state of a lexer: the source, and the index of the next character to read.
pub struct LexerView {
    pub source: Seq<char>,
    pub at: int,
}

/// A lexer over one source text.
pub struct Lexer<'a> {
    source: &'a str,
    chars: Vec<char>,
    at: usize,
    pos: usize,
}

impl<'a> View for Lexer<'a> {
    type V = LexerView;

    closed spec fn view(&self) -> LexerView {
        LexerView { source: self.source@, at: self.at as int }
    }
}

impl<'a> Lexer<'a> {
    /// The characters are those of the source, and the byte position is that of the next one.
    pub closed spec fn wf(&self) -> bool {
        &&& self.chars@ == self.source@
        &&& self.at <= self.chars@.len()
        &&& self.pos == byte_offset(self.source@, self.at as int)
        &&& encode_utf8(self.source@).len() <= usize::MAX
    }

    /// A lexer at the start of `source`.
    pub fn new(source: &'a str) -> (r: Self)
        ensures
            r.wf(),
            r@ == (LexerView { source: source@, at: 0 }),
    {
        let bytes = source.as_bytes();
        let n: usize = bytes.len();
        proof {
            assert(n == encode_utf8(source@).len());
            assert(source@.take(0) =~= Seq::<char>::empty());
            assert(byte_offset(source@, 0) == 0);
        }
        Lexer { source, chars: to_chars(source), at: 0, pos: 0 }
    }

    /// Return the current byte position in source (for error reporting)
    pub fn pos(&self) -> (r: usize)
        requires
            self.wf(),
        ensures
            r == byte_offset(self@.source, self@.at),
    {
        self.pos
    }

    /// Whether the next character is `c`.
    fn at_char(&self, c: char) -> (r: bool)
        requires
            self.wf(),
        ensures
            r == (self@.at < self@.source.len() && self@.source[self@.at] == c),
    {
        self.at < self.chars.len() && self.chars[self.at] == c
    }

    /// The place of reading is in the source or at its end.
    pub proof fn lemma_in_source(&self)
        requires
            self.wf(),
        ensures
            0 <= self@.at <= self@.source.len(),
    {
    }

    /// Steps over the next character; at the end of the source, nothing changes.
    pub fn advance(&mut self)
        requires
            old(self).wf(),
        ensures
            final(self).wf(),
            final(self)@ == (LexerView { at: step(old(self)@.source, old(self)@.at), ..old(self)@ }),
    {
        if self.at >= self.chars.len() {
            return;
        }
        proof {
            lemma_byte_offset_step(self.source@, self.at as int);
        }
        let n: usize = self.chars.len();
        assert(self.at < n);
        let w: usize = char_width(self.chars[self.at]);
        self.pos = self.pos + w;
        self.at = self.at + 1;
    }

    /// Goes back to an earlier place.
    fn restore(&mut self, at: usize, pos: usize)
        requires
            old(self).wf(),
            at <= old(self)@.source.len(),
            pos == byte_offset(old(self)@.source, at as int),
        ensures
            final(self).wf(),
            final(self)@ == (LexerView { at: at as int, ..old(self)@ }),
    {
        self.at = at;
        self.pos = pos;
    }

    fn skip_whitespace(&mut self)
        requires
            old(self).wf(),
        ensures
            final(self).wf(),
            final(self)@ == (LexerView {
                at: space_end(old(self)@.source, old(self)@.at),
                ..old(self)@
            }),
    {
        while self.at < self.chars.len() && (self.chars[self.at] == ' ' || self.chars[self.at]
            == '\t' || self.chars[self.at] == '\n' || self.chars[self.at] == '\r')
            invariant
                self.wf(),
                self@.source == old(self)@.source,
                space_end(self@.source, self@.at) == space_end(old(self)@.source, old(self)@.at),
            decreases self.chars@.len() - self.at,
        {
            self.advance();
        }
    }

    fn skip_line(&mut self)
        requires
            old(self).wf(),
        ensures
            final(self).wf(),
            final(self)@ == (LexerView {
                at: line_end(old(self)@.source, old(self)@.at),
                ..old(self)@
            }),
    {
        while self.at < self.chars.len() && self.chars[self.at] != '\n'
            invariant
                self.wf(),
                self@.source == old(self)@.source,
                line_end(self@.source, self@.at) == line_end(old(self)@.source, old(self)@.at),
            decreases self.chars@.len() - self.at,
        {
            self.advance();
        }
    }

    fn skip_digits(&mut self)
        requires
            old(self).wf(),
        ensures
            final(self).wf(),
            final(self)@ == (LexerView {
                at: digits_end(old(self)@.source, old(self)@.at),
                ..old(self)@
            }),
    {
        while self.at < self.chars.len() && digit(self.chars[self.at])
            invariant
                self.wf(),
                self@.source == old(self)@.source,
                digits_end(self@.source, self@.at) == digits_end(old(self)@.source, old(self)@.at),
            decreases self.chars@.len() - self.at,
        {
            self.advance();
        }
    }

    fn read_identifier(&mut self) -> (r: String)
        requires
            old(self).wf(),
        ensures
            final(self).wf(),
            final(self)@ == (LexerView {
                at: name_end(old(self)@.source, old(self)@.at),
                ..old(self)@
            }),
            r@ == old(self)@.source.subrange(old(self)@.at, final(self)@.at),
    {
        let lo: usize = self.at;
        while self.at < self.chars.len() && name_char(self.chars[self.at])
            invariant
                self.wf(),
                lo <= self.at,
                self@.source == old(self)@.source,
                name_end(self@.source, self@.at) == name_end(old(self)@.source, old(self)@.at),
            decreases self.chars@.len() - self.at,
        {
            self.advance();
        }
        from_chars(&self.chars, lo, self.at)
    }

    /// After reading the numeric part, check if the upcoming chars form a type name suffix.
    /// If yes, consume them and return the corresponding type name token.
    /// If no, return None without advancing the position.
    fn try_read_type_suffix(&mut self) -> (r: Option<Token>)
        requires
            old(self).wf(),
        ensures
            final(self).wf(),
            ({
                let s = old(self)@.source;
                let i = old(self)@.at;
                let e = name_end(s, i);
                &&& r == number_suffix(s.subrange(i, e))
                &&& final(self)@ == (LexerView {
                    at: if r is Some {
                        e
                    } else {
                        i
                    },
                    ..old(self)@
                })
            }),
    {
        let at: usize = self.at;
        let pos: usize = self.pos;
        let ident = self.read_identifier();
        let suffix = suffix_token(&ident);
        if suffix.is_none() {
            self.restore(at, pos);
        }
        suffix
    }

    fn read_string(&mut self) -> (r: Result<String, String>)
        requires
            old(self).wf(),
        ensures
            final(self).wf(),
            final(self)@.source == old(self)@.source,
            match scan_string(old(self)@.source, old(self)@.at, Seq::empty()) {
                StrScan::Done(text, e) => r is Ok && r->Ok_0@ == text && final(self)@.at == e,
                StrScan::Bad(msg, e) => r is Err && r->Err_0@ == msg && final(self)@.at == e,
            },
    {
        let mut s = String::new();
        loop
            invariant
                self.wf(),
                self@.source == old(self)@.source,
                scan_string(self@.source, self@.at, s@) == scan_string(
                    old(self)@.source,
                    old(self)@.at,
                    Seq::empty(),
                ),
            decreases self.chars@.len() - self.at,
        {
            if self.at >= self.chars.len() {
                return Err("unterminated string literal".to_owned());
            }
            let c = self.chars[self.at];
            if c == '"' {
                self.advance();
                return Ok(s);
            }
            self.advance();
            if c == '\\' {
                if self.at >= self.chars.len() {
                    return Err("unterminated string literal after backslash".to_owned());
                }
                let d = self.chars[self.at];
                if d == 'n' {
                    s.push('\n');
                } else if d == '\\' {
                    s.push('\\');
                } else if d == '"' {
                    s.push('"');
                } else {
                    return Err(around("invalid escape sequence '\\", d, "'"));
                }
                self.advance();
            } else {
                s.push(c);
            }
        }
    }

    fn read_number_or_float(&mut self) -> (r: Result<Token, String>)
        requires
            old(self).wf(),
        ensures
            final(self).wf(),
            final(self)@.source == old(self)@.source,
            match scan_number(old(self)@.source, old(self)@.at) {
                Scan::Tok(t, e) => r is Ok && r->Ok_0@ == t && final(self)@.at == e,
                Scan::Bad(msg, e) => r is Err && r->Err_0@ == msg && final(self)@.at == e,
            },
    {
        let lo: usize = self.at;
        let ghost s = self@.source;
        self.skip_digits();
        proof {
            lemma_run_end(s, lo as int, |c: char| is_digit(c));
        }
        let e: usize = self.at;
        let pos: usize = self.pos;
        // a dot starts a fraction only when a digit follows it
        if self.at_char('.') {
            self.advance();
            if self.at < self.chars.len() && digit(self.chars[self.at]) {
                self.skip_digits();
                proof {
                    lemma_run_end(s, e + 1, |c: char| is_digit(c));
                }
                let text = from_chars(&self.chars, lo, self.at);
                return match self.try_read_type_suffix() {
                    Some(t) => Ok(Token::FloatSuffixLit(text, Box::new(t))),
                    None => Ok(Token::FloatLit(text)),
                };
            }
            self.restore(e, pos);
        }
        let text = from_chars(&self.chars, lo, e);
        match parse_decimal(&self.chars, lo, e) {
            None => Err(cat3("invalid integer literal '", &text, "'")),
            Some(v) => match self.try_read_type_suffix() {
                Some(t) => Ok(Token::IntSuffixLit(v, Box::new(t))),
                None => Ok(Token::IntLit(v)),
            },
        }
    }

    /// `long` if the next character is `second`, which is then stepped over, else `short`.
    fn two(&mut self, second: char, long: Token, short: Token) -> (r: Token)
        requires
            old(self).wf(),
        ensures
            final(self).wf(),
            final(self)@.source == old(self)@.source,
            r@ == (if old(self)@.at < old(self)@.source.len() && old(self)@.source[old(self)@.at]
                == second {
                long@
            } else {
                short@
            }),
            final(self)@.at == (if old(self)@.at < old(self)@.source.len()
                && old(self)@.source[old(self)@.at] == second {
                old(self)@.at + 1
            } else {
                old(self)@.at
            }),
    {
        if self.at_char(second) {
            self.advance();
            long
        } else {
            short
        }
    }

    /// Steps over blanks and line comments.
    fn skip_trivia(&mut self)
        requires
            old(self).wf(),
        ensures
            final(self).wf(),
            final(self)@ == (LexerView {
                at: token_start(old(self)@.source, old(self)@.at),
                ..old(self)@
            }),
    {
        loop
            invariant
                self.wf(),
                self@.source == old(self)@.source,
                token_start(self@.source, self@.at) == token_start(
                    old(self)@.source,
                    old(self)@.at,
                ),
            decreases self.chars@.len() - self.at,
        {
            let ghost i = self@.at;
            self.skip_whitespace();
            let n: usize = self.chars.len();
            if self.at < n && self.chars[self.at] == '/' && self.at + 1 < n && self.chars[self.at
                + 1] == '/' {
                proof {
                    lemma_run_end(self@.source, i, |c: char| is_space(c));
                    lemma_run_end(self@.source, self@.at + 2, |c: char| c != '\n');
                }
                self.advance();
                self.advance();
                self.skip_line();
            } else {
                return;
            }
        }
    }

    /// Reads the next token. Its span covers the bytes that it was read from.
    pub fn next_token(&mut self) -> (r: Result<(Token, Span), String>)
        requires
            old(self).wf(),
        ensures
            final(self).wf(),
            final(self)@.source == old(self)@.source,
            match scan_next(old(self)@.source, old(self)@.at) {
                Scan::Tok(t, e) => {
                    &&& r is Ok
                    &&& r->Ok_0.0@ == t
                    &&& r->Ok_0.1.lo == byte_offset(
                        old(self)@.source,
                        token_start(old(self)@.source, old(self)@.at),
                    )
                    &&& r->Ok_0.1.hi == byte_offset(old(self)@.source, e)
                    &&& final(self)@.at == e
                },
                Scan::Bad(msg, e) => r is Err && r->Err_0@ == msg && final(self)@.at == e,
            },
    {
        self.skip_trivia();
        let lo: usize = self.pos;
        if self.at >= self.chars.len() {
            return Ok((Token::Eof, Span::empty(lo)));
        }
        let c = self.chars[self.at];
        let token = if c == '+' {
            self.advance();
            Token::Plus
        } else if c == '-' {
            self.advance();
            self.two('>', Token::RArrow, Token::Minus)
        } else if c == '*' {
            self.advance();
            Token::Star
        } else if c == '/' {
            self.advance();
            Token::Slash
        } else if c == ':' {
            self.advance();
            self.two(':', Token::DoubleColon, Token::Colon)
        } else if c == ';' {
            self.advance();
            Token::Semicolon
        } else if c == '(' {
            self.advance();
            Token::LParen
        } else if c == ',' {
            self.advance();
            Token::Comma
        } else if c == ')' {
            self.advance();
            Token::RParen
        } else if c == '{' {
            self.advance();
            Token::LBrace
        } else if c == '}' {
            self.advance();
            Token::RBrace
        } else if c == '&' {
            self.advance();
            self.two('&', Token::AndAnd, Token::Ampersand)
        } else if c == '|' {
            self.advance();
            self.two('|', Token::OrOr, Token::Pipe)
        } else if c == '!' {
            self.advance();
            self.two('=', Token::BangEq, Token::Bang)
        } else if c == '<' {
            self.advance();
            self.two('=', Token::Le, Token::Lt)
        } else if c == '>' {
            self.advance();
            self.two('=', Token::Ge, Token::Gt)
        } else if c == '#' {
            self.advance();
            Token::Pound
        } else if c == '[' {
            self.advance();
            Token::LBracket
        } else if c == ']' {
            self.advance();
            Token::RBracket
        } else if c == '=' {
            self.advance();
            if self.at_char('=') {
                self.advance();
                Token::EqEq
            } else {
                self.two('>', Token::FatArrow, Token::Eq)
            }
        } else if c == '.' {
            self.advance();
            if self.at_char('.') {
                self.advance();
                if self.at_char('.') {
                    self.advance();
                    Token::Ellipsis
                } else {
                    return Err("unexpected token '..'".to_owned());
                }
            } else {
                Token::Dot
            }
        } else if c == '"' {
            self.advance();
            match self.read_string() {
                Ok(s) => Token::StrLit(s),
                Err(e) => return Err(e),
            }
        } else if digit(c) {
            match self.read_number_or_float() {
                Ok(t) => t,
                Err(e) => return Err(e),
            }
        } else if name_start(c) {
            let ident = self.read_identifier();
            match keyword_token(&ident) {
                Some(t) => t,
                None => Token::Ident(ident),
            }
        } else {
            return Err(around("unexpected character '", c, "'"));
        };
        Ok((token, Span::new(lo, self.pos)))
    }
}

/// Whether `c` is a decimal digit.
fn digit(c: char) -> (r: bool)
    ensures
        r == is_digit(c),
{
    '0' <= c && c <= '9'
}

/// Whether a name starts with `c`.
fn name_start(c: char) -> (r: bool)
    ensures
        r == is_name_start(c),
{
    ('a' <= c && c <= 'z') || ('A' <= c && c <= 'Z') || c == '_'
}

/// Whether a name goes on with `c`.
fn name_char(c: char) -> (r: bool)
    ensures
        r == is_name_char(c),
{
    name_start(c) || digit(c)
}

/// `c` between `a` and `b`.
fn around(a: &str, c: char, b: &str) -> (r: String)
    ensures
        r@ == a@ + seq![c] + b@,
{
    let mut r = a.to_owned();
    r.push(c);
    proof {
        assert(r@ =~= a@ + seq![c]);
    }
    r.concat(b)
}

/// The type name token that `s` is, if it may follow a number.
fn suffix_token(s: &str) -> (r: Option<Token>)
    ensures
        r == number_suffix(s@),
{
    if same(s, "i8") {
        Some(Token::I8)
    } else if same(s, "i16") {
        Some(Token::I16)
    } else if same(s, "i32") {
        Some(Token::I32)
    } else if same(s, "i64") {
        Some(Token::I64)
    } else if same(s, "u8") {
        Some(Token::U8)
    } else if same(s, "u16") {
        Some(Token::U16)
    } else if same(s, "u32") {
        Some(Token::U32)
    } else if same(s, "u64") {
        Some(Token::U64)
    } else if same(s, "usize") {
        Some(Token::Usize)
    } else if same(s, "isize") {
        Some(Token::Isize)
    } else if same(s, "f32") {
        Some(Token::F32)
    } else if same(s, "f64") {
        Some(Token::F64)
    } else {
        None
    }
}

/// The keyword token that `s` is, if it is one.
fn keyword_token(s: &str) -> (r: Option<Token>)
    ensures
        r == keyword(s@),
{
    match suffix_token(s) {
        Some(t) => return Some(t),
        None => {},
    }
    if same(s, "fn") {
        Some(Token::Fn)
    } else if same(s, "let") {
        Some(Token::Let)
    } else if same(s, "mod") {
        Some(Token::Mod)
    } else if same(s, "mut") {
        Some(Token::Mut)
    } else if same(s, "const") {
        Some(Token::Const)
    } else if same(s, "use") {
        Some(Token::Use)
    } else if same(s, "extern") {
        Some(Token::Extern)
    } else if same(s, "as") {
        Some(Token::As)
    } else if same(s, "str") {
        Some(Token::Str)
    } else if same(s, "bool") {
        Some(Token::Bool)
    } else if same(s, "true") {
        Some(Token::True)
    } else if same(s, "false") {
        Some(Token::False)
    } else if same(s, "if") {
        Some(Token::If)
    } else if same(s, "else") {
        Some(Token::Else)
    } else if same(s, "loop") {
        Some(Token::Loop)
    } else if same(s, "while") {
        Some(Token::While)
    } else if same(s, "match") {
        Some(Token::Match)
    } else if same(s, "return") {
        Some(Token::Return)
    } else if same(s, "enum") {
        Some(Token::Enum)
    } else if same(s, "pub") {
        Some(Token::Pub)
    } else if same(s, "struct") {
        Some(Token::Struct)
    } else if same(s, "type") {
        Some(Token::Type)
    } else if same(s, "impl") {
        Some(Token::Impl)
    } else if same(s, "trait") {
        Some(Token::Trait)
    } else if same(s, "for") {
        Some(Token::For)
    } else if same(s, "in") {
        Some(Token::In)
    } else if same(s, "self") {
        Some(Token::Self_)
    } else if same(s, "Self") {
        Some(Token::SelfType)
    } else if same(s, "_") {
        Some(Token::Underscore)
    } else {
        None
    }
}

/// More digits never make the number smaller.
proof fn lemma_decimal_grows(s: Seq<char>, i: int, j: int)
    requires
        0 <= i <= j <= s.len(),
        forall|k: int| 0 <= k < s.len() ==> is_digit(#[trigger] s[k]),
    ensures
        decimal(s.take(i)) <= decimal(s.take(j)),
    decreases j - i,
{
    if i < j {
        lemma_decimal_grows(s, i, j - 1);
        assert(s.take(j).drop_last() =~= s.take(j - 1));
        assert(is_digit(s[j - 1]));
    }
}

/// The number that `chars[lo..hi]` writes, if it fits.
fn parse_decimal(chars: &Vec<char>, lo: usize, hi: usize) -> (r: Option<i64>)
    requires
        lo <= hi <= chars@.len(),
        forall|k: int| lo <= k < hi ==> is_digit(#[trigger] chars@[k]),
    ensures
        match r {
            Some(v) => v == decimal(chars@.subrange(lo as int, hi as int)),
            None => decimal(chars@.subrange(lo as int, hi as int)) > i64::MAX,
        },
{
    let ghost text = chars@.subrange(lo as int, hi as int);
    let mut v: i64 = 0;
    let mut i: usize = lo;
    while i < hi
        invariant
            lo <= i <= hi <= chars@.len(),
            text == chars@.subrange(lo as int, hi as int),
            forall|k: int| lo <= k < hi ==> is_digit(#[trigger] chars@[k]),
            v >= 0,
            v == decimal(text.take(i - lo)),
        decreases hi - i,
    {
        let c = chars[i];
        let d: i64 = (c as u32 - 48) as i64;
        proof {
            assert(text.take(i - lo + 1).drop_last() =~= text.take(i - lo));
            assert(text.take(i - lo + 1).last() == c);
            assert forall|k: int| 0 <= k < text.len() implies is_digit(#[trigger] text[k]) by {
                assert(is_digit(chars@[k + lo]));
            }
            lemma_decimal_grows(text, i - lo + 1, hi - lo);
            assert(text.take(hi - lo) =~= text);
        }
        if v > (i64::MAX - d) / 10 {
            return None;
        }
        v = v * 10 + d;
        i += 1;
    }
    proof {
        assert(text.take(hi - lo) =~= text);
    }
    Some(v)
}

} // verus!

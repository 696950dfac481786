//! What holds of reading tokens from any text.
use crate::lexer::{
    Scan, StrScan, comment_at, decimal, digits_end, is_digit, is_name_char, is_name_start, is_space,
    keyword, lemma_run_end, line_end, name_end, number_suffix, plain, run_end, scan_next,
    scan_number, scan_string, scan_token, space_end, token_start,
};
use crate::text::{byte_offset, decimal_text, digit_char, lemma_byte_offset_behind};
use crate::token::{Token, TokenView};
use vstd::prelude::*;

verus! {

/// The next token starts between the place of reading and the end of the text, at no blank and no
/// comment.
pub proof fn law_token_start(s: Seq<char>, i: int)
    requires
        0 <= i <= s.len(),
    ensures
        i <= token_start(s, i) <= s.len(),
        token_start(s, i) < s.len() ==> !is_space(s[token_start(s, i)]),
        !comment_at(s, token_start(s, i)),
    decreases s.len() - i,
{
    lemma_run_end(s, i, |c: char| is_space(c));
    let j = space_end(s, i);
    if comment_at(s, j) {
        lemma_run_end(s, j + 2, |c: char| c != '\n');
        law_token_start(s, line_end(s, j + 2));
    }
}

/// Where the inside of a string literal ends, whether it is well formed or not.
proof fn lemma_string_end(s: Seq<char>, i: int, acc: Seq<char>)
    requires
        0 <= i <= s.len(),
    ensures
        match scan_string(s, i, acc) {
            StrScan::Done(_, e) => i < e <= s.len(),
            StrScan::Bad(_, e) => i <= e <= s.len(),
        },
    decreases s.len() - i,
{
    if i < s.len() && s[i] != '"' {
        if s[i] == '\\' {
            if i + 1 < s.len() {
                if s[i + 1] == 'n' {
                    lemma_string_end(s, i + 2, acc.push('\n'));
                } else if s[i + 1] == '\\' {
                    lemma_string_end(s, i + 2, acc.push('\\'));
                } else if s[i + 1] == '"' {
                    lemma_string_end(s, i + 2, acc.push('"'));
                }
            }
        } else {
            lemma_string_end(s, i + 1, acc.push(s[i]));
        }
    }
}

/// Reading never goes back and never goes past the end of the text. A token is not empty and ends
/// behind its start; only the end of the text is read as an empty token, and nothing else is read
/// as the end of the text.
pub proof fn law_progress(s: Seq<char>, i: int)
    requires
        0 <= i <= s.len(),
    ensures
        match scan_next(s, i) {
            Scan::Tok(t, e) => if t == TokenView::Plain(Token::Eof) {
                e == s.len() && token_start(s, i) == s.len()
            } else {
                i <= token_start(s, i) < e <= s.len()
            },
            Scan::Bad(_, e) => i <= token_start(s, i) <= e <= s.len() && token_start(s, i) < s.len(),
        },
{
    law_token_start(s, i);
    let j = token_start(s, i);
    if j < s.len() {
        lemma_run_end(s, j, |c: char| is_digit(c));
        lemma_run_end(s, j, |c: char| is_name_char(c));
        let e = digits_end(s, j);
        lemma_run_end(s, e, |c: char| is_name_char(c));
        lemma_run_end(s, e + 1, |c: char| is_digit(c));
        let f = digits_end(s, e + 1);
        lemma_run_end(s, f, |c: char| is_name_char(c));
        lemma_string_end(s, j + 1, Seq::empty());
        if is_name_start(s[j]) {
            assert(is_name_char(s[j]));
            assert(name_end(s, j) == name_end(s, j + 1));
            lemma_run_end(s, j + 1, |c: char| is_name_char(c));
        }
        if is_digit(s[j]) {
            assert(digits_end(s, j) == digits_end(s, j + 1));
            lemma_run_end(s, j + 1, |c: char| is_digit(c));
        }
    }
}

/// At the end of the text the end is read, however often.
pub proof fn law_end_is_stable(s: Seq<char>)
    ensures
        scan_next(s, s.len() as int) == plain(Token::Eof, s.len() as int),
{
    law_token_start(s, s.len() as int);
}

/// A blank in front of a token does not matter.
pub proof fn law_blank_skipped(s: Seq<char>, i: int)
    requires
        0 <= i < s.len(),
        is_space(s[i]),
    ensures
        token_start(s, i) == token_start(s, i + 1),
        scan_next(s, i) == scan_next(s, i + 1),
{
    assert(space_end(s, i) == space_end(s, i + 1));
}

/// A comment in front of a token does not matter, up to the end of its line.
pub proof fn law_comment_skipped(s: Seq<char>, i: int)
    requires
        comment_at(s, i),
    ensures
        token_start(s, i) == token_start(s, line_end(s, i + 2)),
        scan_next(s, i) == scan_next(s, line_end(s, i + 2)),
{
    assert(space_end(s, i) == i);
}

/// A type name that may stand behind a number is a keyword, and the same one.
pub proof fn law_suffix_is_keyword(s: Seq<char>)
    ensures
        number_suffix(s) is Some ==> keyword(s) == number_suffix(s),
{
    reveal_strlit("i8");
    reveal_strlit("i16");
    reveal_strlit("i32");
    reveal_strlit("i64");
    reveal_strlit("u8");
    reveal_strlit("u16");
    reveal_strlit("u32");
    reveal_strlit("u64");
    reveal_strlit("usize");
    reveal_strlit("isize");
    reveal_strlit("f32");
    reveal_strlit("f64");
    reveal_strlit("fn");
    reveal_strlit("let");
    reveal_strlit("mod");
    reveal_strlit("mut");
    reveal_strlit("const");
    reveal_strlit("use");
    reveal_strlit("extern");
    reveal_strlit("as");
    if number_suffix(s) is Some {
        assert(s[0] == 'i' || s[0] == 'u' || s[0] == 'f');
        assert(s.len() == 2 || s.len() == 3 || s.len() == 5);
        if s == "i8"@ {
            assert(s[1] == '8');
        } else if s == "u8"@ {
            assert(s[1] == '8');
        } else if s == "usize"@ {
            assert(s[2] == 'i');
        } else if s == "isize"@ {
            assert(s[2] == 'i');
        } else {
            assert(s[2] == '6' || s[2] == '2' || s[2] == '4');
        }
    }
}

/// A run that ends where its text ends.
proof fn lemma_run_of(s: Seq<char>, i: int, n: int, p: spec_fn(char) -> bool)
    requires
        0 <= i <= n <= s.len(),
        forall|k: int| i <= k < n ==> p(#[trigger] s[k]),
        n < s.len() ==> !p(s[n]),
    ensures
        run_end(s, i, p) == n,
    decreases n - i,
{
    if i < n {
        lemma_run_of(s, i + 1, n, p);
    }
}

/// A name that is no keyword is read as that name, whatever follows that cannot belong to it; a
/// keyword is read as that keyword.
pub proof fn law_name(name: Seq<char>, rest: Seq<char>)
    requires
        name.len() > 0,
        is_name_start(name[0]),
        forall|k: int| 0 <= k < name.len() ==> is_name_char(#[trigger] name[k]),
        rest.len() > 0 ==> !is_name_char(rest[0]),
    ensures
        scan_next(name + rest, 0) == match keyword(name) {
            Some(t) => plain(t, name.len() as int),
            None => Scan::Tok(TokenView::Ident(name), name.len() as int),
        },
{
    let s = name + rest;
    assert(s[0] == name[0]);
    assert(space_end(s, 0) == 0);
    assert(!comment_at(s, 0));
    assert(token_start(s, 0) == 0);
    assert forall|k: int| 0 <= k < name.len() implies is_name_char(#[trigger] s[k]) by {
        assert(s[k] == name[k]);
    }
    if rest.len() > 0 {
        assert(s[name.len() as int] == rest[0]);
    }
    lemma_run_of(s, 0, name.len() as int, |c: char| is_name_char(c));
    assert(s.subrange(0, name.len() as int) =~= name);
}

/// The digits of a number are digits, and they write that number.
proof fn lemma_decimal_text(n: nat)
    ensures
        decimal_text(n).len() > 0,
        forall|k: int| 0 <= k < decimal_text(n).len() ==> is_digit(#[trigger] decimal_text(n)[k]),
        decimal(decimal_text(n)) == n,
    decreases n,
{
    reveal_with_fuel(decimal, 2);
    if n < 10 {
        let t = decimal_text(n);
        assert(t =~= seq![digit_char(n)]);
        assert(t.drop_last() =~= Seq::empty());
        assert(t.last() == digit_char(n));
    } else {
        lemma_decimal_text(n / 10);
        let t = decimal_text(n);
        assert(t.drop_last() =~= decimal_text(n / 10));
        assert(t.last() == digit_char(n % 10));
        assert forall|k: int| 0 <= k < t.len() implies is_digit(#[trigger] t[k]) by {
            if k < t.len() - 1 {
                assert(t[k] == decimal_text(n / 10)[k]);
            }
        }
    }
}

/// A number that is written in decimal is read back, up to the largest that a literal can hold;
/// a larger one is an error that names it.
pub proof fn law_number(n: nat)
    ensures
        n <= i64::MAX ==> scan_next(decimal_text(n), 0) == Scan::Tok(
            TokenView::IntLit(n as i64),
            decimal_text(n).len() as int,
        ),
        n > i64::MAX ==> scan_next(decimal_text(n), 0) == Scan::Bad(
            "invalid integer literal '"@ + decimal_text(n) + "'"@,
            decimal_text(n).len() as int,
        ),
{
    let s = decimal_text(n);
    lemma_decimal_text(n);
    assert(is_digit(s[0]));
    assert(space_end(s, 0) == 0);
    assert(!comment_at(s, 0));
    assert(token_start(s, 0) == 0);
    lemma_run_of(s, 0, s.len() as int, |c: char| is_digit(c));
    assert(s.subrange(0, s.len() as int) =~= s);
    let none = s.subrange(s.len() as int, name_end(s, s.len() as int));
    assert(name_end(s, s.len() as int) == s.len());
    assert(none =~= Seq::empty());
    assert(number_suffix(none) is None) by {
        reveal_strlit("i8");
        reveal_strlit("i16");
        reveal_strlit("i32");
        reveal_strlit("i64");
        reveal_strlit("u8");
        reveal_strlit("u16");
        reveal_strlit("u32");
        reveal_strlit("u64");
        reveal_strlit("usize");
        reveal_strlit("isize");
        reveal_strlit("f32");
        reveal_strlit("f64");
    }
    assert(scan_token(s, 0) == scan_number(s, 0));
}

/// A text as it is written inside a string literal.
pub open spec fn written(t: Seq<char>) -> Seq<char>
    decreases t.len(),
{
    if t.len() == 0 {
        Seq::empty()
    } else {
        (if t[0] == '\n' {
            seq!['\\', 'n']
        } else if t[0] == '\\' || t[0] == '"' {
            seq!['\\', t[0]]
        } else {
            seq![t[0]]
        }) + written(t.drop_first())
    }
}

proof fn lemma_written(s: Seq<char>, i: int, t: Seq<char>, acc: Seq<char>)
    requires
        0 <= i,
        i + written(t).len() < s.len(),
        s.subrange(i, i + written(t).len()) == written(t),
        s[i + written(t).len()] == '"',
    ensures
        scan_string(s, i, acc) == StrScan::Done(acc + t, i + written(t).len() + 1),
    decreases t.len(),
{
    let w = written(t);
    if t.len() == 0 {
        assert(acc + t =~= acc);
    } else {
        let u = t.drop_first();
        let v = written(u);
        let c = t[0];
        let k: int = w.len() - v.len();
        assert forall|m: int| 0 <= m < w.len() implies s[i + m] == w[m] by {
            assert(s.subrange(i, i + w.len())[m] == w[m]);
        }
        assert(s[i] == w[0]);
        assert(s.subrange(i + k, i + k + v.len()) =~= v) by {
            assert forall|m: int| 0 <= m < v.len() implies s[i + k + m] == v[m] by {
                assert(s[i + (k + m)] == w[k + m]);
            }
        }
        if k == 2 {
            assert(s[i + 1] == w[1]);
        }
        lemma_written(s, i + k, u, acc.push(c));
        assert(acc.push(c) + u =~= acc + t);
    }
}

/// A text that is written as a string literal is read back, whatever follows the closing quote, and
/// reading stops right behind that quote.
pub proof fn law_string(t: Seq<char>, rest: Seq<char>)
    ensures
        scan_string(written(t) + seq!['"'] + rest, 0, Seq::empty()) == StrScan::Done(
            t,
            written(t).len() as int + 1,
        ),
        scan_next(seq!['"'] + written(t) + seq!['"'] + rest, 0) == Scan::Tok(
            TokenView::StrLit(t),
            written(t).len() as int + 2,
        ),
{
    let w = written(t);
    let inside = w + seq!['"'] + rest;
    assert(inside.subrange(0, w.len() as int) =~= w);
    assert(inside[w.len() as int] == '"');
    lemma_written(inside, 0, t, Seq::empty());
    assert(Seq::<char>::empty() + t =~= t);
    let s = seq!['"'] + w + seq!['"'] + rest;
    assert(s[0] == '"');
    assert(space_end(s, 0) == 0);
    assert(!comment_at(s, 0));
    assert(token_start(s, 0) == 0);
    assert(s.subrange(1, 1 + w.len() as int) =~= w);
    assert(s[1 + w.len() as int] == '"');
    lemma_written(s, 1, t, Seq::empty());
}

/// Skipping blanks twice is skipping them once, and so it is with blanks and comments.
pub proof fn law_skipped_once(s: Seq<char>, i: int)
    requires
        0 <= i <= s.len(),
    ensures
        space_end(s, space_end(s, i)) == space_end(s, i),
        token_start(s, token_start(s, i)) == token_start(s, i),
{
    lemma_run_end(s, i, |c: char| is_space(c));
    law_token_start(s, i);
    let j = token_start(s, i);
    assert(space_end(s, j) == j);
}

/// What reading gives where the text stands `n` characters further on.
pub open spec fn shifted(r: Scan, n: int) -> Scan {
    match r {
        Scan::Tok(t, e) => Scan::Tok(t, e + n),
        Scan::Bad(msg, e) => Scan::Bad(msg, e + n),
    }
}

/// The index where reading stopped.
pub open spec fn scan_end(r: Scan) -> int {
    match r {
        Scan::Tok(_, e) => e,
        Scan::Bad(_, e) => e,
    }
}

/// Where the reading of a text stands after `n` tokens or messages.
pub open spec fn place_after(s: Seq<char>, n: nat) -> int
    decreases n,
{
    if n == 0 {
        0
    } else {
        scan_end(scan_next(s, place_after(s, (n - 1) as nat)))
    }
}

/// Whether a text holds nothing but blanks and comments, each comment up to the end of its line.
pub open spec fn only_trivia(pre: Seq<char>) -> bool
    decreases pre.len(),
{
    if pre.len() == 0 {
        true
    } else if is_space(pre[0]) {
        only_trivia(pre.skip(1))
    } else {
        let e = line_end(pre, 2);
        comment_at(pre, 0) && 2 <= e < pre.len() && only_trivia(pre.skip(e))
    }
}

/// A run of a text is the same run behind another text.
proof fn lemma_run_behind(pre: Seq<char>, s: Seq<char>, i: int, p: spec_fn(char) -> bool)
    requires
        0 <= i,
    ensures
        run_end(pre + s, pre.len() + i, p) == pre.len() + run_end(s, i, p),
    decreases s.len() - i,
{
    if i < s.len() {
        assert((pre + s)[pre.len() + i] == s[i]);
        if p(s[i]) {
            lemma_run_behind(pre, s, i + 1, p);
        }
    }
}

proof fn lemma_string_behind(pre: Seq<char>, s: Seq<char>, i: int, acc: Seq<char>)
    requires
        0 <= i,
    ensures
        scan_string(pre + s, pre.len() + i, acc) == match scan_string(s, i, acc) {
            StrScan::Done(t, e) => StrScan::Done(t, pre.len() + e),
            StrScan::Bad(msg, e) => StrScan::Bad(msg, pre.len() + e),
        },
    decreases s.len() - i,
{
    let all = pre + s;
    let n = pre.len() as int;
    if i < s.len() {
        assert(all[n + i] == s[i]);
        if s[i] == '"' {
        } else if s[i] == '\\' {
            if i + 1 < s.len() {
                assert(all[n + i + 1] == s[i + 1]);
                if s[i + 1] == 'n' {
                    lemma_string_behind(pre, s, i + 2, acc.push('\n'));
                } else if s[i + 1] == '\\' {
                    lemma_string_behind(pre, s, i + 2, acc.push('\\'));
                } else if s[i + 1] == '"' {
                    lemma_string_behind(pre, s, i + 2, acc.push('"'));
                }
            }
        } else {
            lemma_string_behind(pre, s, i + 1, acc.push(s[i]));
        }
    }
}

proof fn lemma_start_behind(pre: Seq<char>, s: Seq<char>, i: int)
    requires
        0 <= i,
    ensures
        token_start(pre + s, pre.len() + i) == pre.len() + token_start(s, i),
    decreases s.len() - i,
{
    let all = pre + s;
    let n = pre.len() as int;
    lemma_run_behind(pre, s, i, |c: char| is_space(c));
    lemma_run_end(s, i, |c: char| is_space(c));
    let j = space_end(s, i);
    assert(comment_at(all, n + j) == comment_at(s, j));
    if comment_at(s, j) {
        lemma_run_behind(pre, s, j + 2, |c: char| c != '\n');
        lemma_run_end(s, j + 2, |c: char| c != '\n');
        lemma_start_behind(pre, s, line_end(s, j + 2));
    }
}

proof fn lemma_number_behind(pre: Seq<char>, s: Seq<char>, j: int)
    requires
        0 <= j < s.len(),
    ensures
        scan_number(pre + s, pre.len() + j) == shifted(scan_number(s, j), pre.len() as int),
{
    let all = pre + s;
    let n = pre.len() as int;
    let e = digits_end(s, j);
    lemma_run_end(s, j, |c: char| is_digit(c));
    lemma_run_behind(pre, s, j, |c: char| is_digit(c));
    lemma_run_end(s, e, |c: char| is_name_char(c));
    lemma_run_behind(pre, s, e, |c: char| is_name_char(c));
    assert(all.subrange(n + j, n + e) =~= s.subrange(j, e));
    assert(all.subrange(n + e, n + name_end(s, e)) =~= s.subrange(e, name_end(s, e)));
    if e + 1 < s.len() {
        let f = digits_end(s, e + 1);
        lemma_run_end(s, e + 1, |c: char| is_digit(c));
        lemma_run_behind(pre, s, e + 1, |c: char| is_digit(c));
        lemma_run_end(s, f, |c: char| is_name_char(c));
        lemma_run_behind(pre, s, f, |c: char| is_name_char(c));
        assert(all.subrange(n + j, n + f) =~= s.subrange(j, f));
        assert(all.subrange(n + f, n + name_end(s, f)) =~= s.subrange(f, name_end(s, f)));
        assert(all[n + e] == s[e]);
        assert(all[n + e + 1] == s[e + 1]);
    }
}

/// What is read from a place on depends on nothing in front of that place: behind another text, a
/// text is read as it is alone, that much further on.
pub proof fn law_read_behind(pre: Seq<char>, s: Seq<char>, i: int)
    requires
        0 <= i <= s.len(),
    ensures
        token_start(pre + s, pre.len() + i) == pre.len() + token_start(s, i),
        scan_next(pre + s, pre.len() + i) == shifted(scan_next(s, i), pre.len() as int),
{
    let all = pre + s;
    let n = pre.len() as int;
    lemma_start_behind(pre, s, i);
    law_token_start(s, i);
    let j = token_start(s, i);
    if j < s.len() {
        assert(all[n + j] == s[j]);
        if j + 1 < s.len() {
            assert(all[n + j + 1] == s[j + 1]);
        }
        if j + 2 < s.len() {
            assert(all[n + j + 2] == s[j + 2]);
        }
        lemma_string_behind(pre, s, j + 1, Seq::empty());
        lemma_number_behind(pre, s, j);
        lemma_run_behind(pre, s, j, |c: char| is_name_char(c));
        lemma_run_end(s, j, |c: char| is_name_char(c));
        assert(all.subrange(n + j, n + name_end(s, j)) =~= s.subrange(j, name_end(s, j)));
        assert(scan_token(all, n + j) == shifted(scan_token(s, j), n));
    }
}

proof fn lemma_trivia_skipped(pre: Seq<char>, s: Seq<char>)
    requires
        only_trivia(pre),
    ensures
        token_start(pre + s, 0) == pre.len() + token_start(s, 0),
    decreases pre.len(),
{
    let all = pre + s;
    if pre.len() == 0 {
        assert(all =~= s);
    } else if is_space(pre[0]) {
        let head = pre.take(1);
        let rest = pre.skip(1);
        lemma_trivia_skipped(rest, s);
        assert(all =~= head + (rest + s));
        lemma_start_behind(head, rest + s, 0);
        law_blank_skipped(all, 0);
    } else {
        let e = line_end(pre, 2);
        let head = pre.take(e);
        let rest = pre.skip(e);
        lemma_run_end(pre, 2, |c: char| c != '\n');
        assert(all[e] == pre[e]);
        assert forall|k: int| 2 <= k < e implies all[k] != '\n' by {
            assert(all[k] == pre[k]);
        }
        lemma_run_of(all, 2, e, |c: char| c != '\n');
        lemma_trivia_skipped(rest, s);
        assert(all =~= head + (rest + s));
        lemma_start_behind(head, rest + s, 0);
        assert(comment_at(all, 0));
        law_comment_skipped(all, 0);
    }
}

proof fn lemma_place(s: Seq<char>, n: nat)
    ensures
        0 <= place_after(s, n) <= s.len(),
    decreases n,
{
    if n > 0 {
        let i = place_after(s, (n - 1) as nat);
        lemma_place(s, (n - 1) as nat);
        law_progress(s, i);
        law_token_start(s, i);
    }
}

/// Blanks and comments in front of a text change nothing but places: each token and each message
/// is what it is without them, and starts and ends later by as many characters, and by as many
/// bytes, as they have.
pub proof fn law_leading_trivia(pre: Seq<char>, s: Seq<char>, n: nat)
    requires
        only_trivia(pre),
    ensures
        ({
            let all = pre + s;
            let i = place_after(all, n);
            let j = place_after(s, n);
            &&& n > 0 ==> i == pre.len() + j
            &&& token_start(all, i) == pre.len() + token_start(s, j)
            &&& scan_next(all, i) == shifted(scan_next(s, j), pre.len() as int)
            &&& byte_offset(all, token_start(all, i)) == byte_offset(pre, pre.len() as int)
                + byte_offset(s, token_start(s, j))
            &&& byte_offset(all, scan_end(scan_next(all, i))) == byte_offset(pre, pre.len() as int)
                + byte_offset(s, scan_end(scan_next(s, j)))
        }),
    decreases n,
{
    let all = pre + s;
    let i = place_after(all, n);
    let j = place_after(s, n);
    lemma_place(s, n);
    if n == 0 {
        lemma_trivia_skipped(pre, s);
        law_token_start(s, 0);
        let t = token_start(s, 0);
        law_read_behind(pre, s, t);
        law_skipped_once(s, 0);
        law_token_start(all, 0);
        law_skipped_once(all, 0);
    } else {
        law_leading_trivia(pre, s, (n - 1) as nat);
        law_read_behind(pre, s, j);
    }
    law_token_start(s, j);
    law_progress(s, j);
    lemma_byte_offset_behind(pre, s, token_start(s, j));
    lemma_byte_offset_behind(pre, s, scan_end(scan_next(s, j)));
}

} // verus!

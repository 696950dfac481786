//! Text as sequences of characters, with byte offsets as UTF-8 counts them.
use vstd::prelude::*;
use vstd::utf8::encode_scalar;
use vstd::utf8::encode_utf8;

verus! {

/// `String::push` appends one character at the end.
pub assume_specification[ String::push ](s: &mut String, c: char)
    ensures
        final(s)@ == old(s)@.push(c),
;

/// The byte offset of the character with index `i`.
pub open spec fn byte_offset(s: Seq<char>, i: int) -> nat {
    encode_utf8(s.take(i)).len()
}

/// The number of bytes that UTF-8 spends on `c`.
pub open spec fn utf8_width(c: char) -> nat {
    let v = c as u32;
    if v < 0x80 {
        1
    } else if v < 0x800 {
        2
    } else if v < 0x10000 {
        3
    } else {
        4
    }
}

proof fn lemma_encode_concat(a: Seq<char>, b: Seq<char>)
    ensures
        encode_utf8(a + b) == encode_utf8(a) + encode_utf8(b),
    decreases a.len(),
{
    if a.len() == 0 {
        assert(a + b =~= b);
        assert(encode_utf8(a) =~= Seq::<u8>::empty());
        assert(encode_utf8(a) + encode_utf8(b) =~= encode_utf8(b));
    } else {
        assert((a + b).drop_first() =~= a.drop_first() + b);
        lemma_encode_concat(a.drop_first(), b);
        let head = encode_scalar(a[0] as u32);
        assert(encode_utf8(a) == head + encode_utf8(a.drop_first()));
        assert(encode_utf8(a + b) == head + encode_utf8(a.drop_first() + b));
        assert(head + (encode_utf8(a.drop_first()) + encode_utf8(b)) =~= (head + encode_utf8(
            a.drop_first(),
        )) + encode_utf8(b));
    }
}

/// Stepping over one character advances the byte offset by the character's width.
pub proof fn lemma_byte_offset_step(s: Seq<char>, i: int)
    requires
        0 <= i < s.len(),
    ensures
        byte_offset(s, i + 1) == byte_offset(s, i) + utf8_width(s[i]),
        byte_offset(s, i + 1) <= encode_utf8(s).len(),
{
    let one = seq![s[i]];
    assert(s.take(i + 1) =~= s.take(i) + one);
    lemma_encode_concat(s.take(i), one);
    assert(one.drop_first() =~= Seq::<char>::empty());
    reveal_with_fuel(encode_utf8, 2);
    assert(encode_utf8(one) =~= encode_scalar(s[i] as u32));
    vstd::utf8::char_is_scalar(s[i]);
    assert(s =~= s.take(i + 1) + s.skip(i + 1));
    lemma_encode_concat(s.take(i + 1), s.skip(i + 1));
}

/// Behind another text, a byte offset is greater by the bytes of that text.
pub proof fn lemma_byte_offset_behind(pre: Seq<char>, s: Seq<char>, i: int)
    requires
        0 <= i <= s.len(),
    ensures
        byte_offset(pre + s, pre.len() + i) == byte_offset(pre, pre.len() as int) + byte_offset(
            s,
            i,
        ),
{
    assert(pre.take(pre.len() as int) =~= pre);
    assert((pre + s).take(pre.len() + i) =~= pre + s.take(i));
    lemma_encode_concat(pre, s.take(i));
}

/// Byte offsets grow with the character index.
pub proof fn lemma_byte_offset_monotone(s: Seq<char>, i: int, j: int)
    requires
        0 <= i <= j <= s.len(),
    ensures
        byte_offset(s, i) <= byte_offset(s, j) <= encode_utf8(s).len(),
        i < j ==> byte_offset(s, i) < byte_offset(s, j),
    decreases j - i,
{
    if i < j {
        lemma_byte_offset_monotone(s, i, j - 1);
        lemma_byte_offset_step(s, j - 1);
    } else {
        assert(s =~= s.take(j) + s.skip(j));
        lemma_encode_concat(s.take(j), s.skip(j));
    }
}

/// The number of bytes that UTF-8 spends on `c`.
pub fn char_width(c: char) -> (r: usize)
    ensures
        r == utf8_width(c),
{
    let v: u32 = c as u32;
    if v < 0x80 {
        1
    } else if v < 0x800 {
        2
    } else if v < 0x10000 {
        3
    } else {
        4
    }
}

/// The characters of `s`, in order.
pub fn to_chars(s: &str) -> (r: Vec<char>)
    ensures
        r@ == s@,
{
    let mut r: Vec<char> = Vec::new();
    for c in it: s.chars()
        invariant
            r@ == s@.take(it.index()),
            it.seq() == s@,
    {
        proof {
            assert(s@.take(it.index() + 1) =~= s@.take(it.index()).push(c));
        }
        r.push(c);
    }
    proof {
        assert(s@.take(s@.len() as int) =~= s@);
    }
    r
}

/// The text made of `chars[lo..hi]`.
pub fn from_chars(chars: &Vec<char>, lo: usize, hi: usize) -> (r: String)
    requires
        lo <= hi <= chars@.len(),
    ensures
        r@ == chars@.subrange(lo as int, hi as int),
{
    let mut r = String::new();
    let mut i: usize = lo;
    while i < hi
        invariant
            lo <= i <= hi <= chars@.len(),
            r@ == chars@.subrange(lo as int, i as int),
        decreases hi - i,
    {
        r.push(chars[i]);
        proof {
            assert(chars@.subrange(lo as int, i + 1) =~= chars@.subrange(lo as int, i as int).push(
                chars@[i as int],
            ));
        }
        i += 1;
    }
    r
}

/// Whether two texts are the same.
pub fn same(a: &str, b: &str) -> (r: bool)
    ensures
        r == (a@ == b@),
{
    a.to_owned() == b.to_owned()
}

/// `a` followed by `b`.
pub fn cat(a: &str, b: &str) -> (r: String)
    ensures
        r@ == a@ + b@,
{
    a.to_owned().concat(b)
}

/// `a`, `b` and `c`, one after the other.
pub fn cat3(a: &str, b: &str, c: &str) -> (r: String)
    ensures
        r@ == a@ + b@ + c@,
{
    a.to_owned().concat(b).concat(c)
}

/// The decimal digits of `n`.
pub open spec fn decimal_text(n: nat) -> Seq<char>
    decreases n,
{
    if n < 10 {
        seq![digit_char(n)]
    } else {
        decimal_text(n / 10).push(digit_char(n % 10))
    }
}

/// The digit `d` as a character.
pub open spec fn digit_char(d: nat) -> char {
    (('0' as u32) + d) as char
}

fn to_digit(d: u64) -> (r: char)
    requires
        d < 10,
    ensures
        r == digit_char(d as nat),
{
    let b: u8 = 48 + d as u8;
    b as char
}

/// The decimal digits of `n`.
pub fn show_u64(n: u64) -> (r: String)
    ensures
        r@ == decimal_text(n as nat),
    decreases n,
{
    if n < 10 {
        let mut r = String::new();
        r.push(to_digit(n));
        proof {
            assert(r@ =~= seq![digit_char(n as nat)]);
        }
        r
    } else {
        let mut r = show_u64(n / 10);
        r.push(to_digit(n % 10));
        r
    }
}

/// The decimal digits of `n`.
pub fn show_usize(n: usize) -> (r: String)
    ensures
        r@ == decimal_text(n as nat),
{
    show_u64(n as u64)
}

/// `n` in decimal, with a minus sign where it is negative.
pub open spec fn int_text(n: int) -> Seq<char> {
    if n < 0 {
        "-"@ + decimal_text((-n) as nat)
    } else {
        decimal_text(n as nat)
    }
}

/// `n` in decimal, with a minus sign where it is negative.
pub fn show_i64(n: i64) -> (r: String)
    ensures
        r@ == int_text(n as int),
{
    if n < 0 {
        let m: u64 = if n == i64::MIN {
            0x8000_0000_0000_0000
        } else {
            (-n) as u64
        };
        cat("-", &show_u64(m))
    } else {
        show_u64(n as u64)
    }
}

/// The elements of `parts` with `sep` between them.
pub open spec fn join(parts: Seq<Seq<char>>, sep: Seq<char>) -> Seq<char>
    decreases parts.len(),
{
    if parts.len() == 0 {
        Seq::empty()
    } else if parts.len() == 1 {
        parts[0]
    } else {
        join(parts.drop_last(), sep) + sep + parts.last()
    }
}

/// The views of a list of texts.
pub open spec fn texts(v: Seq<String>) -> Seq<Seq<char>> {
    Seq::new(v.len(), |i: int| v[i]@)
}

/// The elements of `parts` with `sep` between them.
pub fn join_texts(parts: &Vec<String>, sep: &str) -> (r: String)
    ensures
        r@ == join(texts(parts@), sep@),
{
    let mut r = String::new();
    let mut i: usize = 0;
    while i < parts.len()
        invariant
            i <= parts@.len(),
            r@ == join(texts(parts@).take(i as int), sep@),
        decreases parts@.len() - i,
    {
        proof {
            let t = texts(parts@);
            assert(t.take(i + 1).drop_last() =~= t.take(i as int));
            assert(t.take(i + 1).last() == parts@[i as int]@);
        }
        if i > 0 {
            r = r.concat(sep);
        }
        r = r.concat(&parts[i]);
        proof {
            if i == 0 {
                assert(r@ =~= parts@[0]@);
            }
        }
        i += 1;
    }
    proof {
        assert(texts(parts@).take(parts@.len() as int) =~= texts(parts@));
    }
    r
}

/// The first index from `from` on at which `c` stands, or the length.
pub open spec fn index_of(s: Seq<char>, c: char, from: int) -> int
    decreases s.len() - from,
{
    if 0 <= from < s.len() && s[from] != c {
        index_of(s, c, from + 1)
    } else {
        from
    }
}

/// The first index from `from` on at which `c` stands, or the length.
pub fn find_char(s: &Vec<char>, c: char, from: usize) -> (r: usize)
    requires
        from <= s@.len(),
    ensures
        r == index_of(s@, c, from as int),
        from <= r <= s@.len(),
{
    let mut i: usize = from;
    while i < s.len() && s[i] != c
        invariant
            from <= i <= s@.len(),
            index_of(s@, c, i as int) == index_of(s@, c, from as int),
        decreases s@.len() - i,
    {
        i += 1;
    }
    i
}

/// Whether `s` starts with `prefix`.
pub open spec fn starts_with(s: Seq<char>, prefix: Seq<char>) -> bool {
    s.len() >= prefix.len() && s.take(prefix.len() as int) == prefix
}

/// Whether `s` ends with `suffix`.
pub open spec fn ends_with(s: Seq<char>, suffix: Seq<char>) -> bool {
    s.len() >= suffix.len() && s.skip(s.len() - suffix.len()) == suffix
}

/// Whether the characters of `s` from `at` on begin with `part`.
fn occurs_at(s: &Vec<char>, part: &Vec<char>, at: usize) -> (r: bool)
    requires
        at + part@.len() <= s@.len(),
    ensures
        r == (s@.subrange(at as int, at + part@.len()) == part@),
{
    let n: usize = s.len();
    let mut i: usize = 0;
    while i < part.len()
        invariant
            i <= part@.len(),
            at + part@.len() <= s@.len() == n,
            forall|k: int| 0 <= k < i ==> s@[at + k] == part@[k],
        decreases part@.len() - i,
    {
        if s[at + i] != part[i] {
            proof {
                assert(s@.subrange(at as int, at + part@.len())[i as int] != part@[i as int]);
            }
            return false;
        }
        i += 1;
    }
    proof {
        assert(s@.subrange(at as int, at + part@.len()) =~= part@);
    }
    true
}

/// Whether `s` starts with `prefix`.
pub fn has_prefix(s: &str, prefix: &str) -> (r: bool)
    ensures
        r == starts_with(s@, prefix@),
{
    let a = to_chars(s);
    let b = to_chars(prefix);
    if a.len() < b.len() {
        return false;
    }
    proof {
        assert(s@.take(prefix@.len() as int) =~= s@.subrange(0, prefix@.len() as int));
    }
    occurs_at(&a, &b, 0)
}

/// Whether `s` ends with `suffix`.
pub fn has_suffix(s: &str, suffix: &str) -> (r: bool)
    ensures
        r == ends_with(s@, suffix@),
{
    let a = to_chars(s);
    let b = to_chars(suffix);
    if a.len() < b.len() {
        return false;
    }
    proof {
        assert(s@.skip(s@.len() - suffix@.len()) =~= s@.subrange(
            s@.len() - suffix@.len(),
            s@.len() as int,
        ));
    }
    occurs_at(&a, &b, a.len() - b.len())
}

/// `s` without its first `n` characters.
pub fn drop_chars(s: &str, n: usize) -> (r: String)
    requires
        n <= s@.len(),
    ensures
        r@ == s@.skip(n as int),
{
    let a = to_chars(s);
    proof {
        assert(s@.skip(n as int) =~= s@.subrange(n as int, s@.len() as int));
    }
    from_chars(&a, n, a.len())
}

/// The part of `s` before the first `c`; all of it, where there is none.
pub open spec fn before(s: Seq<char>, c: char) -> Seq<char> {
    s.take(index_of(s, c, 0))
}

/// The part of `s` before the first `c`; all of it, where there is none.
pub fn cut_at(s: &str, c: char) -> (r: String)
    ensures
        r@ == before(s@, c),
{
    let a = to_chars(s);
    let i: usize = find_char(&a, c, 0);
    proof {
        assert(s@.take(i as int) =~= s@.subrange(0, i as int));
    }
    from_chars(&a, 0, i)
}

/// The segments of a path: the text split at each `::`, from the left.
pub open spec fn split_path(s: Seq<char>) -> Seq<Seq<char>>
    decreases s.len(),
{
    let i = path_sep(s, 0);
    if 0 <= i && i + 2 <= s.len() {
        seq![s.take(i)] + split_path(s.skip(i + 2))
    } else {
        seq![s]
    }
}

/// The first index from `from` on at which `::` stands, or the length.
pub open spec fn path_sep(s: Seq<char>, from: int) -> int
    decreases s.len() - from,
{
    if from < 0 || from >= s.len() {
        s.len() as int
    } else if from + 1 < s.len() && s[from] == ':' && s[from + 1] == ':' {
        from
    } else {
        path_sep(s, from + 1)
    }
}

/// The segments of a path: the text split at each `::`, from the left.
pub fn path_segments(s: &str) -> (r: Vec<String>)
    ensures
        texts(r@) == split_path(s@),
{
    let a = to_chars(s);
    let mut r: Vec<String> = Vec::new();
    let mut start: usize = 0;
    let mut i: usize = 0;
    proof {
        assert(s@.skip(0) =~= s@);
        assert(texts(r@) + split_path(s@) =~= split_path(s@));
    }
    while i < a.len()
        invariant
            a@ == s@,
            start <= i <= a@.len(),
            texts(r@) + split_path(s@.skip(start as int)) == split_path(s@),
            path_sep(s@.skip(start as int), 0) == path_sep(s@.skip(start as int), i - start),
        decreases a@.len() - i,
    {
        let ghost t = s@.skip(start as int);
        if i + 1 < a.len() && a[i] == ':' && a[i + 1] == ':' {
            let part = from_chars(&a, start, i);
            proof {
                assert(t[i - start] == s@[i as int]);
                assert(t[i - start + 1] == s@[i + 1]);
                assert(path_sep(t, 0) == i - start);
                assert(t.take(i - start) =~= part@);
                assert(t.skip(i - start + 2) =~= s@.skip(i + 2));
            }
            let ghost before_push = texts(r@);
            r.push(part);
            proof {
                assert(texts(r@) =~= before_push.push(part@));
                assert(before_push.push(part@) + split_path(s@.skip(i + 2)) =~= before_push + (
                seq![part@] + split_path(s@.skip(i + 2))));
            }
            i += 2;
            start = i;
        } else {
            proof {
                assert(t[i - start] == s@[i as int]);
                if i + 1 < a@.len() {
                    assert(t[i - start + 1] == s@[i + 1]);
                }
            }
            i += 1;
        }
    }
    let last = from_chars(&a, start, a.len());
    proof {
        let t = s@.skip(start as int);
        assert(t =~= last@);
        assert(split_path(t) =~= seq![last@]);
    }
    let ghost before_push = texts(r@);
    r.push(last);
    proof {
        assert(texts(r@) =~= before_push + seq![last@]);
    }
    r
}

/// Whether `c` is an upper-case letter, as Unicode has it.
pub uninterp spec fn upper_case(c: char) -> bool;

/// `char::is_uppercase` tells whether a character has the Unicode property Uppercase; among the
/// ASCII characters these are the letters from `A` to `Z`.
pub assume_specification[ char::is_uppercase ](c: char) -> (r: bool)
    ensures
        r == upper_case(c),
        (c as u32) < 128 ==> r == ('A' <= c <= 'Z'),
;

/// Whether the first character of `s` is an upper-case letter.
pub open spec fn starts_upper(s: Seq<char>) -> bool {
    s.len() > 0 && upper_case(s[0])
}

/// Whether the first character of `s` is an upper-case letter.
pub fn has_upper_start(s: &str) -> (r: bool)
    ensures
        r == starts_upper(s@),
{
    let a = to_chars(s);
    a.len() > 0 && a[0].is_uppercase()
}

/// What the `Debug` text of a string is: quoted, with escape sequences.
pub uninterp spec fn quoted(s: Seq<char>) -> Seq<char>;

/// The `Debug` text of `s`, which `format!` writes for `{:?}`.
#[verifier::external_body]
pub(crate) fn show_quoted(s: &str) -> (r: String)
    ensures
        r@ == quoted(s@),
{
    format!("{:?}", s)
}

/// The number of bytes of a text.
pub open spec fn byte_size(text: Seq<char>) -> usize {
    encode_utf8(text).len() as usize
}

/// The number of bytes of a text.
pub fn bytes_in(text: &str) -> (r: usize)
    ensures
        r == byte_size(text@),
{
    text.len()
}

} // verus!

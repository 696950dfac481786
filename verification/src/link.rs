//! Calling a linker: its arguments, and what its outcome means.
use crate::lexer::{lemma_run_end, run_end};
use crate::state::{CodegenError, ErrorView, err};
use crate::table::Model;
use crate::text::{cat, from_chars, texts, to_chars};
use vstd::prelude::*;

verus! {

/// Whether `c` is white space, as Unicode has it.
pub uninterp spec fn white_space(c: char) -> bool;

/// `char::is_whitespace` tells whether a character has the Unicode property White_Space; among the
/// ASCII characters these are the blank and those from the tab to the carriage return.
pub assume_specification[ char::is_whitespace ](c: char) -> (r: bool)
    ensures
        r == white_space(c),
        (c as u32) < 128 ==> r == (c == ' ' || '\t' <= c <= '\r'),
;

/// The end of the word that goes on at `i`.
pub open spec fn word_end(s: Seq<char>, i: int) -> int {
    run_end(s, i, |c: char| !white_space(c))
}

/// The words from `i` on: the longest runs of characters that are no white space.
pub open spec fn words(s: Seq<char>, i: int) -> Seq<Seq<char>>
    decreases s.len() - i,
{
    if i < 0 || i >= s.len() {
        Seq::empty()
    } else if white_space(s[i]) {
        words(s, i + 1)
    } else {
        let e = word_end(s, i);
        if i < e <= s.len() {
            seq![s.subrange(i, e)] + words(s, e)
        } else {
            Seq::empty()
        }
    }
}

/// The words of the first `n` texts, one text after the other.
pub open spec fn all_words(flags: Seq<Seq<char>>, n: int) -> Seq<Seq<char>>
    decreases n,
{
    if n <= 0 {
        Seq::empty()
    } else {
        all_words(flags, n - 1) + words(flags[n - 1], 0)
    }
}

/// An argument of a linker: a text, or one of the two files, whose paths the caller holds.
#[derive(Debug, Clone, PartialEq, Eq)]
pub enum LinkArg {
    Text(String),
    Object,
    Executable,
}

/// What a [`LinkArg`] is, over sequences.
pub enum LinkArgView {
    Text(Seq<char>),
    Object,
    Executable,
}

impl View for LinkArg {
    type V = LinkArgView;

    open spec fn view(&self) -> LinkArgView {
        match *self {
            LinkArg::Text(t) => LinkArgView::Text(t@),
            LinkArg::Object => LinkArgView::Object,
            LinkArg::Executable => LinkArgView::Executable,
        }
    }
}

/// What some arguments are, over sequences.
pub open spec fn args_view(args: Seq<LinkArg>) -> Seq<LinkArgView> {
    Seq::new(args.len(), |i: int| args[i]@)
}

/// Some texts as arguments.
pub open spec fn text_args(ts: Seq<Seq<char>>) -> Seq<LinkArgView> {
    Seq::new(ts.len(), |i: int| LinkArgView::Text(ts[i]))
}

/// What a linker is called with behind its name: its own arguments, the object file, the
/// executable to write, and the words of the flags.
pub open spec fn linker_call(own: Seq<Seq<char>>, flags: Seq<Seq<char>>) -> Seq<LinkArgView> {
    text_args(own) + seq![
        LinkArgView::Object,
        LinkArgView::Text("-o"@),
        LinkArgView::Executable,
    ] + text_args(all_words(flags, flags.len() as int))
}

/// Appends the words of a text to a list.
fn push_words(out: &mut Vec<String>, text: &str)
    ensures
        texts(final(out)@) == texts(old(out)@) + words(text@, 0),
{
    let chars = to_chars(text);
    let mut i: usize = 0;
    proof {
        assert(texts(out@) + words(text@, 0) =~= texts(old(out)@) + words(text@, 0));
    }
    while i < chars.len()
        invariant
            chars@ == text@,
            i <= chars@.len(),
            texts(out@) + words(text@, i as int) == texts(old(out)@) + words(text@, 0),
        decreases chars@.len() - i,
    {
        if chars[i].is_whitespace() {
            i += 1;
            continue;
        }
        let lo: usize = i;
        let ghost earlier = out@;
        while i < chars.len() && !chars[i].is_whitespace()
            invariant
                chars@ == text@,
                lo <= i <= chars@.len(),
                word_end(text@, i as int) == word_end(text@, lo as int),
            decreases chars@.len() - i,
        {
            i += 1;
        }
        let word = from_chars(&chars, lo, i);
        out.push(word);
        proof {
            lemma_run_end(text@, lo as int, |c: char| !white_space(c));
            assert(word_end(text@, lo as int) == i);
            assert(texts(out@) =~= texts(earlier) + seq![word@]);
            assert(texts(out@) + words(text@, i as int) =~= texts(earlier) + words(
                text@,
                lo as int,
            ));
        }
    }
    proof {
        assert(texts(out@) + words(text@, i as int) =~= texts(out@));
    }
}

/// Appends some texts to a list of arguments.
fn push_texts(out: &mut Vec<LinkArg>, ts: &Vec<String>)
    ensures
        args_view(final(out)@) == args_view(old(out)@) + text_args(texts(ts@)),
{
    let mut i: usize = 0;
    proof {
        assert(args_view(out@) =~= args_view(old(out)@) + text_args(texts(ts@).take(0)));
    }
    while i < ts.len()
        invariant
            i <= ts@.len(),
            args_view(out@) == args_view(old(out)@) + text_args(texts(ts@).take(i as int)),
        decreases ts@.len() - i,
    {
        let ghost earlier = out@;
        out.push(LinkArg::Text(ts[i].clone()));
        i += 1;
        proof {
            assert(args_view(out@) =~= args_view(earlier).push(LinkArgView::Text(ts@[i - 1]@)));
            assert(text_args(texts(ts@).take(i as int)) =~= text_args(texts(ts@).take(i - 1)).push(
                LinkArgView::Text(ts@[i - 1]@),
            ));
            assert(args_view(out@) =~= args_view(old(out)@) + text_args(
                texts(ts@).take(i as int),
            ));
        }
    }
    proof {
        assert(texts(ts@).take(i as int) =~= texts(ts@));
    }
}

/// What a linker is called with behind its name.
pub fn linker_arguments(own: &Vec<String>, flags: &Vec<String>) -> (r: Vec<LinkArg>)
    ensures
        args_view(r@) == linker_call(texts(own@), texts(flags@)),
{
    let mut parts: Vec<String> = Vec::new();
    let mut j: usize = 0;
    proof {
        assert(texts(parts@) =~= all_words(texts(flags@), 0));
    }
    while j < flags.len()
        invariant
            j <= flags@.len(),
            texts(parts@) == all_words(texts(flags@), j as int),
        decreases flags@.len() - j,
    {
        push_words(&mut parts, &flags[j]);
        j += 1;
    }
    let mut out: Vec<LinkArg> = Vec::new();
    push_texts(&mut out, own);
    out.push(LinkArg::Object);
    out.push(LinkArg::Text("-o".to_owned()));
    out.push(LinkArg::Executable);
    proof {
        assert(args_view(out@) =~= text_args(texts(own@)) + seq![
            LinkArgView::Object,
            LinkArgView::Text("-o"@),
            LinkArgView::Executable,
        ]);
    }
    push_texts(&mut out, &parts);
    out
}

/// What the outcome of a linker means: where it failed, its messages are the error.
pub open spec fn linked(success: bool, messages: Seq<char>) -> Result<(), ErrorView> {
    if success {
        Ok(())
    } else {
        Err(err("linker failed: "@ + messages))
    }
}

/// What the outcome of a linker means.
pub fn link_outcome(success: bool, messages: &str) -> (r: Result<(), CodegenError>)
    ensures
        r.model() == linked(success, messages@),
{
    if success {
        Ok(())
    } else {
        Err(CodegenError::new(cat("linker failed: ", messages)))
    }
}

} // verus!

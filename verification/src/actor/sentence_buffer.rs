//! Accumulates streamed tokens and emits complete sentences (split on `.?!`),
//! so speech can start before the full response is generated.

use vstd::prelude::*;

use crate::text::{
    concat, is_white, lemma_trim_end, lemma_trim_start, push_chars, skip_white, tail_of, trim,
    trim_end, trim_range, trim_start, views,
};

verus! {

/// Whether `c` ends a sentence.
pub open spec fn is_terminator(c: char) -> bool {
    c == '.' || c == '?' || c == '!'
}

/// Index just past the first sentence terminator of `s`.
pub open spec fn sentence_end(s: Seq<char>) -> Option<int>
    decreases s.len(),
{
    if s.len() == 0 {
        None
    } else if is_terminator(s[0]) {
        Some(1)
    } else {
        match sentence_end(s.skip(1)) {
            Some(e) => Some(e + 1),
            None => None,
        }
    }
}

/// The complete sentences of `s`, without surrounding whitespace.
pub open spec fn sentences(s: Seq<char>) -> Seq<Seq<char>>
    decreases s.len(),
{
    match sentence_end(s) {
        Some(e) if 0 < e <= s.len() => seq![trim(s.take(e))] + sentences(s.skip(e)),
        _ => Seq::empty(),
    }
}

/// What follows the last complete sentence of `s`.
pub open spec fn remainder(s: Seq<char>) -> Seq<char>
    decreases s.len(),
{
    match sentence_end(s) {
        Some(e) if 0 < e <= s.len() => remainder(s.skip(e)),
        _ => s,
    }
}

/// What is kept of `s` once its complete sentences have been taken out.
pub open spec fn kept(s: Seq<char>) -> Seq<char> {
    if sentences(s).len() > 0 {
        trim_start(remainder(s))
    } else {
        s
    }
}

/// What is left to say of `s` at the end: its trimmed text, unless that is empty.
pub open spec fn last_words(s: Seq<char>) -> Option<Seq<char>> {
    if trim(s).len() > 0 {
        Some(trim(s))
    } else {
        None
    }
}

pub struct SentenceBuffer {
    buf: Vec<char>,
}

impl View for SentenceBuffer {
    type V = Seq<char>;

    closed spec fn view(&self) -> Seq<char> {
        self.buf@
    }
}

impl SentenceBuffer {
    pub fn new() -> (r: Self)
        ensures
            r@ == Seq::<char>::empty(),
    {
        SentenceBuffer { buf: Vec::new() }
    }

    /// Append streamed text; return any newly-completed sentences.
    pub fn push(&mut self, text: &str) -> (r: Vec<String>)
        ensures
            views(r@) == sentences(old(self)@ + text@),
            final(self)@ == kept(old(self)@ + text@),
    {
        let mut buf: Vec<char> = Vec::new();
        std::mem::swap(&mut buf, &mut self.buf);
        push_chars(&mut buf, text);
        let ghost all = buf@;
        let mut out: Vec<String> = Vec::new();
        let mut pos: usize = 0;
        assert(all.skip(0) =~= all);
        loop
            invariant_except_break
                sentences(all) == views(out@) + sentences(all.skip(pos as int)),
                remainder(all) == remainder(all.skip(pos as int)),
                out@.len() == 0 ==> pos == 0,
            invariant
                pos <= buf.len(),
                buf@ == all,
            ensures
                sentences(all) == views(out@),
                remainder(all) == all.skip(pos as int),
                out@.len() == 0 ==> pos == 0,
            decreases buf.len() - pos,
        {
            let ghost rest = all.skip(pos as int);
            match find_sentence_end(&buf, pos) {
                Some(end) => {
                    let sentence = trim_range(&buf, pos, end);
                    proof {
                        assert(rest.take(end - pos) =~= all.subrange(pos as int, end as int));
                        assert(rest.skip(end - pos) =~= all.skip(end as int));
                        assert(views(out@.push(sentence)) =~= views(out@).push(sentence@));
                    }
                    out.push(sentence);
                    pos = end;
                },
                None => {
                    break;
                },
            }
        }
        proof {
            assert(views(out@).len() == out@.len());
            assert(all.subrange(pos as int, all.len() as int) =~= all.skip(pos as int));
        }
        if out.len() > 0 {
            let start = skip_white(&buf, pos, buf.len());
            self.buf = tail_of(&buf, start);
            assert(all.subrange(start as int, all.len() as int) =~= all.skip(start as int));
        } else {
            self.buf = buf;
        }
        out
    }

    /// Return any trailing text not terminated by punctuation.
    pub fn flush(&mut self) -> (r: Option<String>)
        ensures
            match r {
                Some(rest) => last_words(old(self)@) == Some(rest@),
                None => last_words(old(self)@) is None,
            },
            final(self)@ == Seq::<char>::empty(),
    {
        let mut buf: Vec<char> = Vec::new();
        std::mem::swap(&mut buf, &mut self.buf);
        assert(buf@.subrange(0, buf@.len() as int) =~= buf@);
        let rest = trim_range(&buf, 0, buf.len());
        if rest.as_str().is_empty() {
            None
        } else {
            Some(rest)
        }
    }
}

/// Index just past the first sentence terminator (`.`, `?`, `!`) of `buf[from..]`.
pub fn find_sentence_end(buf: &Vec<char>, from: usize) -> (r: Option<usize>)
    requires
        from <= buf.len(),
    ensures
        match r {
            Some(end) => from < end <= buf.len() && sentence_end(buf@.skip(from as int)) == Some(
                end - from,
            ),
            None => sentence_end(buf@.skip(from as int)) is None,
        },
{
    let mut i: usize = from;
    while i < buf.len()
        invariant
            from <= i <= buf.len(),
            sentence_end(buf@.skip(from as int)) == match sentence_end(buf@.skip(i as int)) {
                Some(e) => Some(e + i - from),
                None => None::<int>,
            },
        decreases buf.len() - i,
    {
        let c = buf[i];
        if c == '.' || c == '?' || c == '!' {
            return Some(i + 1);
        }
        assert(buf@.skip(i as int).skip(1) =~= buf@.skip(i + 1));
        i += 1;
    }
    None
}

// ---------------------------------------------------------------------------
// Laws
// ---------------------------------------------------------------------------

/// What `sentence_end` returns: a terminator stands just before it, and none earlier.
pub proof fn lemma_sentence_end(s: Seq<char>)
    ensures
        match sentence_end(s) {
            Some(e) => {
                &&& 0 < e <= s.len()
                &&& is_terminator(s[e - 1])
                &&& forall|i: int| 0 <= i < e - 1 ==> !is_terminator(#[trigger] s[i])
            },
            None => forall|i: int| 0 <= i < s.len() ==> !is_terminator(#[trigger] s[i]),
        },
    decreases s.len(),
{
    if s.len() > 0 && !is_terminator(s[0]) {
        let t = s.skip(1);
        lemma_sentence_end(t);
        assert forall|i: int| 1 <= i < s.len() implies #[trigger] s[i] == t[i - 1] by {}
    }
}

/// A terminator with none before it is where the first sentence ends.
proof fn lemma_sentence_end_is(s: Seq<char>, e: int)
    requires
        0 < e <= s.len(),
        is_terminator(s[e - 1]),
        forall|i: int| 0 <= i < e - 1 ==> !is_terminator(#[trigger] s[i]),
    ensures
        sentence_end(s) == Some(e),
{
    lemma_sentence_end(s);
    match sentence_end(s) {
        Some(k) => {
            if k < e {
                assert(!is_terminator(s[k - 1]));
            } else if e < k {
                assert(!is_terminator(s[e - 1]));
            }
        },
        None => {
            assert(!is_terminator(s[e - 1]));
        },
    }
}

/// Appended text leaves the sentences already complete as they are.
proof fn lemma_sentences_append(s: Seq<char>, t: Seq<char>)
    ensures
        sentences(s + t) == sentences(s) + sentences(remainder(s) + t),
        remainder(s + t) == remainder(remainder(s) + t),
    decreases s.len(),
{
    lemma_sentence_end(s);
    match sentence_end(s) {
        Some(e) => {
            assert((s + t)[e - 1] == s[e - 1]);
            assert forall|i: int| 0 <= i < e - 1 implies !is_terminator(#[trigger] (s + t)[i]) by {
                assert((s + t)[i] == s[i]);
            }
            lemma_sentence_end_is(s + t, e);
            assert((s + t).take(e) =~= s.take(e));
            assert((s + t).skip(e) =~= s.skip(e) + t);
            lemma_sentences_append(s.skip(e), t);
            assert(sentences(s + t) =~= sentences(s) + sentences(remainder(s) + t));
        },
        None => {
            assert(sentences(s + t) =~= sentences(s) + sentences(s + t));
        },
    }
}

/// The remainder holds no terminator.
proof fn lemma_remainder(s: Seq<char>)
    ensures
        sentence_end(remainder(s)) is None,
        forall|i: int| 0 <= i < remainder(s).len() ==> !is_terminator(#[trigger] remainder(s)[i]),
    decreases s.len(),
{
    lemma_sentence_end(s);
    match sentence_end(s) {
        Some(e) => lemma_remainder(s.skip(e)),
        None => {},
    }
}

/// Leading whitespace does not show in the sentences, nor in what is trimmed
/// of the remainder.
proof fn lemma_leading_white(w: Seq<char>, s: Seq<char>)
    requires
        forall|i: int| 0 <= i < w.len() ==> is_white(#[trigger] w[i]),
    ensures
        sentences(w + s) == sentences(s),
        trim_start(remainder(w + s)) == trim_start(remainder(s)),
{
    lemma_sentence_end(s);
    let ws = w + s;
    match sentence_end(s) {
        Some(e) => {
            assert(ws[w.len() + e - 1] == s[e - 1]);
            assert forall|i: int| 0 <= i < w.len() + e - 1 implies !is_terminator(
                #[trigger] ws[i],
            ) by {
                if i < w.len() {
                    assert(ws[i] == w[i]);
                } else {
                    assert(ws[i] == s[i - w.len()]);
                }
            }
            lemma_sentence_end_is(ws, w.len() + e);
            assert(ws.take(w.len() + e) =~= w + s.take(e));
            assert(ws.skip(w.len() + e) =~= s.skip(e));
            lemma_trim_start_white(w, s.take(e));
        },
        None => {
            lemma_sentence_end(ws);
            match sentence_end(ws) {
                Some(k) => {
                    if k - 1 < w.len() {
                        assert(ws[k - 1] == w[k - 1]);
                    } else {
                        assert(ws[k - 1] == s[k - 1 - w.len()]);
                    }
                },
                None => {},
            }
            lemma_trim_start_white(w, s);
        },
    }
}

/// `trim_start` drops a blank prefix.
proof fn lemma_trim_start_white(w: Seq<char>, s: Seq<char>)
    requires
        forall|i: int| 0 <= i < w.len() ==> is_white(#[trigger] w[i]),
    ensures
        trim_start(w + s) == trim_start(s),
    decreases w.len(),
{
    if w.len() == 0 {
        assert(w + s =~= s);
    } else {
        assert((w + s)[0] == w[0]);
        assert((w + s).skip(1) =~= w.skip(1) + s);
        lemma_trim_start_white(w.skip(1), s);
    }
}

/// Dropping whitespace in front of `t` changes neither the sentences of what
/// follows nor, once trimmed, what is left of it.
pub proof fn lemma_trimmed_front(t: Seq<char>, b: Seq<char>)
    ensures
        sentences(trim_start(t) + b) == sentences(t + b),
        trim_start(remainder(trim_start(t) + b)) == trim_start(remainder(t + b)),
{
    lemma_trim_start(t);
    let k = t.len() - trim_start(t).len();
    let w = t.take(k);
    assert forall|i: int| 0 <= i < w.len() implies is_white(#[trigger] w[i]) by {
        assert(w[i] == t[i]);
    }
    assert(w + (trim_start(t) + b) =~= t + b);
    lemma_leading_white(w, trim_start(t) + b);
}

/// Text that arrives in two pieces is spoken as it would be in one: the same
/// sentences in the same order, and the same last words.
pub proof fn law_pieces_do_not_matter(s: Seq<char>, t: Seq<char>)
    ensures
        sentences(s + t) == sentences(s) + sentences(kept(s) + t),
        trim_start(kept(s + t)) == trim_start(kept(kept(s) + t)),
        last_words(kept(s + t)) == last_words(kept(kept(s) + t)),
{
    lemma_sentences_append(s, t);
    let r = remainder(s);
    lemma_trimmed_front(r, t);
    lemma_remainder(s);
    if sentences(s).len() == 0 {
        lemma_no_sentence(s);
    }
    let left = kept(s + t);
    let right = kept(kept(s) + t);
    lemma_kept_trimmed(s + t);
    lemma_kept_trimmed(kept(s) + t);
    lemma_trim_start_twice(remainder(s + t));
}

/// What is spoken while `pieces` arrive one by one, starting from a buffer that
/// holds `buf`.
pub open spec fn spoken(buf: Seq<char>, pieces: Seq<Seq<char>>) -> Seq<Seq<char>>
    decreases pieces.len(),
{
    if pieces.len() == 0 {
        Seq::empty()
    } else {
        sentences(buf + pieces[0]) + spoken(kept(buf + pieces[0]), pieces.skip(1))
    }
}

/// What the buffer holds once `pieces` have arrived.
pub open spec fn left_over(buf: Seq<char>, pieces: Seq<Seq<char>>) -> Seq<char>
    decreases pieces.len(),
{
    if pieces.len() == 0 {
        buf
    } else {
        left_over(kept(buf + pieces[0]), pieces.skip(1))
    }
}

/// Buffers that differ only in leading whitespace speak alike.
proof fn lemma_spoken_front(a: Seq<char>, b: Seq<char>, pieces: Seq<Seq<char>>)
    requires
        trim_start(a) == trim_start(b),
    ensures
        spoken(a, pieces) == spoken(b, pieces),
        trim_start(left_over(a, pieces)) == trim_start(left_over(b, pieces)),
    decreases pieces.len(),
{
    if pieces.len() > 0 {
        let p = pieces[0];
        lemma_trimmed_front(a, p);
        lemma_trimmed_front(b, p);
        lemma_kept_trimmed(a + p);
        lemma_kept_trimmed(b + p);
        lemma_spoken_front(kept(a + p), kept(b + p), pieces.skip(1));
    }
}

proof fn lemma_spoken(s: Seq<char>, pieces: Seq<Seq<char>>)
    ensures
        sentences(s + concat(pieces)) == sentences(s) + spoken(kept(s), pieces),
        trim_start(kept(s + concat(pieces))) == trim_start(left_over(kept(s), pieces)),
    decreases pieces.len(),
{
    if pieces.len() == 0 {
        assert(s + concat(pieces) =~= s);
        assert(sentences(s) + spoken(kept(s), pieces) =~= sentences(s));
    } else {
        let p = pieces[0];
        law_pieces_do_not_matter(s, p);
        lemma_spoken(s + p, pieces.skip(1));
        lemma_spoken_front(kept(s + p), kept(kept(s) + p), pieces.skip(1));
        assert(s + p + concat(pieces.skip(1)) =~= s + concat(pieces));
        assert(sentences(s + concat(pieces)) =~= sentences(s) + spoken(kept(s), pieces));
    }
}

/// What a stream says depends on its text alone, not on how it was split into
/// pieces: the sentences spoken on the way, and the last words at its end.
pub proof fn law_speech_is_its_text(pieces: Seq<Seq<char>>)
    ensures
        spoken(Seq::empty(), pieces) == sentences(concat(pieces)),
        last_words(left_over(Seq::empty(), pieces)) == last_words(kept(concat(pieces))),
{
    let none = Seq::<char>::empty();
    lemma_sentence_end(none);
    lemma_spoken(none, pieces);
    assert(none + concat(pieces) =~= concat(pieces));
    assert(sentences(none) + spoken(kept(none), pieces) =~= spoken(none, pieces));
}

/// Without a complete sentence everything is remainder.
proof fn lemma_no_sentence(s: Seq<char>)
    requires
        sentences(s).len() == 0,
    ensures
        remainder(s) == s,
{
    lemma_sentence_end(s);
}

/// What is kept is the remainder, up to leading whitespace.
pub proof fn lemma_kept_trimmed(s: Seq<char>)
    ensures
        trim_start(kept(s)) == trim_start(remainder(s)),
{
    if sentences(s).len() == 0 {
        lemma_no_sentence(s);
    } else {
        lemma_trim_start_twice(remainder(s));
    }
}

proof fn lemma_trim_start_twice(s: Seq<char>)
    ensures
        trim_start(trim_start(s)) == trim_start(s),
{
    lemma_trim_start(s);
}

/// Each sentence ends with a terminator, holds no other, and neither begins nor
/// ends with whitespace; so none is empty.
pub proof fn law_sentence_shape(s: Seq<char>, k: int)
    requires
        0 <= k < sentences(s).len(),
    ensures
        ({
            let t = sentences(s)[k];
            &&& t.len() > 0
            &&& is_terminator(t.last())
            &&& forall|i: int| 0 <= i < t.len() - 1 ==> !is_terminator(#[trigger] t[i])
            &&& !is_white(t[0])
            &&& !is_white(t.last())
        }),
    decreases s.len(),
{
    lemma_sentence_end(s);
    let e = sentence_end(s)->0;
    if k > 0 {
        law_sentence_shape(s.skip(e), k - 1);
        assert(sentences(s)[k] == sentences(s.skip(e))[k - 1]);
    } else {
        let x = s.take(e);
        let a = trim_start(x);
        lemma_trim_start(x);
        lemma_trim_end(a);
        let d = x.len() - a.len();
        if a.len() == 0 {
            assert(is_white(x[e - 1]));
        }
        assert(a.last() == x[e - 1]);
        assert(trim_end(a) == a);
        assert forall|i: int| 0 <= i < a.len() - 1 implies !is_terminator(#[trigger] a[i]) by {
            assert(a[i] == s[i + d]);
        }
        assert(sentences(s)[0] == trim(x));
    }
}

/// The characters of `s` that are no whitespace, in order.
pub open spec fn squeeze(s: Seq<char>) -> Seq<char>
    decreases s.len(),
{
    if s.len() == 0 {
        Seq::empty()
    } else if is_white(s.last()) {
        squeeze(s.drop_last())
    } else {
        squeeze(s.drop_last()).push(s.last())
    }
}

proof fn lemma_squeeze_append(s: Seq<char>, t: Seq<char>)
    ensures
        squeeze(s + t) == squeeze(s) + squeeze(t),
    decreases t.len(),
{
    if t.len() == 0 {
        assert(s + t =~= s);
        assert(squeeze(s) + squeeze(t) =~= squeeze(s));
    } else {
        assert((s + t).drop_last() =~= s + t.drop_last());
        lemma_squeeze_append(s, t.drop_last());
        assert(squeeze(s + t) =~= squeeze(s) + squeeze(t));
    }
}

proof fn lemma_squeeze_white(s: Seq<char>)
    requires
        forall|i: int| 0 <= i < s.len() ==> is_white(#[trigger] s[i]),
    ensures
        squeeze(s) == Seq::<char>::empty(),
    decreases s.len(),
{
    if s.len() > 0 {
        assert forall|i: int| 0 <= i < s.drop_last().len() implies is_white(
            #[trigger] s.drop_last()[i],
        ) by {
            assert(s.drop_last()[i] == s[i]);
        }
        lemma_squeeze_white(s.drop_last());
    }
}

proof fn lemma_squeeze_trim(s: Seq<char>)
    ensures
        squeeze(trim(s)) == squeeze(s),
        squeeze(trim_start(s)) == squeeze(s),
{
    lemma_trim_start(s);
    let a = trim_start(s);
    let k = s.len() - a.len();
    let w = s.take(k);
    assert(s =~= w + a);
    assert forall|i: int| 0 <= i < w.len() implies is_white(#[trigger] w[i]) by {
        assert(w[i] == s[i]);
    }
    lemma_squeeze_white(w);
    lemma_squeeze_append(w, a);
    assert(squeeze(w) + squeeze(a) =~= squeeze(a));
    lemma_trim_end(a);
    let b = trim_end(a);
    let z = a.skip(b.len() as int);
    assert(a =~= b + z);
    assert forall|i: int| 0 <= i < z.len() implies is_white(#[trigger] z[i]) by {
        assert(z[i] == a[b.len() + i]);
    }
    lemma_squeeze_white(z);
    lemma_squeeze_append(b, z);
    assert(squeeze(b) + squeeze(z) =~= squeeze(b));
}

/// Nothing but whitespace is lost or moved: the sentences followed by what is
/// kept hold the visible characters of the text, in order.
pub proof fn law_no_word_is_lost(s: Seq<char>)
    ensures
        squeeze(concat(sentences(s))) + squeeze(kept(s)) == squeeze(s),
{
    lemma_no_word_is_lost(s);
    lemma_squeeze_trim(remainder(s));
    if sentences(s).len() == 0 {
        lemma_no_sentence(s);
    }
}

proof fn lemma_no_word_is_lost(s: Seq<char>)
    ensures
        squeeze(concat(sentences(s))) + squeeze(remainder(s)) == squeeze(s),
    decreases s.len(),
{
    lemma_sentence_end(s);
    match sentence_end(s) {
        Some(e) => {
            let x = s.take(e);
            let rest = s.skip(e);
            lemma_no_word_is_lost(rest);
            lemma_squeeze_trim(x);
            assert(s =~= x + rest);
            lemma_squeeze_append(x, rest);
            assert(sentences(s).skip(1) =~= sentences(rest));
            lemma_squeeze_append(trim(x), concat(sentences(rest)));
            assert(squeeze(concat(sentences(s))) + squeeze(remainder(s)) =~= squeeze(s));
        },
        None => {
            assert(squeeze(concat(sentences(s))) + squeeze(s) =~= squeeze(s));
        },
    }
}

/// A sentence ends with a full stop, a question mark or an exclamation mark, and
/// none of these stands in it but at its end; nor in what is kept.
pub proof fn law_sentences_end_with_their_mark(s: Seq<char>, k: int)
    ensures
        0 <= k < sentences(s).len() ==> {
            let t = sentences(s)[k];
            &&& t.len() > 0
            &&& t.last() == '.' || t.last() == '?' || t.last() == '!'
            &&& forall|i: int|
                0 <= i < t.len() - 1 ==> #[trigger] t[i] != '.' && t[i] != '?' && t[i] != '!'
        },
        forall|i: int|
            0 <= i < kept(s).len() ==> #[trigger] kept(s)[i] != '.' && kept(s)[i] != '?'
                && kept(s)[i] != '!',
{
    if 0 <= k < sentences(s).len() {
        law_sentence_shape(s, k);
        let t = sentences(s)[k];
        assert forall|i: int| 0 <= i < t.len() - 1 implies #[trigger] t[i] != '.' && t[i] != '?'
            && t[i] != '!' by {
            assert(!is_terminator(t[i]));
        }
    }
    lemma_remainder(s);
    lemma_sentence_end(remainder(s));
    lemma_trim_start(remainder(s));
    if sentences(s).len() == 0 {
        lemma_no_sentence(s);
    }
    assert forall|i: int| 0 <= i < kept(s).len() implies #[trigger] kept(s)[i] != '.' && kept(s)[i]
        != '?' && kept(s)[i] != '!' by {
        let j = i + remainder(s).len() - kept(s).len();
        assert(kept(s)[i] == remainder(s)[j]);
        assert(!is_terminator(remainder(s)[j]));
    }
}

/// A text without a full stop, question mark or exclamation mark completes no
/// sentence and is kept whole.
pub proof fn law_without_a_mark_nothing_is_complete(s: Seq<char>)
    requires
        forall|i: int| 0 <= i < s.len() ==> #[trigger] s[i] != '.' && s[i] != '?' && s[i] != '!',
    ensures
        sentences(s).len() == 0,
        kept(s) == s,
{
    lemma_sentence_end(s);
    if sentence_end(s) is Some {
        assert(is_terminator(s[sentence_end(s)->0 - 1]));
    }
}

/// A mark completes a sentence at once: the text up to the first mark, without the
/// whitespace around it, is the next sentence, and the rest is cut as if it stood
/// alone. What is kept of a text with a mark in it has no whitespace in front.
pub proof fn law_text_is_cut_at_each_mark(before: Seq<char>, mark: char, rest: Seq<char>)
    requires
        forall|i: int|
            0 <= i < before.len() ==> #[trigger] before[i] != '.' && before[i] != '?' && before[i]
                != '!',
        mark == '.' || mark == '?' || mark == '!',
    ensures
        ({
            let s = before.push(mark) + rest;
            &&& sentences(s) == seq![trim(before.push(mark))] + sentences(rest)
            &&& kept(s) == if sentences(rest).len() == 0 {
                trim_start(rest)
            } else {
                kept(rest)
            }
        }),
{
    let s = before.push(mark) + rest;
    let e = before.len() + 1;
    assert(s[e - 1] == mark);
    assert forall|i: int| 0 <= i < e - 1 implies !is_terminator(#[trigger] s[i]) by {
        assert(s[i] == before[i]);
    }
    lemma_sentence_end_is(s, e as int);
    assert(s.take(e as int) =~= before.push(mark));
    assert(s.skip(e as int) =~= rest);
    if sentences(rest).len() == 0 {
        lemma_no_sentence(rest);
    }
}

/// The last words are what is left, without the whitespace around it; there are none
/// only where nothing but whitespace is left.
pub proof fn law_last_words(s: Seq<char>)
    ensures
        last_words(s) is None <==> trim(s).len() == 0,
        last_words(s) matches Some(words) ==> words == trim(s),
{
}

} // verus!

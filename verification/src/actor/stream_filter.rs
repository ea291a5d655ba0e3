//! Streaming extractor for inline tool-call tags.
//!
//! Tags look like `<CALL:ADD_TASK>body</CALL>` and may be split across any
//! number of streamed tokens. The filter:
//!   * emits visible text as soon as it is known not to be part of an open tag,
//!   * holds back a short tail that could still be the start of `<CALL:`,
//!   * while inside a tag, suppresses output and buffers the body,
//!   * on the closing tag, yields the captured body for execution.

use vstd::prelude::*;

use crate::text::{
    chars_of, concat, find, find_from, lemma_find, lemma_find_is, lemma_find_none, matches_at,
    push_chars, starts_with, string_of, tail_of, views,
};

verus! {

/// Opens a tool call.
pub const OPEN: &'static str = "<CALL:";

/// Closes a tool call.
pub const CLOSE: &'static str = "</CALL>";

/// What is known of a stream up to some point.
pub struct Scan {
    /// Text outside tags that has been let through.
    pub visible: Seq<char>,
    /// Bodies of the tags that have been closed, in order.
    pub calls: Seq<Seq<char>>,
    /// Whether a tag is open.
    pub capturing: bool,
    /// The body so far of the open tag; without one, the text held back.
    pub pending: Seq<char>,
}

/// Length of the longest suffix of `s` that is a prefix of `<CALL:` and has at
/// most `k` characters.
pub open spec fn partial_len(s: Seq<char>, k: nat) -> nat
    decreases k,
{
    if k == 0 {
        0
    } else if k <= s.len() && s.skip(s.len() - k) == OPEN@.take(k as int) {
        k
    } else {
        partial_len(s, (k - 1) as nat)
    }
}

/// Length of the longest suffix of `s` that is a proper prefix of `<CALL:`.
pub open spec fn held_len(s: Seq<char>) -> nat {
    partial_len(s, 5)
}

/// Reads `s`, which begins outside a tag when `capturing` is false and inside
/// one when it is true.
pub open spec fn scan(capturing: bool, s: Seq<char>) -> Scan
    decreases s.len(),
{
    if capturing {
        match find(s, CLOSE@) {
            Some(j) if 0 <= j && j + 7 <= s.len() => {
                let r = scan(false, s.skip(j + 7));
                Scan { calls: seq![s.take(j)] + r.calls, ..r }
            },
            _ => Scan { visible: Seq::empty(), calls: Seq::empty(), capturing: true, pending: s },
        }
    } else {
        match find(s, OPEN@) {
            Some(i) if 0 <= i && i + 6 <= s.len() => {
                let r = scan(true, s.skip(i + 6));
                Scan { visible: s.take(i) + r.visible, ..r }
            },
            _ => {
                let cut = s.len() - held_len(s);
                Scan {
                    visible: s.take(cut),
                    calls: Seq::empty(),
                    capturing: false,
                    pending: s.skip(cut),
                }
            },
        }
    }
}

/// The state a stream is in: whether a tag is open, the text not settled yet,
/// and the text let through since the stream began.
pub struct FilterState {
    pub capturing: bool,
    pub pending: Seq<char>,
    pub visible: Seq<char>,
}

pub struct StreamFilter {
    capturing: bool,
    /// Body of the open tag, or text that may still turn out to begin one.
    pending: Vec<char>,
    /// All visible (non-tag) text emitted so far.
    visible: String,
}

impl View for StreamFilter {
    type V = FilterState;

    closed spec fn view(&self) -> FilterState {
        FilterState { capturing: self.capturing, pending: self.pending@, visible: self.visible@ }
    }
}

/// Length of the longest suffix of `buf[from..]` that is a proper prefix of
/// `<CALL:`, to be held back in case the tag continues in the next piece.
pub fn partial_open_len(buf: &Vec<char>, from: usize) -> (r: usize)
    requires
        from <= buf.len(),
    ensures
        r == held_len(buf@.skip(from as int)),
        r <= buf.len() - from,
{
    let open = chars_of(OPEN);
    proof {
        reveal_strlit("<CALL:");
    }
    let n: usize = buf.len() - from;
    let ghost s = buf@.skip(from as int);
    let mut k: usize = 5;
    while k > 0
        invariant
            k <= 5,
            n == buf.len() - from,
            from <= buf.len(),
            open@ == OPEN@,
            open@.len() == 6,
            s == buf@.skip(from as int),
            partial_len(s, 5) == partial_len(s, k as nat),
        decreases k,
    {
        if k <= n {
            let head = head_of(&open, k);
            if matches_at(buf, buf.len() - k, &head) {
                proof {
                    assert(buf@.skip(buf.len() - k) =~= s.skip(s.len() - k));
                    assert(s.skip(s.len() - k).take(k as int) =~= s.skip(s.len() - k));
                }
                return k;
            }
            proof {
                assert(buf@.skip(buf.len() - k) =~= s.skip(s.len() - k));
                assert(s.skip(s.len() - k).take(k as int) =~= s.skip(s.len() - k));
            }
        }
        k -= 1;
    }
    0
}

/// The first `k` characters of `v`.
fn head_of(v: &Vec<char>, k: usize) -> (r: Vec<char>)
    requires
        k <= v.len(),
    ensures
        r@ == v@.take(k as int),
{
    let mut out: Vec<char> = Vec::new();
    let mut i: usize = 0;
    while i < k
        invariant
            i <= k <= v.len(),
            out@ == v@.take(i as int),
        decreases k - i,
    {
        out.push(v[i]);
        i += 1;
    }
    out
}

impl StreamFilter {
    pub fn new() -> (r: Self)
        ensures
            !r@.capturing,
            r@.pending == Seq::<char>::empty(),
            r@.visible == Seq::<char>::empty(),
    {
        StreamFilter { capturing: false, pending: Vec::new(), visible: String::new() }
    }

    /// The full visible text accumulated so far (tags removed).
    pub fn visible_text(&self) -> (r: &str)
        ensures
            r@ == self@.visible,
    {
        self.visible.as_str()
    }

    /// Feed one streamed piece. Returns `(text_to_emit, completed_call_bodies)`.
    pub fn push(&mut self, piece: &str) -> (r: (String, Vec<String>))
        ensures
            ({
                let out = scan(old(self)@.capturing, old(self)@.pending + piece@);
                &&& r.0@ == out.visible
                &&& views(r.1@) == out.calls
                &&& final(self)@ == (FilterState {
                    capturing: out.capturing,
                    pending: out.pending,
                    visible: old(self)@.visible + out.visible,
                })
            }),
    {
        let mut emit = String::new();
        let mut calls: Vec<String> = Vec::new();
        let open = chars_of(OPEN);
        let close = chars_of(CLOSE);
        proof {
            reveal_strlit("<CALL:");
            reveal_strlit("</CALL>");
        }

        let mut buf: Vec<char> = Vec::new();
        std::mem::swap(&mut buf, &mut self.pending);
        push_chars(&mut buf, piece);
        let ghost all = buf@;
        let ghost whole = scan(old(self)@.capturing, all);

        let mut capturing = self.capturing;
        let mut pos: usize = 0;
        assert(all.skip(0) =~= all);
        loop
            invariant_except_break
                whole.visible == emit@ + scan(capturing, all.skip(pos as int)).visible,
                whole.calls == views(calls@) + scan(capturing, all.skip(pos as int)).calls,
                whole.capturing == scan(capturing, all.skip(pos as int)).capturing,
                whole.pending == scan(capturing, all.skip(pos as int)).pending,
            invariant
                pos <= buf.len(),
                buf@ == all,
                open@ == OPEN@,
                open@.len() == 6,
                close@ == CLOSE@,
                close@.len() == 7,
                self.visible@ == old(self).visible@,
            ensures
                whole.visible == emit@,
                whole.calls == views(calls@),
                whole.capturing == capturing,
                whole.pending == all.skip(pos as int),
            decreases buf.len() - pos,
        {
            let ghost rest = all.skip(pos as int);
            if capturing {
                match find_from(&buf, pos, &close) {
                    Some(j) => {
                        let body = string_of(&buf, pos, j);
                        proof {
                            assert(rest.take(j - pos) =~= body@);
                            assert(rest.skip(j - pos + 7) =~= all.skip(j + 7));
                            assert(views(calls@.push(body)) =~= views(calls@).push(body@));
                        }
                        calls.push(body);
                        pos = j + close.len();
                        capturing = false;
                    },
                    None => {
                        // The closing tag is not here yet.
                        break;
                    },
                }
            } else {
                match find_from(&buf, pos, &open) {
                    Some(i) => {
                        let before = string_of(&buf, pos, i);
                        proof {
                            assert(rest.take(i - pos) =~= before@);
                            assert(rest.skip(i - pos + 6) =~= all.skip(i + 6));
                        }
                        emit.append(before.as_str());
                        pos = i + open.len();
                        capturing = true;
                    },
                    None => {
                        // No open tag: let through all but a possible partial tag.
                        let keep = partial_open_len(&buf, pos);
                        let cut: usize = buf.len() - keep;
                        let flush = string_of(&buf, pos, cut);
                        proof {
                            assert(rest.take(rest.len() - keep) =~= flush@);
                            assert(rest.skip(rest.len() - keep) =~= all.skip(cut as int));
                        }
                        emit.append(flush.as_str());
                        pos = cut;
                        break;
                    },
                }
            }
        }
        self.capturing = capturing;
        self.pending = tail_of(&buf, pos);
        self.visible.append(emit.as_str());
        (emit, calls)
    }

    /// Flush remaining held-back text at end of stream (it was never a tag).
    pub fn finish(&mut self) -> (r: String)
        ensures
            r@ == (if old(self)@.capturing { Seq::<char>::empty() } else { old(self)@.pending }),
            final(self)@ == (FilterState {
                capturing: old(self)@.capturing,
                pending: if old(self)@.capturing { old(self)@.pending } else { Seq::empty() },
                visible: old(self)@.visible + r@,
            }),
    {
        if self.capturing {
            return String::new();
        }
        let rest = string_of(&self.pending, 0, self.pending.len());
        self.pending = Vec::new();
        self.visible.append(rest.as_str());
        rest
    }
}

// ---------------------------------------------------------------------------
// Laws
// ---------------------------------------------------------------------------

/// What `partial_len` returns: such a suffix, and no longer one within `k`.
proof fn lemma_partial_len(s: Seq<char>, k: nat)
    requires
        k <= 5,
    ensures
        ({
            let n = partial_len(s, k);
            &&& n <= k
            &&& n <= s.len()
            &&& s.skip(s.len() - n) == OPEN@.take(n as int)
            &&& forall|m: int|
                n < m <= k && m <= s.len() ==> #[trigger] s.skip(s.len() - m) != OPEN@.take(m)
        }),
    decreases k,
{
    reveal_strlit("<CALL:");
    if k == 0 {
        assert(s.skip(s.len() as int) =~= OPEN@.take(0));
    } else if k <= s.len() && s.skip(s.len() - k) == OPEN@.take(k as int) {
    } else {
        lemma_partial_len(s, (k - 1) as nat);
    }
}

/// A suffix found to be a proper prefix of `<CALL:`, with none longer, is what
/// is held back.
proof fn lemma_held_len_is(s: Seq<char>, n: nat)
    requires
        n <= 5,
        n <= s.len(),
        s.skip(s.len() - n) == OPEN@.take(n as int),
        forall|m: int|
            n < m <= 5 && m <= s.len() ==> #[trigger] s.skip(s.len() - m) != OPEN@.take(m),
    ensures
        held_len(s) == n,
{
    lemma_partial_len(s, 5);
    let h = held_len(s) as int;
    if h < n {
        assert(s.skip(s.len() - n) != OPEN@.take(n as int));
    } else if n < h {
        assert(s.skip(s.len() - h) != OPEN@.take(h));
    }
}

/// An occurrence of `pat` in `s` is one in `s + t`, and the other way round
/// where it ends within `s`.
proof fn lemma_starts_with_append(s: Seq<char>, t: Seq<char>, pat: Seq<char>, i: int)
    requires
        0 <= i,
        i + pat.len() <= s.len(),
    ensures
        starts_with((s + t).skip(i), pat) == starts_with(s.skip(i), pat),
{
    assert((s + t).skip(i).take(pat.len() as int) =~= s.skip(i).take(pat.len() as int));
}

/// The first occurrence within `s` stays the first when text is appended.
proof fn lemma_find_append(s: Seq<char>, t: Seq<char>, pat: Seq<char>)
    requires
        find(s, pat) is Some,
    ensures
        find(s + t, pat) == find(s, pat),
{
    lemma_find(s, pat);
    let i = find(s, pat)->0;
    lemma_starts_with_append(s, t, pat, i);
    assert forall|j: int| 0 <= j < i implies !starts_with(#[trigger] (s + t).skip(j), pat) by {
        lemma_starts_with_append(s, t, pat, j);
        assert(!starts_with(s.skip(j), pat));
    }
    lemma_find_is(s + t, pat, i);
}

/// Without an occurrence in `s`, the first one in `s + t` is found after
/// dropping any prefix of `s` in which none can begin.
proof fn lemma_find_after(s: Seq<char>, t: Seq<char>, pat: Seq<char>, cut: int)
    requires
        0 <= cut <= s.len(),
        forall|j: int| 0 <= j < cut ==> !starts_with(#[trigger] (s + t).skip(j), pat),
    ensures
        find(s + t, pat) == match find(s.skip(cut) + t, pat) {
            Some(i) => Some(i + cut),
            None => None::<int>,
        },
{
    let u = s.skip(cut) + t;
    assert forall|j: int| 0 <= j <= u.len() implies #[trigger] u.skip(j) == (s + t).skip(
        cut + j,
    ) by {
        assert(u.skip(j) =~= (s + t).skip(cut + j));
    }
    lemma_find(u, pat);
    match find(u, pat) {
        Some(i) => {
            assert(starts_with(u.skip(i), pat));
            assert forall|j: int| 0 <= j < i + cut implies !starts_with(
                #[trigger] (s + t).skip(j),
                pat,
            ) by {
                if j >= cut {
                    assert(u.skip(j - cut) == (s + t).skip(j));
                }
            }
            lemma_find_is(s + t, pat, i + cut);
        },
        None => {
            assert forall|j: int| 0 <= j <= (s + t).len() implies !starts_with(
                #[trigger] (s + t).skip(j),
                pat,
            ) by {
                if j >= cut {
                    assert(u.skip(j - cut) == (s + t).skip(j));
                }
            }
            lemma_find_none(s + t, pat);
        },
    }
}

/// Text without a complete opening tag: no tag begins before the part held
/// back, whatever follows.
proof fn lemma_no_tag_before_held(s: Seq<char>, t: Seq<char>, j: int)
    requires
        find(s, OPEN@) is None,
        0 <= j < s.len() - held_len(s),
    ensures
        !starts_with((s + t).skip(j), OPEN@),
{
    lemma_tag_lengths();
    lemma_partial_len(s, 5);
    lemma_find(s, OPEN@);
    let w = s + t;
    if j + 6 <= s.len() {
        lemma_starts_with_append(s, t, OPEN@, j);
        assert(!starts_with(s.skip(j), OPEN@));
    } else {
        let m = s.len() - j;
        assert(s.skip(s.len() - m) != OPEN@.take(m));
        if starts_with(w.skip(j), OPEN@) {
            assert(w.skip(j).take(6).take(m) =~= s.skip(j));
        }
    }
}

/// Where appending text completes no tag, what is held back afterwards is what
/// would be held back had only the part held back before come first.
proof fn lemma_held_stays(s: Seq<char>, t: Seq<char>)
    ensures
        held_len(s) <= s.len(),
        held_len(s + t) == held_len(s.skip(s.len() - held_len(s)) + t),
{
    lemma_tag_lengths();
    lemma_partial_len(s, 5);
    let cut = s.len() - held_len(s);
    let u = s.skip(cut) + t;
    let w = s + t;
    lemma_partial_len(u, 5);
    let n = held_len(u);
    assert(u.skip(u.len() - n) =~= w.skip(w.len() - n));
    assert forall|m: int| n < m <= 5 && m <= w.len() implies #[trigger] w.skip(w.len() - m)
        != OPEN@.take(m) by {
        if m <= u.len() {
            assert(u.skip(u.len() - m) =~= w.skip(w.len() - m));
        } else {
            // The suffix begins before the part held back.
            let k = m - t.len();
            assert(s.skip(s.len() - k) != OPEN@.take(k));
            if w.skip(w.len() - m) == OPEN@.take(m) {
                assert(w.skip(w.len() - m).take(k) =~= s.skip(s.len() - k));
                assert(OPEN@.take(m).take(k) =~= OPEN@.take(k));
            }
        }
    }
    lemma_held_len_is(w, n);
}

proof fn lemma_tag_lengths()
    ensures
        OPEN@.len() == 6,
        CLOSE@.len() == 7,
{
    reveal_strlit("<CALL:");
    reveal_strlit("</CALL>");
}

/// Both parts of a stream that is cut in two, read one after the other, against
/// the stream read whole.
pub open spec fn parts_agree(capturing: bool, s: Seq<char>, t: Seq<char>) -> bool {
    let first = scan(capturing, s);
    let second = scan(first.capturing, first.pending + t);
    let whole = scan(capturing, s + t);
    &&& whole.visible == first.visible + second.visible
    &&& whole.calls == first.calls + second.calls
    &&& whole.capturing == second.capturing
    &&& whole.pending == second.pending
}

/// Text without an opening tag, read outside a tag.
proof fn lemma_scan_plain(s: Seq<char>)
    requires
        find(s, OPEN@) is None,
    ensures
        held_len(s) <= s.len(),
        scan(false, s) == (Scan {
            visible: s.take(s.len() - held_len(s)),
            calls: Seq::empty(),
            capturing: false,
            pending: s.skip(s.len() - held_len(s)),
        }),
{
    lemma_partial_len(s, 5);
}

/// Text with an opening tag, read outside a tag.
proof fn lemma_scan_open(s: Seq<char>, i: int)
    requires
        find(s, OPEN@) == Some(i),
    ensures
        0 <= i,
        i + 6 <= s.len(),
        ({
            let r = scan(true, s.skip(i + 6));
            scan(false, s) == Scan { visible: s.take(i) + r.visible, ..r }
        }),
{
    lemma_tag_lengths();
    lemma_find(s, OPEN@);
}

/// The case of a text in which no tag is complete.
proof fn lemma_parts_agree_plain(s: Seq<char>, t: Seq<char>)
    requires
        find(s, OPEN@) is None,
    ensures
        parts_agree(false, s, t),
{
    lemma_scan_plain(s);
    let cut = s.len() - held_len(s);
    let u = s.skip(cut) + t;
    let w = s + t;
    assert(find(w, OPEN@) == match find(u, OPEN@) {
        Some(i) => Some(i + cut),
        None => None::<int>,
    }) by {
        assert forall|j: int| 0 <= j < cut implies !starts_with(#[trigger] w.skip(j), OPEN@) by {
            lemma_no_tag_before_held(s, t, j);
        }
        lemma_find_after(s, t, OPEN@, cut);
    }
    let first = scan(false, s);
    let second = scan(false, u);
    let whole = scan(false, w);
    match find(u, OPEN@) {
        Some(i) => {
            lemma_scan_open(u, i);
            lemma_scan_open(w, i + cut);
            assert(w.skip(i + cut + 6) =~= u.skip(i + 6));
            assert(whole.visible =~= first.visible + second.visible);
            assert(whole.calls =~= first.calls + second.calls);
        },
        None => {
            lemma_scan_plain(u);
            lemma_scan_plain(w);
            lemma_held_stays(s, t);
            assert(whole.visible =~= first.visible + second.visible);
            assert(whole.calls =~= first.calls + second.calls);
            assert(whole.pending =~= second.pending);
        },
    }
}

/// However a stream is cut in two, reading the parts one after the other gives
/// what reading it whole gives: the same visible text, the same calls in the
/// same order, and the same state at the end.
pub proof fn law_pieces_do_not_matter(capturing: bool, s: Seq<char>, t: Seq<char>)
    ensures
        parts_agree(capturing, s, t),
    decreases s.len(),
{
    lemma_tag_lengths();
    let first = scan(capturing, s);
    let second = scan(first.capturing, first.pending + t);
    let whole = scan(capturing, s + t);
    if capturing {
        lemma_find(s, CLOSE@);
        match find(s, CLOSE@) {
            Some(j) => {
                lemma_find_append(s, t, CLOSE@);
                assert((s + t).take(j) =~= s.take(j));
                assert((s + t).skip(j + 7) =~= s.skip(j + 7) + t);
                law_pieces_do_not_matter(false, s.skip(j + 7), t);
                assert(whole.calls =~= first.calls + second.calls);
            },
            None => {
                assert(whole.visible =~= first.visible + second.visible);
                assert(whole.calls =~= first.calls + second.calls);
            },
        }
    } else {
        lemma_find(s, OPEN@);
        match find(s, OPEN@) {
            Some(i) => {
                lemma_find_append(s, t, OPEN@);
                assert((s + t).take(i) =~= s.take(i));
                assert((s + t).skip(i + 6) =~= s.skip(i + 6) + t);
                law_pieces_do_not_matter(true, s.skip(i + 6), t);
                assert(whole.visible =~= first.visible + second.visible);
            },
            None => {
                lemma_parts_agree_plain(s, t);
            },
        }
    }
}

/// The state of a stream of which nothing has been read.
pub open spec fn unread() -> Scan {
    Scan { visible: Seq::empty(), calls: Seq::empty(), capturing: false, pending: Seq::empty() }
}

/// What a stream in state `from` comes to as `pieces` arrive one by one: for
/// each, what `StreamFilter::push` emits and returns, put together.
pub open spec fn feed(from: Scan, pieces: Seq<Seq<char>>) -> Scan
    decreases pieces.len(),
{
    if pieces.len() == 0 {
        from
    } else {
        let step = scan(from.capturing, from.pending + pieces[0]);
        feed(
            Scan {
                visible: from.visible + step.visible,
                calls: from.calls + step.calls,
                capturing: step.capturing,
                pending: step.pending,
            },
            pieces.skip(1),
        )
    }
}

proof fn lemma_feed(capturing: bool, s: Seq<char>, pieces: Seq<Seq<char>>)
    ensures
        feed(scan(capturing, s), pieces) == scan(capturing, s + concat(pieces)),
    decreases pieces.len(),
{
    if pieces.len() == 0 {
        assert(s + concat(pieces) =~= s);
    } else {
        law_pieces_do_not_matter(capturing, s, pieces[0]);
        lemma_feed(capturing, s + pieces[0], pieces.skip(1));
        assert(s + pieces[0] + concat(pieces.skip(1)) =~= s + concat(pieces));
    }
}

/// The visible text and the calls that a stream yields depend on its text
/// alone, not on how it was split into pieces.
pub proof fn law_stream_is_its_text(pieces: Seq<Seq<char>>)
    ensures
        feed(unread(), pieces) == scan(false, concat(pieces)),
{
    lemma_tag_lengths();
    let none = Seq::<char>::empty();
    lemma_find(none, OPEN@);
    lemma_partial_len(none, 5);
    assert(none.take(0) =~= none);
    assert(none.skip(0) =~= none);
    assert(scan(false, none) == unread());
    lemma_feed(false, none, pieces);
    assert(none + concat(pieces) =~= concat(pieces));
}

/// Text without an opening tag passes through unchanged: what is emitted,
/// followed by what the end of the stream flushes, is the text.
pub proof fn law_plain_text_passes(s: Seq<char>)
    requires
        find(s, OPEN@) is None,
    ensures
        scan(false, s).visible + scan(false, s).pending == s,
        scan(false, s).calls.len() == 0,
        !scan(false, s).capturing,
{
    lemma_partial_len(s, 5);
    let cut = s.len() - held_len(s);
    assert(s.take(cut) + s.skip(cut) =~= s);
}

/// What is held back outside a tag could still begin one: it is a proper prefix
/// of `<CALL:`. What is held back inside a tag holds no closing tag.
pub proof fn law_held_back_is_short(capturing: bool, s: Seq<char>)
    ensures
        ({
            let r = scan(capturing, s);
            if r.capturing {
                find(r.pending, CLOSE@) is None
            } else {
                r.pending.len() < OPEN@.len() && starts_with(OPEN@, r.pending)
            }
        }),
    decreases s.len(),
{
    lemma_tag_lengths();
    if capturing {
        lemma_find(s, CLOSE@);
        match find(s, CLOSE@) {
            Some(j) => law_held_back_is_short(false, s.skip(j + 7)),
            None => {},
        }
    } else {
        lemma_find(s, OPEN@);
        match find(s, OPEN@) {
            Some(i) => law_held_back_is_short(true, s.skip(i + 6)),
            None => lemma_partial_len(s, 5),
        }
    }
}

/// `pat` begins with a character that does not occur in it again.
pub open spec fn no_self_overlap(pat: Seq<char>) -> bool {
    &&& pat.len() > 0
    &&& forall|i: int| 0 < i < pat.len() ==> #[trigger] pat[i] != pat[0]
}

/// Where `s` holds no `pat`, the first `pat` of `s + pat + t` is the one put there.
proof fn lemma_find_at_end(s: Seq<char>, pat: Seq<char>, t: Seq<char>)
    requires
        find(s, pat) is None,
        no_self_overlap(pat),
    ensures
        find(s + pat + t, pat) == Some(s.len() as int),
{
    let w = s + pat + t;
    lemma_find(s, pat);
    assert(w.skip(s.len() as int).take(pat.len() as int) =~= pat);
    assert forall|j: int| 0 <= j < s.len() implies !starts_with(#[trigger] w.skip(j), pat) by {
        if starts_with(w.skip(j), pat) {
            let got = w.skip(j).take(pat.len() as int);
            if j + pat.len() <= s.len() {
                assert(s.skip(j).take(pat.len() as int) =~= got);
                assert(!starts_with(s.skip(j), pat));
            } else {
                let k = s.len() - j;
                assert(got[k] == w[j + k]);
                assert(w[s.len() as int] == pat[0]);
            }
        }
    }
    lemma_find_is(w, pat, s.len() as int);
}

/// A tag is taken out of the text around it: the text before it is emitted, its
/// body is the next call, and reading goes on behind it.
pub proof fn law_tag_is_extracted(before: Seq<char>, body: Seq<char>, rest: Seq<char>)
    requires
        find(before, OPEN@) is None,
        find(body, CLOSE@) is None,
    ensures
        ({
            let r = scan(false, before + OPEN@ + body + CLOSE@ + rest);
            let after = scan(false, rest);
            &&& r.visible == before + after.visible
            &&& r.calls == seq![body] + after.calls
            &&& r.capturing == after.capturing
            &&& r.pending == after.pending
        }),
{
    reveal_strlit("<CALL:");
    reveal_strlit("</CALL>");
    reveal_with_fuel(scan, 3);
    let tail = body + CLOSE@ + rest;
    let s = before + OPEN@ + tail;
    assert(s =~= before + OPEN@ + body + CLOSE@ + rest);
    lemma_find_at_end(before, OPEN@, tail);
    lemma_find_at_end(body, CLOSE@, rest);
    assert(s.skip(before.len() as int + 6) =~= tail);
    assert(s.take(before.len() as int) =~= before);
    assert(tail.skip(body.len() as int + 7) =~= rest);
    assert(tail.take(body.len() as int) =~= body);
}

/// A tag that is never closed is never shown: the text before it is all that is
/// emitted, and the end of the stream flushes nothing.
pub proof fn law_unclosed_tag_is_hidden(before: Seq<char>, body: Seq<char>)
    requires
        find(before, OPEN@) is None,
        find(body, CLOSE@) is None,
    ensures
        ({
            let r = scan(false, before + OPEN@ + body);
            &&& r.visible == before
            &&& r.calls.len() == 0
            &&& r.capturing
            &&& r.pending == body
        }),
{
    reveal_strlit("<CALL:");
    reveal_strlit("</CALL>");
    reveal_with_fuel(scan, 2);
    let s = before + OPEN@ + body;
    lemma_find_at_end(before, OPEN@, body);
    assert(s.skip(before.len() as int + 6) =~= body);
    assert(s.take(before.len() as int) =~= before);
    assert(scan(false, s).visible =~= before);
}

/// The marks of a tool call.
pub proof fn law_marks_of_a_call()
    ensures
        OPEN@ == "<CALL:"@,
        CLOSE@ == "</CALL>"@,
{
}

} // verus!

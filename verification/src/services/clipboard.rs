//! OS clipboard context awareness.
//!
//! On global-hotkey invocation the clipboard is snapshotted into a
//! [`ClipboardContext`]; the next turn's (invisible) system prompt consumes it,
//! so the user can copy an error and just ask "what is this?".

use vstd::prelude::*;

use crate::text::{
    blank, clip, clipped, is_blank, is_white, lemma_trim_blank, lemma_trim_end, lemma_trim_start,
    opt_view, trim, trim_end, trim_start, trimmed, trimmed_end,
};

verus! {

/// Max clipboard characters injected (safety against huge pastes).
pub const CLIPBOARD_MAX_CHARS: usize = 2000;

/// One-shot clipboard snapshot consumed by the next prompt build.
pub struct ClipboardContext {
    inner: Option<String>,
}

impl View for ClipboardContext {
    type V = Option<Seq<char>>;

    closed spec fn view(&self) -> Option<Seq<char>> {
        opt_view(self.inner)
    }
}

impl ClipboardContext {
    pub fn new() -> (r: Self)
        ensures
            r@ is None,
    {
        ClipboardContext { inner: None }
    }

    /// Store (or clear) the pending clipboard snapshot.
    pub fn set(&mut self, text: Option<String>)
        ensures
            final(self)@ == after_use(old(self)@, ClipboardUse::Store(opt_view(text))),
    {
        self.inner = text;
    }

    /// Consume the pending snapshot (cleared after read).
    pub fn take(&mut self) -> (r: Option<String>)
        ensures
            opt_view(r) == old(self)@,
            final(self)@ == after_use(old(self)@, ClipboardUse::Take),
    {
        self.inner.take()
    }
}

/// What is used of a text that is not blank: its beginning, without whitespace at
/// either end.
pub open spec fn excerpt(s: Seq<char>) -> Seq<char> {
    trim_end(clip(trim(s), CLIPBOARD_MAX_CHARS as nat))
}

/// What is used of a clipboard that held `text`, clamped and trimmed: nothing if it
/// could not be read or is blank.
pub fn snapshot(text: Option<String>) -> (r: Option<String>)
    ensures
        opt_view(r) == match opt_view(text) {
            Some(s) if !blank(s) => Some(excerpt(s)),
            _ => None,
        },
{
    match text {
        Some(s) => {
            if is_blank(s.as_str()) {
                None
            } else {
                let whole = trimmed(s.as_str());
                Some(trimmed_end(clipped(whole.as_str(), CLIPBOARD_MAX_CHARS).as_str()))
            }
        },
        None => None,
    }
}

/// What is used of a clipboard is not blank and has no whitespace at either end; it
/// is within the bound, and a part of the text. Of a text within the bound it is
/// all but the whitespace at both ends; of a longer one it is the beginning, up to the
/// bound or to whitespace that reaches the bound.
pub proof fn law_snapshot_is_clamped_and_trimmed(s: Seq<char>)
    requires
        !blank(s),
    ensures
        ({
            let r = excerpt(s);
            &&& 0 < r.len() <= CLIPBOARD_MAX_CHARS
            &&& trim(r) == r
            &&& exists|k: int|
                0 <= k && k + r.len() <= s.len() && r == #[trigger] s.subrange(k, k + r.len())
            &&& s.len() <= CLIPBOARD_MAX_CHARS ==> r == trim(s)
            &&& CLIPBOARD_MAX_CHARS == 2000
            &&& r.len() <= trim(s).len()
            &&& forall|i: int| 0 <= i < r.len() ==> #[trigger] r[i] == trim(s)[i]
            &&& forall|i: int|
                r.len() <= i < trim(s).len() && i < CLIPBOARD_MAX_CHARS ==> is_white(
                    #[trigger] trim(s)[i],
                )
        }),
{
    let whole = trim(s);
    let cut = clip(whole, CLIPBOARD_MAX_CHARS as nat);
    let r = excerpt(s);
    lemma_trim_blank(s);
    lemma_trim_start(s);
    lemma_trim_end(trim_start(s));
    lemma_trim_end(cut);
    let k = s.len() - trim_start(s).len();
    assert(whole =~= s.subrange(k, k + whole.len()));
    assert(r =~= s.subrange(k, k + r.len()));
    // The first character is no whitespace, so something is left of the cut.
    assert(!is_white(whole[0]));
    if r.len() == 0 {
        assert(is_white(cut[0]));
    }
    assert(r[0] == whole[0]);
    assert forall|i: int|
        r.len() <= i < whole.len() && i < CLIPBOARD_MAX_CHARS implies is_white(
        #[trigger] whole[i],
    ) by {
        assert(cut[i] == whole[i]);
    }
    assert(trim_start(r) == r);
    assert(trim_end(r) == r);
    if s.len() <= CLIPBOARD_MAX_CHARS {
        assert(cut == whole);
        assert(trim_end(whole) == whole);
    }
}

// ---------------------------------------------------------------------------
// Uses
// ---------------------------------------------------------------------------

/// A use of a clipboard context.
pub enum ClipboardUse {
    Store(Option<Seq<char>>),
    Take,
}

/// What a new context holds after `uses`, one after the other: what `set` stored, or
/// nothing once `take` has consumed it.
pub open spec fn held_after(uses: Seq<ClipboardUse>) -> Option<Seq<char>>
    decreases uses.len(),
{
    if uses.len() == 0 {
        None
    } else {
        after_use(held_after(uses.drop_last()), uses.last())
    }
}

/// What a context that held `held` holds after a use.
pub open spec fn after_use(held: Option<Seq<char>>, u: ClipboardUse) -> Option<Seq<char>> {
    match u {
        ClipboardUse::Store(text) => text,
        ClipboardUse::Take => None,
    }
}

/// Whatever came before, in whatever order the users of a context came, a take
/// gives the text of the last set since the last take, and nothing if there was
/// none: a snapshot is consumed once.
pub proof fn law_take_gives_the_last_set(
    before: Seq<ClipboardUse>,
    sets: Seq<ClipboardUse>,
)
    requires
        before.len() == 0 || before.last() is Take,
        forall|i: int| 0 <= i < sets.len() ==> #[trigger] sets[i] is Store,
    ensures
        held_after(before + sets) == if sets.len() == 0 {
            None
        } else {
            sets.last()->Store_0
        },
        held_after((before + sets).push(ClipboardUse::Take)) is None,
{
    let uses = before + sets;
    assert(uses.push(ClipboardUse::Take).last() is Take);
    if sets.len() > 0 {
        assert(uses.last() == sets[sets.len() - 1]);
    } else {
        assert(uses =~= before);
    }
}

} // verus!

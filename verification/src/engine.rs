//! The reveal engine: keystroke-paced output of validated text.
//!
//! A session owns a cursor into the content's characters. Each accepted
//! character key reveals the next chunk of up to [`CHUNK_SIZE`] characters;
//! the escape key ends the session at once; every other event is ignored.
//! The caller runs the terminal: it polls for events on a fixed cadence of
//! [`POLL_INTERVAL_MS`], feeds them in, writes the returned chunks out, and
//! restores the terminal mode on every exit path.

use vstd::prelude::*;

verus! {

/// How many characters one accepted keypress reveals, at most.
pub const CHUNK_SIZE: usize = 5;

/// How long one poll for an input event may block, in milliseconds.
pub const POLL_INTERVAL_MS: u64 = 500;

/// An input event, as the engine sees it: a character key, the escape key,
/// or anything else (navigation keys, modifiers, resize).
#[derive(Clone, Copy, Debug, PartialEq, Eq, Structural)]
pub enum KeyInput {
    Character,
    Escape,
    Other,
}

/// What the caller must do with one event's outcome: write a chunk of
/// characters out, stop the session, or nothing.
#[derive(Clone, Debug)]
pub enum RevealAction {
    Print(Vec<char>),
    Stop,
    Ignore,
}

/// Where the cursor stands after one accepted keypress: advanced by a full
/// chunk, or to the end if fewer characters remain.
pub open spec fn advance(cursor: nat, len: nat) -> nat {
    if cursor + CHUNK_SIZE <= len {
        (cursor + CHUNK_SIZE) as nat
    } else {
        len
    }
}

/// Where the cursor stands after `k` accepted keypresses.
pub open spec fn advance_n(cursor: nat, len: nat, k: nat) -> nat
    decreases k,
{
    if k == 0 {
        cursor
    } else {
        advance_n(advance(cursor, len), len, (k - 1) as nat)
    }
}

/// How many accepted keypresses reveal content of `len` characters in
/// full: the chunk count rounded up.
pub open spec fn chunks_needed(len: nat) -> nat {
    ((len + CHUNK_SIZE - 1) / CHUNK_SIZE as int) as nat
}

/// One reveal session: the content's characters and a cursor marking how
/// much has been shown.
pub struct RevealState {
    /// The validated text being revealed.
    pub content: Vec<char>,
    /// How many characters have been shown so far.
    pub cursor: usize,
}

impl RevealState {
    /// The cursor never passes the end of the content.
    pub open spec fn wf(&self) -> bool {
        self.cursor <= self.content@.len()
    }

    /// A session over the given text, nothing shown yet.
    pub fn new(content: Vec<char>) -> (r: Self)
        ensures
            r.wf(),
            r.content@ == content@,
            r.cursor == 0,
    {
        RevealState { content, cursor: 0 }
    }

    /// Whether the whole content has been revealed.
    pub fn finished(&self) -> (r: bool)
        requires
            self.wf(),
        ensures
            r == (self.cursor == self.content@.len()),
    {
        self.cursor == self.content.len()
    }

    /// Handle one input event.
    ///
    /// A character key advances the cursor by one chunk, or to the end if
    /// fewer characters remain, and hands back exactly the characters
    /// passed over, to be written out. The escape key stops the session
    /// with the cursor untouched, whatever remains. Any other event is
    /// ignored. The content itself never changes, and the cursor never
    /// moves backwards.
    pub fn on_key(&mut self, key: KeyInput) -> (r: RevealAction)
        requires
            old(self).wf(),
        ensures
            final(self).wf(),
            final(self).content@ == old(self).content@,
            final(self).cursor >= old(self).cursor,
            key is Escape ==> final(self).cursor == old(self).cursor && r is Stop,
            key is Other ==> final(self).cursor == old(self).cursor && r is Ignore,
            key is Character ==> final(self).cursor == advance(
                old(self).cursor as nat,
                old(self).content@.len(),
            ),
            key is Character ==> (r matches RevealAction::Print(chunk) && chunk@ == old(
                self,
            ).content@.subrange(old(self).cursor as int, final(self).cursor as int)),
    {
        match key {
            KeyInput::Escape => RevealAction::Stop,
            KeyInput::Other => RevealAction::Ignore,
            KeyInput::Character => {
                let start = self.cursor;
                let end = if self.content.len() - start >= CHUNK_SIZE {
                    start + CHUNK_SIZE
                } else {
                    self.content.len()
                };
                let mut chunk: Vec<char> = Vec::new();
                let mut j = start;
                proof {
                    assert(chunk@ =~= self.content@.subrange(start as int, j as int));
                }
                while j < end
                    invariant
                        start <= j <= end,
                        end <= self.content@.len(),
                        *self == *old(self),
                        chunk@ == self.content@.subrange(start as int, j as int),
                    decreases end - j,
                {
                    proof {
                        assert(self.content@.subrange(start as int, j + 1) =~= self.content@
                            .subrange(start as int, j as int).push(self.content@[j as int]));
                    }
                    let c = self.content[j];
                    chunk.push(c);
                    j = j + 1;
                }
                self.cursor = end;
                RevealAction::Print(chunk)
            },
        }
    }
}

/// The exhaustion law: content of `len` characters is revealed in full by
/// exactly `chunks_needed(len)` accepted keypresses — after that many the
/// cursor stands at the end, and after any fewer it does not. A session
/// that only ever sees character keys therefore exits by exhaustion.
pub proof fn lemma_exhaustion(len: nat)
    ensures
        advance_n(0, len, chunks_needed(len)) == len,
        forall|k: nat| k < chunks_needed(len) ==> advance_n(0, len, k) < len,
{
    lemma_advance_n_from_zero(len, chunks_needed(len));
    assert(CHUNK_SIZE * chunks_needed(len) >= len) by (nonlinear_arith)
        requires
            chunks_needed(len) == ((len + CHUNK_SIZE - 1) / CHUNK_SIZE as int) as nat,
            CHUNK_SIZE == 5,
    ;
    assert forall|k: nat| k < chunks_needed(len) implies advance_n(0, len, k) < len by {
        lemma_advance_n_from_zero(len, k);
        assert(CHUNK_SIZE * k < len) by (nonlinear_arith)
            requires
                k < chunks_needed(len),
                chunks_needed(len) == ((len + CHUNK_SIZE - 1) / CHUNK_SIZE as int) as nat,
                CHUNK_SIZE == 5,
        ;
    }
}

/// After `k` keypresses from the start, the cursor stands at `k` full
/// chunks in, or at the end if the content is shorter.
proof fn lemma_advance_n_from_zero(len: nat, k: nat)
    ensures
        advance_n(0, len, k) == if CHUNK_SIZE * k <= len {
            CHUNK_SIZE * k
        } else {
            len as int
        },
    decreases k,
{
    if k > 0 {
        lemma_advance_n_general(advance(0, len), len, (k - 1) as nat);
    }
}

/// The general shape of repeated advancing from any well-formed cursor.
proof fn lemma_advance_n_general(cursor: nat, len: nat, k: nat)
    requires
        cursor <= len,
    ensures
        advance_n(cursor, len, k) == if cursor + CHUNK_SIZE * k <= len {
            cursor + CHUNK_SIZE * k
        } else {
            len as int
        },
    decreases k,
{
    if k > 0 {
        lemma_advance_n_general(advance(cursor, len), len, (k - 1) as nat);
    }
}

} // verus!

//! The two line-reading strategies, both writing into a `SecureBuffer`.
//!
//! The silent strategy consumes bytes until a newline or end of input and
//! stores them unseen.  The feedback strategy handles one byte at a time,
//! reproducing the terminal driver's erase-one, erase-all and end-of-input
//! semantics while drawing one mask per stored byte on the display.

use vstd::prelude::*;

use crate::buffer::{zeroed_from, SecureBuffer, CAPACITY};
use crate::errors::TermError;
use crate::settings::TermSettings;

verus! {

/// Line terminator: ends a read, is consumed, and is never stored.
pub const NEWLINE: u8 = 10;

/// Alternate line terminator accepted by the feedback strategy.
pub const CARRIAGE_RETURN: u8 = 13;

/// First and last byte of the three-byte erase sequence.
pub const BACKSPACE: u8 = 8;

/// Middle byte of the three-byte erase sequence.
pub const SPACE: u8 = 32;

/// The masking character drawn once per stored secret byte.
pub const MASK: u8 = 42;

/// An in-memory byte source.  Reads advance `pos` through `data`; bytes at
/// or past `pos` have not been consumed yet.
pub struct ByteCursor {
    /// The underlying bytes.
    pub data: Vec<u8>,
    /// Index of the next unconsumed byte.
    pub pos: usize,
}

impl ByteCursor {
    /// The cursor never points past the end of its data.
    pub open spec fn wf(&self) -> bool {
        self.pos <= self.data@.len()
    }

    /// The bytes not yet consumed.
    pub open spec fn remaining_bytes(&self) -> Seq<u8> {
        self.data@.subrange(self.pos as int, self.data@.len() as int)
    }

    /// A cursor at the start of `data`.
    pub fn new(data: Vec<u8>) -> (c: ByteCursor)
        ensures
            c.data@ == data@,
            c.pos == 0,
            c.wf(),
    {
        ByteCursor { data, pos: 0 }
    }

    /// Consumes and returns the next byte, or `None` at end of input.
    pub fn next_byte(&mut self) -> (r: Option<u8>)
        requires
            old(self).wf(),
        ensures
            final(self).wf(),
            final(self).data@ == old(self).data@,
            old(self).pos < old(self).data@.len() ==> r == Some(old(self).data@[old(self).pos as int])
                && final(self).pos == old(self).pos + 1,
            old(self).pos >= old(self).data@.len() ==> r is None && final(self).pos == old(self).pos,
    {
        if self.pos < self.data.len() {
            let b = self.data[self.pos];
            self.pos = self.pos + 1;
            Some(b)
        } else {
            None
        }
    }

    /// The bytes not yet consumed, as a fresh vector.
    pub fn remaining(&self) -> (r: Vec<u8>)
        requires
            self.wf(),
        ensures
            r@ == self.remaining_bytes(),
    {
        let mut r: Vec<u8> = Vec::new();
        let mut i: usize = self.pos;
        while i < self.data.len()
            invariant
                self.pos <= i <= self.data@.len(),
                r@ == self.data@.subrange(self.pos as int, i as int),
            decreases self.data@.len() - i,
        {
            r.push(self.data[i]);
            proof {
                assert(self.data@.subrange(self.pos as int, i + 1) =~= self.data@.subrange(
                    self.pos as int,
                    i as int,
                ).push(self.data@[i as int]));
            }
            i = i + 1;
        }
        proof {
            assert(self.data@.subrange(self.pos as int, self.data@.len() as int)
                =~= self.remaining_bytes());
        }
        r
    }
}

/// Number of bytes strictly before the first newline at or after `from`
/// (to the end of `s` when no newline follows).
pub open spec fn line_len(s: Seq<u8>, from: int) -> int
    decreases s.len() - from,
{
    if from < 0 || from >= s.len() {
        0
    } else if s[from] == NEWLINE {
        0
    } else {
        1 + line_len(s, from + 1)
    }
}

/// The line starting at `from` never has fewer than zero bytes.
pub proof fn lemma_line_len_nonneg(s: Seq<u8>, from: int)
    ensures
        line_len(s, from) >= 0,
    decreases s.len() - from,
{
    if 0 <= from < s.len() && s[from] != NEWLINE {
        lemma_line_len_nonneg(s, from + 1);
    }
}

/// Applies one input byte to a silent read: a newline ends the read, any
/// other byte goes into the next free slot of `password`, and a byte that
/// finds no slot free ends the read in failure with the buffer wiped.
pub fn silent_step(password: &mut SecureBuffer, len: &mut usize, byte: u8) -> (outcome:
    StepOutcome)
    requires
        old(password)@.len() == CAPACITY,
        *old(len) <= CAPACITY - 1,
        zeroed_from(old(password)@, *old(len) as int),
    ensures
        final(password)@.len() == CAPACITY,
        *final(len) <= CAPACITY - 1,
        zeroed_from(final(password)@, *final(len) as int),
        ({
            let osec = old(password)@.subrange(0, *old(len) as int);
            let nsec = final(password)@.subrange(0, *final(len) as int);
            if byte == NEWLINE {
                &&& outcome == StepOutcome::Finished
                &&& final(password)@ == old(password)@
                &&& *final(len) == *old(len)
            } else if *old(len) < CAPACITY - 1 {
                &&& outcome == StepOutcome::More
                &&& *final(len) == *old(len) + 1
                &&& nsec == osec.push(byte)
            } else {
                &&& outcome == StepOutcome::Overflow
                &&& *final(len) == 0
                &&& zeroed_from(final(password)@, 0)
            }
        }),
{
    if byte == NEWLINE {
        StepOutcome::Finished
    } else {
        let ghost before = password@;
        let ghost olen = *len as int;
        match password.write_at(*len, byte) {
            Ok(()) => {
                *len = *len + 1;
                proof {
                    assert(password@.subrange(0, olen + 1) =~= before.subrange(0, olen).push(
                        byte,
                    ));
                }
                StepOutcome::More
            },
            Err(_) => {
                password.wipe();
                *len = 0;
                StepOutcome::Overflow
            },
        }
    }
}

/// Silent read: consumes bytes from `source` until a newline (consumed, not
/// stored) or end of input, storing each into the next free buffer slot.
///
/// When the bytes before the terminator fit in `CAPACITY - 1` slots the read
/// succeeds with exactly those bytes, and nothing past the newline is
/// consumed.  When they do not fit, the read stops with `SecretTooLong`
/// after consuming exactly `CAPACITY` bytes, leaving the rest of the
/// oversized line in the source.
pub fn read_unbuffered(source: &mut ByteCursor) -> (r: Result<SecureBuffer, TermError>)
    requires
        old(source).wf(),
    ensures
        final(source).wf(),
        final(source).data@ == old(source).data@,
        line_len(old(source).data@, old(source).pos as int) <= CAPACITY - 1 ==> {
            let s = old(source).data@;
            let p0 = old(source).pos as int;
            let ll = line_len(s, p0);
            &&& r is Ok
            &&& r->Ok_0@.len() == CAPACITY
            &&& r->Ok_0@.subrange(0, ll) == s.subrange(p0, p0 + ll)
            &&& zeroed_from(r->Ok_0@, ll)
            &&& final(source).pos == p0 + ll + (if p0 + ll < s.len() {
                1int
            } else {
                0int
            })
        },
        line_len(old(source).data@, old(source).pos as int) > CAPACITY - 1 ==> {
            &&& r == Err::<SecureBuffer, TermError>(TermError::SecretTooLong)
            &&& final(source).pos == old(source).pos + CAPACITY
        },
{
    let ghost s = old(source).data@;
    let ghost p0 = old(source).pos as int;
    let mut password = SecureBuffer::create();
    let mut len: usize = 0;
    proof {
        lemma_line_len_nonneg(s, p0);
    }
    loop
        invariant
            s == old(source).data@,
            p0 == old(source).pos as int,
            source.wf(),
            source.data@ == s,
            source.pos == p0 + len,
            len <= CAPACITY - 1,
            password@.len() == CAPACITY,
            password@.subrange(0, len as int) == s.subrange(p0, p0 + len),
            zeroed_from(password@, len as int),
            line_len(s, p0) == len + line_len(s, p0 + len),
        decreases s.len() - source.pos,
    {
        proof {
            lemma_line_len_nonneg(s, source.pos as int);
        }
        match source.next_byte() {
            None => {
                return Ok(password);
            },
            Some(b) => {
                let ghost len0 = len as int;
                match silent_step(&mut password, &mut len, b) {
                    StepOutcome::Finished => {
                        return Ok(password);
                    },
                    StepOutcome::More => {
                        proof {
                            assert(s.subrange(p0, p0 + len0 + 1) =~= s.subrange(
                                p0,
                                p0 + len0,
                            ).push(s[p0 + len0]));
                        }
                    },
                    StepOutcome::FinishedEof => {
                        return Ok(password);
                    },
                    StepOutcome::Overflow => {
                        proof {
                            lemma_line_len_nonneg(s, p0 + len0 + 1);
                        }
                        return Err(TermError::SecretTooLong);
                    },
                }
            },
        }
    }
}

/// The three display bytes that visually remove one masking character.
pub open spec fn erase_sequence() -> Seq<u8> {
    seq![BACKSPACE, SPACE, BACKSPACE]
}

/// `n` erase sequences in a row.
pub open spec fn erase_sequences(n: int) -> Seq<u8>
    decreases n,
{
    if n <= 0 {
        Seq::empty()
    } else {
        erase_sequences(n - 1) + erase_sequence()
    }
}

/// Emits `i` erase sequences to the display, removing `i` drawn marks.
pub fn erase_feedback(sink: &mut Vec<u8>, i: usize)
    ensures
        final(sink)@ == old(sink)@ + erase_sequences(i as int),
{
    let mut k: usize = 0;
    while k < i
        invariant
            k <= i,
            sink@ == old(sink)@ + erase_sequences(k as int),
        decreases i - k,
    {
        sink.push(BACKSPACE);
        sink.push(SPACE);
        sink.push(BACKSPACE);
        proof {
            assert(sink@ =~= old(sink)@ + erase_sequences(k + 1));
        }
        k = k + 1;
    }
    proof {
        assert(old(sink)@ + erase_sequences(0) =~= old(sink)@);
    }
}

/// What one run of the feedback strategy over a byte sequence produces: the
/// secret bytes kept, the display bytes emitted, the number of input bytes
/// consumed, and whether the read succeeded.
pub struct FeedbackRun {
    /// The secret bytes accumulated when the run ends.
    pub secret: Seq<u8>,
    /// Every display byte emitted, in order.
    pub display: Seq<u8>,
    /// Position in the input just past the last consumed byte.
    pub consumed: int,
    /// False exactly when the secret outgrew the buffer.
    pub ok: bool,
}

/// The feedback strategy, as a function of the input bytes alone: starting
/// at `pos` in `s` with `sec` already typed, process one byte after another
/// with the line-editing semantics bound in `st`.
///
/// A newline or carriage return erases the drawn marks, echoes one newline
/// and ends the read; the end-of-input code erases the whole line and ends
/// it with an empty secret; the erase code removes one character, the kill
/// code removes them all; any other byte is stored and masked, or — when no
/// slot is free — ends the read in failure after erasing the drawn marks.
pub open spec fn fb_run(s: Seq<u8>, pos: int, sec: Seq<u8>, st: TermSettings) -> FeedbackRun
    decreases s.len() - pos,
{
    if pos < 0 || pos >= s.len() {
        FeedbackRun { secret: sec, display: Seq::empty(), consumed: pos, ok: true }
    } else {
        let b = s[pos];
        if b == NEWLINE || b == CARRIAGE_RETURN {
            FeedbackRun {
                secret: sec,
                display: erase_sequences(sec.len() as int) + seq![NEWLINE],
                consumed: pos + 1,
                ok: true,
            }
        } else if b == st.veof {
            FeedbackRun {
                secret: Seq::empty(),
                display: erase_sequences(sec.len() as int),
                consumed: pos + 1,
                ok: true,
            }
        } else if b == st.verase {
            let rest = fb_run(s, pos + 1, if sec.len() > 0 { sec.drop_last() } else { sec }, st);
            FeedbackRun {
                secret: rest.secret,
                display: (if sec.len() > 0 { erase_sequence() } else { Seq::empty() })
                    + rest.display,
                consumed: rest.consumed,
                ok: rest.ok,
            }
        } else if b == st.vkill {
            let rest = fb_run(s, pos + 1, Seq::<u8>::empty(), st);
            FeedbackRun {
                secret: rest.secret,
                display: erase_sequences(sec.len() as int) + rest.display,
                consumed: rest.consumed,
                ok: rest.ok,
            }
        } else if sec.len() < CAPACITY - 1 {
            let rest = fb_run(s, pos + 1, sec.push(b), st);
            FeedbackRun {
                secret: rest.secret,
                display: seq![MASK] + rest.display,
                consumed: rest.consumed,
                ok: rest.ok,
            }
        } else {
            FeedbackRun {
                secret: Seq::empty(),
                display: erase_sequences(CAPACITY as int - 1),
                consumed: pos + 1,
                ok: false,
            }
        }
    }
}

/// How one feedback step left the read.
#[derive(Clone, Copy, Debug, PartialEq, Eq, Structural)]
pub enum StepOutcome {
    /// Keep reading.
    More,
    /// The read ended successfully on a line terminator.  The last display
    /// byte appended is the echoed newline; a caller that forwards the
    /// display to a real channel must propagate a failure to write it, while
    /// every other display byte is best-effort.
    Finished,
    /// The read ended successfully on the end-of-input code, with an empty
    /// secret and no echoed newline.
    FinishedEof,
    /// The secret outgrew the buffer; the read fails with `SecretTooLong`
    /// and the buffer has been wiped.
    Overflow,
}

/// Applies one input byte to the feedback read: updates the secret in
/// `password` (its first `len` slots), appends this step's display bytes to
/// `sink`, and says whether the read goes on.
pub fn feedback_step(
    password: &mut SecureBuffer,
    len: &mut usize,
    byte: u8,
    settings: &TermSettings,
    sink: &mut Vec<u8>,
) -> (outcome: StepOutcome)
    requires
        old(password)@.len() == CAPACITY,
        *old(len) <= CAPACITY - 1,
        zeroed_from(old(password)@, *old(len) as int),
    ensures
        final(password)@.len() == CAPACITY,
        *final(len) <= CAPACITY - 1,
        zeroed_from(final(password)@, *final(len) as int),
        ({
            let osec = old(password)@.subrange(0, *old(len) as int);
            let nsec = final(password)@.subrange(0, *final(len) as int);
            if byte == NEWLINE || byte == CARRIAGE_RETURN {
                &&& outcome == StepOutcome::Finished
                &&& final(password)@ == old(password)@
                &&& *final(len) == *old(len)
                &&& final(sink)@ == old(sink)@ + erase_sequences(osec.len() as int)
                    + seq![NEWLINE]
            } else if byte == settings.veof {
                &&& outcome == StepOutcome::FinishedEof
                &&& *final(len) == 0
                &&& final(sink)@ == old(sink)@ + erase_sequences(osec.len() as int)
            } else if byte == settings.verase {
                &&& outcome == StepOutcome::More
                &&& (*old(len) > 0 ==> *final(len) == *old(len) - 1 && nsec == osec.drop_last()
                    && final(sink)@ == old(sink)@ + erase_sequence())
                &&& (*old(len) == 0 ==> *final(len) == 0 && final(sink)@ == old(sink)@)
            } else if byte == settings.vkill {
                &&& outcome == StepOutcome::More
                &&& *final(len) == 0
                &&& final(sink)@ == old(sink)@ + erase_sequences(osec.len() as int)
            } else if *old(len) < CAPACITY - 1 {
                &&& outcome == StepOutcome::More
                &&& *final(len) == *old(len) + 1
                &&& nsec == osec.push(byte)
                &&& final(sink)@ == old(sink)@ + seq![MASK]
            } else {
                &&& outcome == StepOutcome::Overflow
                &&& *final(len) == 0
                &&& final(sink)@ == old(sink)@ + erase_sequences(CAPACITY as int - 1)
            }
        }),
{
    if byte == NEWLINE || byte == CARRIAGE_RETURN {
        erase_feedback(sink, *len);
        sink.push(NEWLINE);
        StepOutcome::Finished
    } else if byte == settings.veof {
        erase_feedback(sink, *len);
        password.clear_from(0);
        *len = 0;
        StepOutcome::FinishedEof
    } else if byte == settings.verase {
        if *len > 0 {
            let ghost before = password@;
            let ghost olen = *len as int;
            password.clear_from(*len - 1);
            *len = *len - 1;
            erase_feedback(sink, 1);
            proof {
                assert(password@.subrange(0, olen - 1) =~= before.subrange(0, olen).drop_last());
                assert(erase_sequences(0) == Seq::<u8>::empty());
                assert(erase_sequences(1) =~= erase_sequence());
            }
        }
        StepOutcome::More
    } else if byte == settings.vkill {
        erase_feedback(sink, *len);
        password.clear_from(0);
        *len = 0;
        StepOutcome::More
    } else {
        let ghost before = password@;
        let ghost olen = *len as int;
        match password.write_at(*len, byte) {
            Ok(()) => {
                *len = *len + 1;
                sink.push(MASK);
                proof {
                    assert(password@.subrange(0, olen + 1) =~= before.subrange(0, olen).push(
                        byte,
                    ));
                    assert(old(sink)@.push(MASK) =~= old(sink)@ + seq![MASK]);
                }
                StepOutcome::More
            },
            Err(_) => {
                erase_feedback(sink, *len);
                password.wipe();
                *len = 0;
                StepOutcome::Overflow
            },
        }
    }
}

/// Feedback read: processes bytes from `source` one at a time with the
/// line-editing semantics bound in `settings`, drawing masked feedback into
/// `sink`.  The whole interaction — the secret kept, every display byte, how
/// much input is consumed, and success or failure — is exactly [`fb_run`] of
/// the input.
pub fn read_unbuffered_with_feedback(
    source: &mut ByteCursor,
    sink: &mut Vec<u8>,
    settings: &TermSettings,
) -> (r: Result<SecureBuffer, TermError>)
    requires
        old(source).wf(),
    ensures
        final(source).wf(),
        final(source).data@ == old(source).data@,
        ({
            let run = fb_run(
                old(source).data@,
                old(source).pos as int,
                Seq::empty(),
                *settings,
            );
            &&& final(sink)@ == old(sink)@ + run.display
            &&& final(source).pos == run.consumed
            &&& run.ok ==> r is Ok && r->Ok_0@.len() == CAPACITY && r->Ok_0@.subrange(
                0,
                run.secret.len() as int,
            ) == run.secret && zeroed_from(r->Ok_0@, run.secret.len() as int)
            &&& !run.ok ==> r == Err::<SecureBuffer, TermError>(TermError::SecretTooLong)
        }),
{
    let ghost s = old(source).data@;
    let ghost p0 = old(source).pos as int;
    let ghost d0 = old(sink)@.len() as int;
    let ghost st = *settings;
    let ghost run = fb_run(s, p0, Seq::empty(), st);
    let mut password = SecureBuffer::create();
    let mut len: usize = 0;
    proof {
        assert(password@.subrange(0, 0) =~= Seq::<u8>::empty());
        assert(sink@.subrange(0, d0) =~= sink@);
        assert(sink@.subrange(d0, sink@.len() as int) =~= Seq::<u8>::empty());
        assert(Seq::<u8>::empty() + run.display =~= run.display);
    }
    loop
        invariant
            s == old(source).data@,
            p0 == old(source).pos as int,
            d0 == old(sink)@.len() as int,
            st == *settings,
            run == fb_run(s, p0, Seq::empty(), st),
            source.wf(),
            source.data@ == s,
            password@.len() == CAPACITY,
            len <= CAPACITY - 1,
            zeroed_from(password@, len as int),
            d0 <= sink@.len(),
            sink@.subrange(0, d0) == old(sink)@,
            ({
                let cur = fb_run(s, source.pos as int, password@.subrange(0, len as int), st);
                &&& run.secret == cur.secret
                &&& run.display == sink@.subrange(d0, sink@.len() as int) + cur.display
                &&& run.consumed == cur.consumed
                &&& run.ok == cur.ok
            }),
        decreases s.len() - source.pos,
    {
        let ghost pos_g = source.pos as int;
        let ghost sec_g = password@.subrange(0, len as int);
        let ghost emitted_g = sink@.subrange(d0, sink@.len() as int);
        match source.next_byte() {
            None => {
                proof {
                    assert(sink@ =~= sink@.subrange(0, d0) + sink@.subrange(
                        d0,
                        sink@.len() as int,
                    ));
                    assert(emitted_g + Seq::<u8>::empty() =~= emitted_g);
                }
                return Ok(password);
            },
            Some(b) => {
                let ghost sink_before = sink@;
                let outcome = feedback_step(&mut password, &mut len, b, settings, sink);
                proof {
                    let e = sink@.subrange(sink_before.len() as int, sink@.len() as int);
                    assert(sink@ =~= sink_before + e);
                    assert(sink@.subrange(0, d0) =~= sink_before.subrange(0, d0));
                    assert(sink@.subrange(d0, sink@.len() as int) =~= emitted_g + e);
                    let cur = fb_run(s, pos_g, sec_g, st);
                    let nsec = password@.subrange(0, len as int);
                    let nxt = fb_run(s, pos_g + 1, nsec, st);
                    if b == NEWLINE || b == CARRIAGE_RETURN {
                        assert(emitted_g + cur.display =~= (emitted_g + e) + Seq::<u8>::empty());
                    } else if b == st.veof {
                        assert(nsec =~= Seq::<u8>::empty());
                        assert(emitted_g + cur.display =~= (emitted_g + e) + Seq::<u8>::empty());
                    } else if b == st.verase {
                        if sec_g.len() > 0 {
                            assert(cur.display == erase_sequence() + fb_run(
                                s,
                                pos_g + 1,
                                sec_g.drop_last(),
                                st,
                            ).display);
                            assert(nsec == sec_g.drop_last());
                            assert(emitted_g + cur.display =~= (emitted_g + e) + nxt.display);
                        } else {
                            assert(nsec =~= sec_g);
                            assert(cur.display == Seq::<u8>::empty() + nxt.display);
                            assert(emitted_g + cur.display =~= (emitted_g + e) + nxt.display);
                        }
                    } else if b == st.vkill {
                        assert(nsec =~= Seq::<u8>::empty());
                        assert(emitted_g + cur.display =~= (emitted_g + e) + nxt.display);
                    } else if sec_g.len() < CAPACITY - 1 {
                        assert(nsec == sec_g.push(b));
                        assert(emitted_g + cur.display =~= (emitted_g + e) + nxt.display);
                    } else {
                        assert(nsec =~= Seq::<u8>::empty());
                        assert(emitted_g + cur.display =~= (emitted_g + e) + Seq::<u8>::empty());
                    }
                }
                match outcome {
                    StepOutcome::More => {},
                    StepOutcome::Finished => {
                        proof {
                            assert(sink@ =~= sink@.subrange(0, d0) + sink@.subrange(
                                d0,
                                sink@.len() as int,
                            ));
                        }
                        return Ok(password);
                    },
                    StepOutcome::FinishedEof => {
                        proof {
                            assert(sink@ =~= sink@.subrange(0, d0) + sink@.subrange(
                                d0,
                                sink@.len() as int,
                            ));
                        }
                        return Ok(password);
                    },
                    StepOutcome::Overflow => {
                        proof {
                            assert(sink@ =~= sink@.subrange(0, d0) + sink@.subrange(
                                d0,
                                sink@.len() as int,
                            ));
                        }
                        return Err(TermError::SecretTooLong);
                    },
                }
            },
        }
    }
}

/// Which reading strategy a feedback request actually runs.
#[derive(Clone, Copy, Debug, PartialEq, Eq, Structural)]
pub enum ReadStrategy {
    /// Canonical-mode read with no feedback drawn.
    Silent,
    /// Character-by-character read with masked feedback.
    Feedback,
}

/// Chooses the strategy for a feedback request.  Masked feedback needs
/// character-by-character delivery from a trusted terminal, so when no
/// raw-mode guard could be acquired the read falls back to the silent
/// strategy over the session's existing channel instead of failing.
pub fn select_read_strategy(guard_acquired: bool) -> (strategy: ReadStrategy)
    ensures
        strategy == (if guard_acquired {
            ReadStrategy::Feedback
        } else {
            ReadStrategy::Silent
        }),
{
    if guard_acquired {
        ReadStrategy::Feedback
    } else {
        ReadStrategy::Silent
    }
}

/// Appends `text` to the display unbuffered: everything is handed over at
/// once, with nothing held back.
pub fn write_unbuffered(sink: &mut Vec<u8>, text: &[u8])
    ensures
        final(sink)@ == old(sink)@ + text@,
{
    let mut k: usize = 0;
    while k < text.len()
        invariant
            k <= text@.len(),
            sink@ == old(sink)@ + text@.subrange(0, k as int),
        decreases text@.len() - k,
    {
        let b = text[k];
        sink.push(b);
        proof {
            assert(sink@ =~= old(sink)@ + text@.subrange(0, k + 1));
        }
        k = k + 1;
    }
    proof {
        assert(old(sink)@ + text@.subrange(0, text@.len() as int) =~= old(sink)@ + text@);
    }
}

} // verus!

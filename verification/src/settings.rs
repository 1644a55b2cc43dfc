//! Model of the terminal line-discipline state that secret entry touches.
//!
//! A snapshot of the terminal's settings is taken when a read begins; a
//! modified working copy hides the typed secret, and the untouched snapshot
//! is what the guard re-applies when the read ends.  Only the three mode bits
//! below are ever changed; the control-character bindings are read, never
//! written.

use vstd::prelude::*;

verus! {

/// Line-discipline bit: echo typed characters back to the display.
pub const ECHO_FLAG: u32 = 8;

/// Line-discipline bit: echo the newline even when echo is off, so the
/// display still shows a line break when the user presses Enter.
pub const ECHONL_FLAG: u32 = 64;

/// Line-discipline bit: canonical (line-buffered) input; cleared to deliver
/// bytes one at a time for masked feedback.
pub const ICANON_FLAG: u32 = 2;

/// The parts of a terminal's line discipline that secret entry reads or
/// writes: the local-mode flag word and the three control-character codes
/// whose editing semantics the feedback reader reproduces.
#[derive(Clone, Copy, Debug, PartialEq, Eq, Structural)]
pub struct TermSettings {
    /// Local-mode flag word (echo, newline echo, canonical mode, ...).
    pub lflag: u32,
    /// End-of-input control code.
    pub veof: u8,
    /// Erase-one-character (backspace) control code.
    pub verase: u8,
    /// Erase-whole-line (kill) control code.
    pub vkill: u8,
}

/// The local-mode flags of a hidden-entry working copy: echo off, newline
/// echo on, and, only for character-by-character delivery, canonical mode off.
pub open spec fn spec_hidden_lflag(lflag: u32, char_by_char: bool) -> u32 {
    if char_by_char {
        ((lflag & !ECHO_FLAG) | ECHONL_FLAG) & !ICANON_FLAG
    } else {
        (lflag & !ECHO_FLAG) | ECHONL_FLAG
    }
}

/// The settings a read session applies while it runs, derived from the
/// snapshot `orig`.  Echo is disabled, the newline keeps echoing, canonical
/// mode is disabled exactly when `char_by_char` feedback is wanted, and
/// nothing else changes.
pub fn hidden_settings(orig: &TermSettings, char_by_char: bool) -> (r: TermSettings)
    ensures
        r.lflag == spec_hidden_lflag(orig.lflag, char_by_char),
        r.veof == orig.veof,
        r.verase == orig.verase,
        r.vkill == orig.vkill,
        r.lflag & ECHO_FLAG == 0,
        r.lflag & ECHONL_FLAG == ECHONL_FLAG,
        char_by_char ==> r.lflag & ICANON_FLAG == 0,
        !char_by_char ==> r.lflag & ICANON_FLAG == orig.lflag & ICANON_FLAG,
        r.lflag & !(ECHO_FLAG | ECHONL_FLAG | ICANON_FLAG) == orig.lflag & !(ECHO_FLAG
            | ECHONL_FLAG | ICANON_FLAG),
{
    let mut lflag: u32 = orig.lflag & !ECHO_FLAG;
    lflag = lflag | ECHONL_FLAG;
    if char_by_char {
        lflag = lflag & !ICANON_FLAG;
    }
    proof {
        let lf = orig.lflag;
        assert(((lf & !8u32) | 64u32) & 8u32 == 0) by (bit_vector);
        assert((((lf & !8u32) | 64u32) & !2u32) & 8u32 == 0) by (bit_vector);
        assert(((lf & !8u32) | 64u32) & 64u32 == 64u32) by (bit_vector);
        assert((((lf & !8u32) | 64u32) & !2u32) & 64u32 == 64u32) by (bit_vector);
        assert((((lf & !8u32) | 64u32) & !2u32) & 2u32 == 0) by (bit_vector);
        assert(((lf & !8u32) | 64u32) & 2u32 == lf & 2u32) by (bit_vector);
        assert(((lf & !8u32) | 64u32) & !(8u32 | 64u32 | 2u32) == lf & !(8u32 | 64u32 | 2u32))
            by (bit_vector);
        assert((((lf & !8u32) | 64u32) & !2u32) & !(8u32 | 64u32 | 2u32) == lf & !(8u32 | 64u32
            | 2u32)) by (bit_vector);
    }
    TermSettings { lflag, veof: orig.veof, verase: orig.verase, vkill: orig.vkill }
}

/// A planned raw-mode switch: the working copy a guard applies while a read
/// runs, and the pristine snapshot it re-applies on release.
#[derive(Clone, Copy, Debug, PartialEq, Eq, Structural)]
pub struct ModeChange {
    /// Settings in force while the read runs.
    pub active: TermSettings,
    /// The untouched snapshot; the sole source of truth for restoration.
    pub pristine: TermSettings,
}

/// The raw-mode switch planned from the snapshot `current`.
pub open spec fn spec_plan_hidden(current: TermSettings, char_by_char: bool) -> ModeChange {
    ModeChange {
        active: TermSettings {
            lflag: spec_hidden_lflag(current.lflag, char_by_char),
            veof: current.veof,
            verase: current.verase,
            vkill: current.vkill,
        },
        pristine: current,
    }
}

/// Plans the raw-mode switch for one read: snapshots `current` and derives
/// the hidden-entry working copy from it.
pub fn plan_hidden_input(current: &TermSettings, char_by_char: bool) -> (mc: ModeChange)
    ensures
        mc == spec_plan_hidden(*current, char_by_char),
        mc.pristine == *current,
{
    ModeChange {
        active: hidden_settings(current, char_by_char),
        pristine: *current,
    }
}

/// The settings a guard applies when it is released: exactly the pristine
/// snapshot, never the working copy.
pub fn restore_target(mc: &ModeChange) -> (r: TermSettings)
    ensures
        r == mc.pristine,
{
    mc.pristine
}

/// Law: releasing a guard restores the terminal bit-for-bit.  Whatever mode
/// a read used, the settings applied on release equal the snapshot taken
/// when the switch was planned; in particular the whole local-mode flag word
/// comes back unchanged.
pub proof fn lemma_restore_is_pristine(current: TermSettings, char_by_char: bool)
    ensures
        spec_plan_hidden(current, char_by_char).pristine == current,
        spec_plan_hidden(current, char_by_char).pristine.lflag == current.lflag,
{
}

} // verus!

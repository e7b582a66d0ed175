//! The waveform view: its time label and how it answers the mouse.

use vstd::prelude::*;
use crate::text::{decimal, decimal_chars, digit, digit_char, string_of};

verus! {

/// `m:ss` for a time in whole seconds: minutes in decimal, then the
/// seconds of the minute in two digits.
pub open spec fn time_label(total_secs: u32) -> Seq<char> {
    let s = total_secs % 60;
    decimal((total_secs / 60) as nat) + seq![':', digit_char((s / 10) as int), digit_char((s % 10) as int)]
}

/// The label of a time, given in whole seconds.
pub fn format_time(total_secs: u32) -> (r: String)
    ensures
        r@ == time_label(total_secs),
{
    let mut v = decimal_chars((total_secs / 60) as u64);
    let s = total_secs % 60;
    v.push(':');
    v.push(digit((s / 10) as u64));
    v.push(digit((s % 10) as u64));
    let r = string_of(&v);
    assert(r@ =~= time_label(total_secs));
    r
}

/// A mouse event over the waveform.
#[derive(Clone, Copy, Debug, PartialEq, Eq, Structural)]
pub enum Pointer {
    LeftPressed,
    LeftReleased,
    Moved,
    RightPressed,
    Other,
}

/// How the waveform answers a mouse event. Every reply but `Ignored`
/// captures the event.
#[derive(Clone, Copy, Debug, PartialEq, Eq, Structural)]
pub enum CanvasReply {
    Ignored,
    /// Seek to the fraction of the width where the cursor is.
    Seek,
    /// Show the file dialog.
    OpenFile,
}

/// The next dragging state and the reply, for an event with the cursor
/// `inside` the waveform or not.
pub open spec fn pointer_step(dragging: bool, inside: bool, event: Pointer) -> (bool, CanvasReply) {
    if !inside {
        (if event == Pointer::LeftReleased { false } else { dragging }, CanvasReply::Ignored)
    } else {
        match event {
            Pointer::LeftPressed => (true, CanvasReply::Seek),
            Pointer::LeftReleased => (false, CanvasReply::Seek),
            Pointer::Moved => (dragging, if dragging { CanvasReply::Seek } else { CanvasReply::Ignored }),
            Pointer::RightPressed => (dragging, CanvasReply::OpenFile),
            Pointer::Other => (dragging, CanvasReply::Ignored),
        }
    }
}

/// Answers a mouse event: a left press or release inside seeks (and starts
/// or ends a drag), a move while dragging seeks, a right press opens a file;
/// a left release outside ends the drag.
pub fn handle_pointer(dragging: &mut bool, inside: bool, event: Pointer) -> (reply: CanvasReply)
    ensures
        (*final(dragging), reply) == pointer_step(*old(dragging), inside, event),
{
    if !inside {
        if event == Pointer::LeftReleased {
            *dragging = false;
        }
        return CanvasReply::Ignored;
    }
    match event {
        Pointer::LeftPressed => {
            *dragging = true;
            CanvasReply::Seek
        },
        Pointer::LeftReleased => {
            *dragging = false;
            CanvasReply::Seek
        },
        Pointer::Moved => {
            if *dragging {
                CanvasReply::Seek
            } else {
                CanvasReply::Ignored
            }
        },
        Pointer::RightPressed => CanvasReply::OpenFile,
        Pointer::Other => CanvasReply::Ignored,
    }
}

/// Click and drag to scrub: a press inside starts a drag, every move inside
/// while dragging seeks, and after the release (inside or outside) moves no
/// longer seek.
pub proof fn lemma_drag_scrubs(dragging: bool, released_inside: bool)
    ensures
        ({
            let (d1, r1) = pointer_step(dragging, true, Pointer::LeftPressed);
            let (d2, r2) = pointer_step(d1, true, Pointer::Moved);
            let (d3, _) = pointer_step(d2, released_inside, Pointer::LeftReleased);
            let (_, r4) = pointer_step(d3, true, Pointer::Moved);
            &&& r1 == CanvasReply::Seek
            &&& r2 == CanvasReply::Seek
            &&& d2
            &&& !d3
            &&& r4 == CanvasReply::Ignored
        }),
        pointer_step(dragging, true, Pointer::RightPressed).1 == CanvasReply::OpenFile,
        pointer_step(false, true, Pointer::Moved).1 == CanvasReply::Ignored,
        forall|e: Pointer| #[trigger] pointer_step(dragging, false, e).1 == CanvasReply::Ignored,
{
}

/// The seconds label always has two digits, each a digit.
pub proof fn lemma_time_label_shape(total_secs: u32)
    ensures
        ({
            let l = time_label(total_secs);
            let n = l.len();
            &&& n >= 4
            &&& l[n - 3] == ':'
            &&& 48 <= l[n - 2] as u32 <= 53
            &&& 48 <= l[n - 1] as u32 <= 57
        }),
{
    crate::text::lemma_decimal_digits((total_secs / 60) as nat);
}

/// Outside the waveform nothing is answered and only a left release changes
/// the drag (ending it); inside, a left press starts a drag and seeks, a left
/// release ends it and seeks, a move seeks exactly while dragging, a right
/// press opens a file and keeps the drag as it was.
pub proof fn lemma_pointer_effect(dragging: bool, e: Pointer)
    ensures
        pointer_step(dragging, false, e) == (dragging && e != Pointer::LeftReleased, CanvasReply::Ignored),
        pointer_step(dragging, true, Pointer::LeftPressed) == (true, CanvasReply::Seek),
        pointer_step(dragging, true, Pointer::LeftReleased) == (false, CanvasReply::Seek),
        pointer_step(dragging, true, Pointer::Moved).0 == dragging,
        (pointer_step(dragging, true, Pointer::Moved).1 == CanvasReply::Seek) == dragging,
        pointer_step(dragging, true, Pointer::RightPressed) == (dragging, CanvasReply::OpenFile),
        pointer_step(dragging, true, Pointer::Other) == (dragging, CanvasReply::Ignored),
{
}

/// The label reads back as the time: the digits before the colon are the
/// whole minutes, the two after it the remaining seconds.
pub proof fn lemma_time_label_reads_back(total_secs: u32)
    ensures
        ({
            let l = time_label(total_secs);
            let n = l.len();
            &&& n >= 4
            &&& l[n - 3] == ':'
            &&& crate::numbers::digits_value(l.take(n - 3)) == total_secs / 60
            &&& ((l[n - 2] as u32 - 48) * 10 + (l[n - 1] as u32 - 48)) as nat == total_secs % 60
        }),
{
    let m = (total_secs / 60) as nat;
    crate::text::lemma_decimal_digits(m);
    crate::numbers::lemma_decimal_value(m);
    let l = time_label(total_secs);
    let d = decimal(m);
    assert(l.take(l.len() - 3) =~= d);
    let sec = total_secs % 60;
    assert(digit_char((sec / 10) as int) as u32 == 48 + sec / 10);
    assert(digit_char((sec % 10) as int) as u32 == 48 + sec % 10);
}

} // verus!

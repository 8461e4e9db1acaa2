//! What the editor's notifications mean to the window.
use vstd::prelude::*;

verus! {

/// Notification codes of the editor component.
pub const SCN_STYLENEEDED: u32 = 2000;

pub const SCN_MODIFIED: u32 = 2008;

pub const SCN_PAINTED: u32 = 2013;

pub const SCN_URIDROPPED: u32 = 2015;

/// Modification flags of the editor component.
pub const SC_MOD_INSERTTEXT: u32 = 1;

pub const SC_MOD_DELETETEXT: u32 = 2;

/// The fields of a notification that the window reads.
#[derive(Clone, Copy, PartialEq, Eq, Structural, Debug)]
pub struct Notification {
    pub code: u32,
    pub position: isize,
    pub modification_type: u32,
    /// Whether the notification carries text.
    pub has_text: bool,
}

/// The position up to which styling is wanted; `None` for a notification that
/// is not about that, has no payload, or gives a negative position.
pub fn style_needed_position(n: Option<Notification>) -> (r: Option<usize>)
    ensures
        r == match n {
            Some(n) if n.code == SCN_STYLENEEDED && n.position >= 0 => Some(n.position as usize),
            _ => None,
        },
{
    match n {
        Some(n) => if n.code == SCN_STYLENEEDED && n.position >= 0 {
            Some(n.position as usize)
        } else {
            None
        },
        None => None,
    }
}

/// A modification that inserts or deletes text.
pub open spec fn changes_text(modification_type: u32) -> bool {
    modification_type & 3 != 0
}

/// Whether a notification reports a change of style or markers alone. The
/// window has nothing to bring up to date after one.
pub fn is_style_only_modification(n: Option<Notification>) -> (r: bool)
    ensures
        r == match n {
            Some(n) => n.code == SCN_MODIFIED && !changes_text(n.modification_type),
            None => false,
        },
{
    match n {
        Some(n) => {
            assert(1u32 | 2u32 == 3u32) by (bit_vector);
            n.code == SCN_MODIFIED && n.modification_type & (SC_MOD_INSERTTEXT | SC_MOD_DELETETEXT)
                == 0
        },
        None => false,
    }
}

/// A notification that reports inserted text, deleted text or both is never
/// taken for a change of style, whatever else it reports.
pub proof fn text_changes_are_seen(modification_type: u32)
    ensures
        changes_text(modification_type | SC_MOD_INSERTTEXT),
        changes_text(modification_type | SC_MOD_DELETETEXT),
        !changes_text(0),
{
    let m = modification_type;
    assert((m | 1u32) & 3u32 != 0u32) by (bit_vector);
    assert((m | 2u32) & 3u32 != 0u32) by (bit_vector);
    assert(0u32 & 3u32 == 0u32) by (bit_vector);
}

/// Whether a notification carries a list of dropped URIs.
pub fn carries_dropped_uris(n: Option<Notification>) -> (r: bool)
    ensures
        r == match n {
            Some(n) => n.code == SCN_URIDROPPED && n.has_text,
            None => false,
        },
{
    match n {
        Some(n) => n.code == SCN_URIDROPPED && n.has_text,
        None => false,
    }
}

/// Whether a key press counts towards the typing latency. Ctrl chords do not;
/// Ctrl and Alt together are how many keyboards type characters, and do.
pub fn counts_as_typing(control: bool, alt: bool) -> (r: bool)
    ensures
        r == (!control || alt),
{
    !(control && !alt)
}

/// What a notification is to the latency probes.
#[derive(Clone, Copy, PartialEq, Eq, Structural, Debug)]
pub enum ProbeMark {
    TextModified,
    Painted,
    Nothing,
}

/// What a notification code is to the latency probes; `None` stands for an
/// emission of another shape.
pub fn probe_mark(code: Option<u32>) -> (r: ProbeMark)
    ensures
        r == if code == Some(SCN_MODIFIED) {
            ProbeMark::TextModified
        } else if code == Some(SCN_PAINTED) {
            ProbeMark::Painted
        } else {
            ProbeMark::Nothing
        },
{
    match code {
        Some(c) => if c == SCN_MODIFIED {
            ProbeMark::TextModified
        } else if c == SCN_PAINTED {
            ProbeMark::Painted
        } else {
            ProbeMark::Nothing
        },
        None => ProbeMark::Nothing,
    }
}

/// Text was inserted or deleted exactly if one of the two lowest bits says so.
pub proof fn the_two_lowest_bits_are_text(modification_type: u32)
    ensures
        changes_text(modification_type) <==> modification_type % 4 != 0,
{
    let m = modification_type;
    assert(m & 3u32 == m % 4u32) by (bit_vector);
}

/// What each notification means, by its code.
pub proof fn a_code_means_one_thing(
    n: Notification,
    style: Option<usize>,
    style_only: bool,
    dropped: bool,
    mark: ProbeMark,
)
    requires
        call_ensures(style_needed_position, (Some(n),), style),
        call_ensures(is_style_only_modification, (Some(n),), style_only),
        call_ensures(carries_dropped_uris, (Some(n),), dropped),
        call_ensures(probe_mark, (Some(n.code),), mark),
    ensures
        style is Some <==> n.code == 2000 && n.position >= 0,
        style matches Some(at) ==> at == n.position,
        style_only <==> n.code == 2008 && n.modification_type % 4 == 0,
        dropped <==> n.code == 2015 && n.has_text,
        mark == ProbeMark::TextModified <==> n.code == 2008,
        mark == ProbeMark::Painted <==> n.code == 2013,
{
    the_two_lowest_bits_are_text(n.modification_type);
}

/// A key press counts as typing unless Ctrl is held without Alt.
pub proof fn typing_is_told_from_chords(control: bool, alt: bool, r: bool)
    requires
        call_ensures(counts_as_typing, (control, alt), r),
    ensures
        !r <==> control && !alt,
{
}

} // verus!

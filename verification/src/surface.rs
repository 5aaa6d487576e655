//! The surface notifier: derives, from an unread count, the presentation
//! text for every user-interface surface — tray title, tray tooltip, window
//! title, and platform badge — together with the change notification for the
//! front end.
//!
//! Each derivation is a pure function of the count: the plain product name
//! and a "no unread" sentence when the count is zero, and the count rendered
//! in decimal otherwise. Pushing the text to each surface is the hosting
//! process's job; a surface that does not exist is simply skipped there.

use vstd::prelude::*;
use vstd::string::StringExecFns;

use crate::text::{dec_str, push_decimal};

verus! {

/// The tray icon's title: the product name, with the count appended when it
/// is nonzero.
pub open spec fn spec_tray_title(count: u32) -> Seq<char> {
    if count == 0 {
        "Demo"@
    } else {
        "Demo "@ + dec_str(count as nat)
    }
}

/// The tray icon's hover tooltip: a marked "no unread" sentence for zero, a
/// marked "N unread" sentence otherwise.
pub open spec fn spec_tray_tooltip(count: u32) -> Seq<char> {
    if count == 0 {
        "\u{2705} Demo - \u{6ca1}\u{6709}\u{672a}\u{8bfb}\u{6d88}\u{606f}"@
    } else {
        "\u{1f534} Demo - "@ + dec_str(count as nat) + " \u{6761}\u{672a}\u{8bfb}\u{6d88}\u{606f}"@
    }
}

/// The main window's title: the product name when nothing is unread, a
/// badge-prefixed title carrying the count otherwise.
pub open spec fn spec_window_title(count: u32) -> Seq<char> {
    if count == 0 {
        "Demo"@
    } else {
        "\u{1f534} Demo ("@ + dec_str(count as nat) + " \u{6761}\u{672a}\u{8bfb})"@
    }
}

/// The platform badge's label: empty to clear the badge at zero, the decimal
/// count otherwise.
pub open spec fn spec_badge_label(count: u32) -> Seq<char> {
    if count == 0 {
        Seq::<char>::empty()
    } else {
        dec_str(count as nat)
    }
}

/// The presentation text for every surface, derived from one count.
pub struct SurfaceText {
    pub tray_title: String,
    pub tray_tooltip: String,
    pub window_title: String,
    pub badge_label: String,
}

/// True when every field carries the text derived from `count`.
pub open spec fn surface_text_for(t: &SurfaceText, count: u32) -> bool {
    &&& t.tray_title@ == spec_tray_title(count)
    &&& t.tray_tooltip@ == spec_tray_tooltip(count)
    &&& t.window_title@ == spec_window_title(count)
    &&& t.badge_label@ == spec_badge_label(count)
}

/// Derives the tray title for a count.
pub fn tray_title(count: u32) -> (r: String)
    ensures
        r@ == spec_tray_title(count),
{
    if count == 0 {
        String::from_str("Demo")
    } else {
        let mut s = String::from_str("Demo ");
        push_decimal(&mut s, count as u64);
        s
    }
}

/// Derives the tray tooltip for a count.
pub fn tray_tooltip(count: u32) -> (r: String)
    ensures
        r@ == spec_tray_tooltip(count),
{
    if count == 0 {
        String::from_str("\u{2705} Demo - \u{6ca1}\u{6709}\u{672a}\u{8bfb}\u{6d88}\u{606f}")
    } else {
        let mut s = String::from_str("\u{1f534} Demo - ");
        push_decimal(&mut s, count as u64);
        s.append(" \u{6761}\u{672a}\u{8bfb}\u{6d88}\u{606f}");
        s
    }
}

/// Derives the window title for a count.
pub fn window_title(count: u32) -> (r: String)
    ensures
        r@ == spec_window_title(count),
{
    if count == 0 {
        String::from_str("Demo")
    } else {
        let mut s = String::from_str("\u{1f534} Demo (");
        push_decimal(&mut s, count as u64);
        s.append(" \u{6761}\u{672a}\u{8bfb})");
        s
    }
}

/// Derives the badge label for a count.
pub fn badge_label(count: u32) -> (r: String)
    ensures
        r@ == spec_badge_label(count),
{
    if count == 0 {
        let s = String::new();
        assert(s@ =~= Seq::<char>::empty());
        s
    } else {
        let mut s = String::new();
        push_decimal(&mut s, count as u64);
        assert(s@ =~= dec_str(count as nat));
        s
    }
}

/// Derives the text for all four surfaces from one count.
pub fn surface_text(count: u32) -> (r: SurfaceText)
    ensures
        surface_text_for(&r, count),
{
    SurfaceText {
        tray_title: tray_title(count),
        tray_tooltip: tray_tooltip(count),
        window_title: window_title(count),
        badge_label: badge_label(count),
    }
}

/// How one surface's update went: the surface does not exist, it took the
/// text, or it exists and failed with a message.
pub enum SurfaceOutcome {
    Absent,
    Updated,
    Failed(String),
}

/// The propagation policy for one round of surface updates, each attempted
/// independently: an absent surface is skipped without error; a failure to
/// set a title or tooltip on an existing surface is propagated, first one
/// encountered; a badge failure is swallowed as an expected platform
/// limitation.
pub fn surface_update_result(
    tray_title: SurfaceOutcome,
    tray_tooltip: SurfaceOutcome,
    window_title: SurfaceOutcome,
    badge: SurfaceOutcome,
) -> (r: Result<(), String>)
    ensures
        r is Err <==> (tray_title is Failed || tray_tooltip is Failed || window_title is Failed),
        tray_title matches SurfaceOutcome::Failed(m) ==> r == Err::<(), String>(m),
        !(tray_title is Failed) ==> (tray_tooltip matches SurfaceOutcome::Failed(m) ==> r == Err::<
            (),
            String,
        >(m)),
        !(tray_title is Failed) && !(tray_tooltip is Failed) ==> (window_title
            matches SurfaceOutcome::Failed(m) ==> r == Err::<(), String>(m)),
{
    match tray_title {
        SurfaceOutcome::Failed(m) => {
            return Err(m);
        },
        _ => {},
    }
    match tray_tooltip {
        SurfaceOutcome::Failed(m) => {
            return Err(m);
        },
        _ => {},
    }
    match window_title {
        SurfaceOutcome::Failed(m) => {
            return Err(m);
        },
        _ => {},
    }
    Ok(())
}

/// What the main window should do when the user asks to toggle it.
#[derive(Debug, Clone, Copy, PartialEq, Eq, Structural)]
pub enum WindowAction {
    Show,
    Hide,
}

/// The toggle decision: hide a visible window, show a hidden one.
pub fn window_toggle_action(visible: bool) -> (r: WindowAction)
    ensures
        r == (if visible {
            WindowAction::Hide
        } else {
            WindowAction::Show
        }),
{
    if visible {
        WindowAction::Hide
    } else {
        WindowAction::Show
    }
}

/// A mouse button in a tray-icon click event.
#[derive(Debug, Clone, Copy, PartialEq, Eq, Structural)]
pub enum TrayButton {
    Left,
    Right,
    Middle,
}

/// The press state of the button in a tray-icon click event.
#[derive(Debug, Clone, Copy, PartialEq, Eq, Structural)]
pub enum TrayButtonState {
    Up,
    Down,
}

/// The tray-click decision: only releasing the left button toggles the main
/// window; every other click is ignored.
pub fn tray_click_toggles_window(button: TrayButton, state: TrayButtonState) -> (r: bool)
    ensures
        r <==> (button == TrayButton::Left && state == TrayButtonState::Up),
{
    match (button, state) {
        (TrayButton::Left, TrayButtonState::Up) => true,
        _ => false,
    }
}

} // verus!

//! System-tray texts and reactions: the tooltip (bounded for the Windows
//! tip buffer), the now-playing menu entry, the menu and click actions, and
//! showing or removing the icon.
use vstd::prelude::*;

use crate::text::{
    chars_eq, chars_of, contains_seq, contains_str, lowercase, push_str, string_of, unicode_lowercase,
};

verus! {

/// Characters a tooltip may have, icon prefix included (the Windows tip
/// buffer holds 128 bytes with its terminator).
pub const TOOLTIP_MAX_CHARS: usize = 127;

/// Characters kept free for the ellipsis of a cut tooltip.
pub const ELLIPSIS_RESERVE: usize = 3;

/// `a - b`, or 0 when `b` is larger.
pub open spec fn sat_sub(a: int, b: int) -> int {
    if a >= b {
        a - b
    } else {
        0
    }
}

/// The playback state the tray shows: the one reported, else "play" when a
/// track text came with the update and "stop" otherwise.
pub open spec fn tray_state_spec(has_track_input: bool, reported: Option<Seq<char>>) -> Seq<char> {
    match reported {
        Some(s) => s,
        None => if has_track_input {
            "play"@
        } else {
            "stop"@
        },
    }
}

pub fn tray_playback_state(tooltip: &str, reported: Option<&str>) -> (r: String)
    ensures
        r@ == tray_state_spec(
            tooltip@.len() > 0,
            match reported {
                Some(s) => Some(s@),
                None => None,
            },
        ),
{
    match reported {
        Some(s) => string_of(&chars_of(s)),
        None => {
            if tooltip.unicode_len() > 0 {
                string_of(&chars_of("play"))
            } else {
                string_of(&chars_of("stop"))
            }
        },
    }
}

/// The tooltip text cut to fit beside the icon prefix (`icon` and a space):
/// a longer text keeps its first characters and ends in "...".
pub open spec fn truncate_tooltip_spec(tooltip: Seq<char>, icon: Seq<char>) -> Seq<char> {
    let max_text = sat_sub(TOOLTIP_MAX_CHARS as int, icon.len() + 1int);
    if tooltip.len() > max_text {
        tooltip.subrange(0, sat_sub(max_text, ELLIPSIS_RESERVE as int)) + "..."@
    } else {
        tooltip
    }
}

pub fn truncate_tooltip(tooltip: &str, icon: &str) -> (r: String)
    ensures
        r@ == truncate_tooltip_spec(tooltip@, icon@),
{
    let t = chars_of(tooltip);
    let icon_len = icon.unicode_len();
    let max_text: usize = if icon_len < TOOLTIP_MAX_CHARS {
        TOOLTIP_MAX_CHARS - icon_len - 1
    } else {
        0
    };
    if t.len() > max_text {
        let take: usize = if max_text >= ELLIPSIS_RESERVE {
            max_text - ELLIPSIS_RESERVE
        } else {
            0
        };
        let mut out: Vec<char> = Vec::new();
        let mut i: usize = 0;
        while i < take
            invariant
                i <= take,
                take <= t@.len(),
                out@ == t@.subrange(0, i as int),
            decreases take - i,
        {
            out.push(t[i]);
            i = i + 1;
        }
        push_str(&mut out, "...");
        string_of(&out)
    } else {
        string_of(&t)
    }
}

/// The tooltip shown: the track text, or the app name when there is none.
pub open spec fn effective_tooltip_spec(text: Seq<char>) -> Seq<char> {
    if text.len() > 0 {
        text
    } else {
        "Psysonic"@
    }
}

pub fn effective_tooltip(text: &str) -> (r: String)
    ensures
        r@ == effective_tooltip_spec(text@),
{
    if text.unicode_len() > 0 {
        string_of(&chars_of(text))
    } else {
        string_of(&chars_of("Psysonic"))
    }
}

/// `icon`, a space, and `text`.
pub fn with_icon(icon: &str, text: &str) -> (r: String)
    ensures
        r@ == icon@ + " "@ + text@,
{
    let mut v: Vec<char> = Vec::new();
    push_str(&mut v, icon);
    push_str(&mut v, " ");
    push_str(&mut v, text);
    string_of(&v)
}

/// The now-playing entry of a freshly built tray menu, from the cached
/// tooltip (already defaulted to the app name when empty).
pub open spec fn built_now_playing_spec(icon: Seq<char>, cached: Seq<char>, nothing: Seq<char>) -> Seq<char> {
    if cached == "Psysonic"@ {
        icon + " "@ + nothing
    } else {
        icon + " "@ + cached
    }
}

pub fn built_now_playing_label(icon: &str, cached_tooltip: &str, nothing_playing: &str) -> (r: String)
    ensures
        r@ == built_now_playing_spec(icon@, cached_tooltip@, nothing_playing@),
{
    let c = chars_of(cached_tooltip);
    let d = chars_of("Psysonic");
    if chars_eq(&c, &d) {
        with_icon(icon, nothing_playing)
    } else {
        with_icon(icon, cached_tooltip)
    }
}

/// The now-playing entry after a tooltip update: the shown tooltip while a
/// track plays, else the localized placeholder ("Nothing playing" if none).
pub open spec fn updated_now_playing_spec(
    icon: Seq<char>,
    truncated: Seq<char>,
    nothing: Option<Seq<char>>,
) -> Seq<char> {
    if truncated.len() > 0 {
        icon + " "@ + truncated
    } else {
        icon + " "@ + match nothing {
            Some(n) => n,
            None => "Nothing playing"@,
        }
    }
}

pub fn updated_now_playing_label(icon: &str, truncated: &str, nothing_playing: Option<&str>) -> (r:
    String)
    ensures
        r@ == updated_now_playing_spec(
            icon@,
            truncated@,
            match nothing_playing {
                Some(n) => Some(n@),
                None => None,
            },
        ),
{
    if truncated.unicode_len() > 0 {
        with_icon(icon, truncated)
    } else {
        match nothing_playing {
            Some(n) => with_icon(icon, n),
            None => with_icon(icon, "Nothing playing"),
        }
    }
}

/// Everything a tooltip update produces.
pub struct TooltipUpdate {
    /// Playback state to cache and draw the icon for.
    pub state: String,
    /// Track text to cache (empty when nothing plays).
    pub cached: String,
    /// Tooltip to set on the icon.
    pub shown: String,
}

/// A tooltip update: `icon` is the glyph of the resulting playback state.
pub fn tooltip_update(tooltip: &str, reported_state: Option<&str>, icon: &str, icon_prefixed: bool) -> (r:
    TooltipUpdate)
    ensures
        r.state@ == tray_state_spec(
            tooltip@.len() > 0,
            match reported_state {
                Some(s) => Some(s@),
                None => None,
            },
        ),
        r.cached@ == truncate_tooltip_spec(tooltip@, icon@),
        r.shown@ == (if icon_prefixed {
            icon@ + " "@ + effective_tooltip_spec(truncate_tooltip_spec(tooltip@, icon@))
        } else {
            effective_tooltip_spec(truncate_tooltip_spec(tooltip@, icon@))
        }),
{
    let state = tray_playback_state(tooltip, reported_state);
    let cached = truncate_tooltip(tooltip, icon);
    let effective = effective_tooltip(cached.as_str());
    let shown = if icon_prefixed {
        with_icon(icon, effective.as_str())
    } else {
        effective
    };
    TooltipUpdate { state, cached, shown }
}

/// An event the tray menu sends to the frontend.
#[derive(Clone, Copy, Debug, PartialEq, Eq, Structural)]
pub enum TrayEvent {
    PlayPause,
    Next,
    Previous,
    ForceQuit,
}

impl TrayEvent {
    pub open spec fn name_spec(&self) -> Seq<char> {
        match self {
            TrayEvent::PlayPause => "tray:play-pause"@,
            TrayEvent::Next => "tray:next"@,
            TrayEvent::Previous => "tray:previous"@,
            TrayEvent::ForceQuit => "app:force-quit"@,
        }
    }

    /// The event's name on the frontend bus.
    pub fn name(&self) -> (r: &'static str)
        ensures
            r@ == self.name_spec(),
    {
        match self {
            TrayEvent::PlayPause => "tray:play-pause",
            TrayEvent::Next => "tray:next",
            TrayEvent::Previous => "tray:previous",
            TrayEvent::ForceQuit => "app:force-quit",
        }
    }
}

/// What a tray menu entry does.
#[derive(Clone, Copy, Debug, PartialEq, Eq, Structural)]
pub enum TrayMenuAction {
    /// Send this event to the frontend.
    Emit(TrayEvent),
    /// Show or hide the main window.
    ToggleWindow,
}

pub open spec fn menu_action_spec(id: Seq<char>) -> Option<TrayMenuAction> {
    if id == "play_pause"@ {
        Some(TrayMenuAction::Emit(TrayEvent::PlayPause))
    } else if id == "next"@ {
        Some(TrayMenuAction::Emit(TrayEvent::Next))
    } else if id == "previous"@ {
        Some(TrayMenuAction::Emit(TrayEvent::Previous))
    } else if id == "show_hide"@ {
        Some(TrayMenuAction::ToggleWindow)
    } else if id == "quit"@ {
        Some(TrayMenuAction::Emit(TrayEvent::ForceQuit))
    } else {
        None
    }
}

fn is(id: &Vec<char>, s: &str) -> (b: bool)
    ensures
        b == (id@ == s@),
{
    let v = chars_of(s);
    chars_eq(id, &v)
}

/// The action of the menu entry with this id; unknown ids do nothing.
pub fn tray_menu_action(id: &str) -> (r: Option<TrayMenuAction>)
    ensures
        r == menu_action_spec(id@),
{
    let v = chars_of(id);
    if is(&v, "play_pause") {
        Some(TrayMenuAction::Emit(TrayEvent::PlayPause))
    } else if is(&v, "next") {
        Some(TrayMenuAction::Emit(TrayEvent::Next))
    } else if is(&v, "previous") {
        Some(TrayMenuAction::Emit(TrayEvent::Previous))
    } else if is(&v, "show_hide") {
        Some(TrayMenuAction::ToggleWindow)
    } else if is(&v, "quit") {
        Some(TrayMenuAction::Emit(TrayEvent::ForceQuit))
    } else {
        None
    }
}

/// How the main window is toggled.
#[derive(Clone, Copy, Debug, PartialEq, Eq, Structural)]
pub enum WindowToggle {
    /// Pause rendering, then hide.
    PauseAndHide,
    /// Resume rendering, show, and focus.
    ResumeAndShow,
}

pub fn window_toggle(visible: bool) -> (r: WindowToggle)
    ensures
        r == (if visible {
            WindowToggle::PauseAndHide
        } else {
            WindowToggle::ResumeAndShow
        }),
{
    if visible {
        WindowToggle::PauseAndHide
    } else {
        WindowToggle::ResumeAndShow
    }
}

/// A mouse event on the tray icon.
#[derive(Clone, Copy, Debug, PartialEq, Eq, Structural)]
pub enum TrayClick {
    Click { left: bool, released: bool },
    DoubleClick { left: bool },
    Other,
}

/// Whether an icon event toggles the window: a left double-click on
/// Windows (which reports a click for each half of it), a released left
/// click elsewhere.
pub fn tray_click_toggles(windows: bool, ev: TrayClick) -> (r: bool)
    ensures
        r == (if windows {
            ev matches TrayClick::DoubleClick { left: true }
        } else {
            ev matches TrayClick::Click { left: true, released: true }
        }),
{
    match ev {
        TrayClick::Click { left, released } => !windows && left && released,
        TrayClick::DoubleClick { left } => windows && left,
        TrayClick::Other => false,
    }
}

/// What showing or removing the tray icon does.
#[derive(Clone, Copy, Debug, PartialEq, Eq, Structural)]
pub enum TrayToggle {
    /// Already in the requested state.
    Nothing,
    /// Build the icon.
    Build,
    /// Hide the icon, then drop it.
    HideAndDrop,
}

/// What a show (`show`) or remove request does, given whether an icon is
/// `present`.
pub open spec fn tray_toggle_spec(show: bool, present: bool) -> TrayToggle {
    if show == present {
        TrayToggle::Nothing
    } else if show {
        TrayToggle::Build
    } else {
        TrayToggle::HideAndDrop
    }
}

/// Whether an icon is present after a request; `built` says whether
/// building the icon succeeded (when a build was due).
pub open spec fn tray_present_after(show: bool, present: bool, built: bool) -> bool {
    match tray_toggle_spec(show, present) {
        TrayToggle::Nothing => present,
        TrayToggle::Build => built,
        TrayToggle::HideAndDrop => false,
    }
}

/// Show (`show`) or remove the icon, given whether one is `present`; each
/// request is idempotent.
pub fn tray_toggle(show: bool, present: bool) -> (r: TrayToggle)
    ensures
        r == tray_toggle_spec(show, present),
{
    if show == present {
        TrayToggle::Nothing
    } else if show {
        TrayToggle::Build
    } else {
        TrayToggle::HideAndDrop
    }
}

/// Two equal requests in a row act as one: after a request that succeeded
/// the icon is present exactly when it was asked for, and the same request
/// again does nothing (no second icon, no second removal). A removal always
/// succeeds, so a repeated removal never does anything either.
pub proof fn repeated_tray_request_acts_once(show: bool, present: bool, built: bool)
    ensures
        tray_present_after(show, present, true) == show,
        tray_toggle_spec(show, tray_present_after(show, present, true)) == TrayToggle::Nothing,
        !show ==> tray_present_after(show, present, built) == false && tray_toggle_spec(
            show,
            tray_present_after(show, present, built),
        ) == TrayToggle::Nothing,
{
}

/// Window managers recognised in `XDG_CURRENT_DESKTOP`.
pub open spec fn tiling_wm_names() -> Seq<Seq<char>> {
    seq![
        "hyprland"@,
        "sway"@,
        "i3"@,
        "bspwm"@,
        "awesome"@,
        "openbox"@,
        "xmonad"@,
        "dwm"@,
        "qtile"@,
        "herbstluftwm"@,
        "leftwm"@,
    ]
}

/// Some recognised window manager's name occurs in `desktop`.
pub open spec fn names_tiling_wm(desktop: Seq<char>) -> bool {
    exists|i: int| 0 <= i < tiling_wm_names().len() && contains_seq(desktop, #[trigger] tiling_wm_names()[i])
}

/// Whether an already lowercased desktop name mentions a tiling window manager.
pub fn desktop_names_tiling_wm(lowered: &str) -> (r: bool)
    ensures
        r == names_tiling_wm(lowered@),
{
    let d = chars_of(lowered);
    let names = ["hyprland", "sway", "i3", "bspwm", "awesome", "openbox", "xmonad", "dwm", "qtile", "herbstluftwm", "leftwm"];
    let mut i: usize = 0;
    while i < 11
        invariant
            i <= 11,
            d@ == lowered@,
            forall|j: int| 0 <= j < 11 ==> (#[trigger] names@[j])@ == tiling_wm_names()[j],
            forall|j: int| 0 <= j < i ==> !contains_seq(lowered@, #[trigger] tiling_wm_names()[j]),
        decreases 11 - i,
    {
        if contains_str(&d, names[i]) {
            return true;
        }
        i = i + 1;
    }
    false
}

/// Whether the session runs under a tiling window manager (Linux only): a
/// compositor announced itself (Hyprland, Sway or i3 socket variables), or
/// the lowercased `XDG_CURRENT_DESKTOP` names a known tiling manager.
pub fn is_tiling_wm(linux: bool, compositor_signature: bool, xdg_current_desktop: Option<&str>) -> (r:
    bool)
    ensures
        r == (linux && (compositor_signature || match xdg_current_desktop {
            Some(d) => names_tiling_wm(unicode_lowercase(d@)),
            None => false,
        })),
{
    if !linux {
        return false;
    }
    if compositor_signature {
        return true;
    }
    match xdg_current_desktop {
        Some(d) => {
            let low = lowercase(d);
            desktop_names_tiling_wm(low.as_str())
        },
        None => false,
    }
}

/// A cut tooltip fits the tip buffer together with its icon prefix, as long
/// as the prefix leaves room for the ellipsis.
pub proof fn tooltip_fits_limit(tooltip: Seq<char>, icon: Seq<char>)
    requires
        icon.len() + 1 + ELLIPSIS_RESERVE <= TOOLTIP_MAX_CHARS,
    ensures
        icon.len() + 1 + truncate_tooltip_spec(tooltip, icon).len() <= TOOLTIP_MAX_CHARS,
        tooltip.len() + icon.len() + 1 <= TOOLTIP_MAX_CHARS ==> truncate_tooltip_spec(tooltip, icon)
            == tooltip,
{
    reveal_strlit("...");
}

} // verus!

//! Small decisions behind frontend commands: the greeting, the wire user
//! agent, global media-key shortcuts, and whether a loudness backfill is
//! queued for a track.
use vstd::prelude::*;

use crate::text::{
    chars_eq, chars_of, chars_start_with, push_str, starts_with, string_of, trim_chars, trim_seq,
    TrimSet,
};

verus! {

/// The greeting for `name`.
pub fn greet(name: &str) -> (r: String)
    ensures
        r@ == "Hello, "@ + name@ + "!"@,
{
    let mut v: Vec<char> = Vec::new();
    push_str(&mut v, "Hello, ");
    push_str(&mut v, name);
    push_str(&mut v, "!");
    string_of(&v)
}

/// A new wire user agent, reported by a window: only the main window's
/// report counts (`Ok(None)` for others); a blank one is refused; else the
/// trimmed text is the new agent.
pub fn wire_user_agent_update(user_agent: &str, window_label: &str) -> (r: Result<Option<String>, String>)
    ensures
        window_label@ != "main"@ ==> r matches Ok(None),
        window_label@ == "main"@ ==> {
            let t = trim_seq(user_agent@, TrimSet::Whitespace);
            if t.len() == 0 {
                r matches Err(e) && e@ == "user agent is empty"@
            } else {
                r matches Ok(Some(ua)) && ua@ == t
            }
        },
{
    let label = chars_of(window_label);
    let main = chars_of("main");
    if !chars_eq(&label, &main) {
        return Ok(None);
    }
    let v = chars_of(user_agent);
    let t = trim_chars(&v, TrimSet::Whitespace);
    if t.len() == 0 {
        return Err(string_of(&chars_of("user agent is empty")));
    }
    Ok(Some(string_of(&t)))
}

/// A media key event sent to the frontend when a global shortcut fires.
#[derive(Clone, Copy, Debug, PartialEq, Eq, Structural)]
pub enum MediaKeyEvent {
    PlayPause,
    Next,
    Prev,
    VolumeUp,
    VolumeDown,
}

impl MediaKeyEvent {
    pub open spec fn name_spec(&self) -> Seq<char> {
        match self {
            MediaKeyEvent::PlayPause => "media:play-pause"@,
            MediaKeyEvent::Next => "media:next"@,
            MediaKeyEvent::Prev => "media:prev"@,
            MediaKeyEvent::VolumeUp => "media:volume-up"@,
            MediaKeyEvent::VolumeDown => "media:volume-down"@,
        }
    }

    /// The event's name on the frontend bus.
    pub fn name(&self) -> (r: &'static str)
        ensures
            r@ == self.name_spec(),
    {
        match self {
            MediaKeyEvent::PlayPause => "media:play-pause",
            MediaKeyEvent::Next => "media:next",
            MediaKeyEvent::Prev => "media:prev",
            MediaKeyEvent::VolumeUp => "media:volume-up",
            MediaKeyEvent::VolumeDown => "media:volume-down",
        }
    }
}

pub open spec fn shortcut_event_spec(action: Seq<char>) -> Option<MediaKeyEvent> {
    if action == "play-pause"@ {
        Some(MediaKeyEvent::PlayPause)
    } else if action == "next"@ {
        Some(MediaKeyEvent::Next)
    } else if action == "prev"@ {
        Some(MediaKeyEvent::Prev)
    } else if action == "volume-up"@ {
        Some(MediaKeyEvent::VolumeUp)
    } else if action == "volume-down"@ {
        Some(MediaKeyEvent::VolumeDown)
    } else {
        None
    }
}

fn is(v: &Vec<char>, s: &str) -> (b: bool)
    ensures
        b == (v@ == s@),
{
    let w = chars_of(s);
    chars_eq(v, &w)
}

/// The event a pressed shortcut bound to `action` sends; unknown actions
/// send nothing.
pub fn shortcut_event(action: &str) -> (r: Option<MediaKeyEvent>)
    ensures
        r == shortcut_event_spec(action@),
{
    let v = chars_of(action);
    if is(&v, "play-pause") {
        Some(MediaKeyEvent::PlayPause)
    } else if is(&v, "next") {
        Some(MediaKeyEvent::Next)
    } else if is(&v, "prev") {
        Some(MediaKeyEvent::Prev)
    } else if is(&v, "volume-up") {
        Some(MediaKeyEvent::VolumeUp)
    } else if is(&v, "volume-down") {
        Some(MediaKeyEvent::VolumeDown)
    } else {
        None
    }
}

/// The bindings as text pairs.
pub open spec fn pairs_view(s: Seq<(String, String)>) -> Seq<(Seq<char>, Seq<char>)> {
    s.map_values(|p: (String, String)| (p.0@, p.1@))
}

/// The action bound to `k` (the last binding of `k`, if any).
pub open spec fn bound_action(s: Seq<(Seq<char>, Seq<char>)>, k: Seq<char>) -> Option<Seq<char>>
    decreases s.len(),
{
    if s.len() == 0 {
        None
    } else if s.last().0 == k {
        Some(s.last().1)
    } else {
        bound_action(s.drop_last(), k)
    }
}

/// The bindings without those of `k`.
pub open spec fn without_key(s: Seq<(Seq<char>, Seq<char>)>, k: Seq<char>) -> Seq<(Seq<char>, Seq<char>)>
    decreases s.len(),
{
    if s.len() == 0 {
        s
    } else if s.last().0 == k {
        without_key(s.drop_last(), k)
    } else {
        without_key(s.drop_last(), k).push(s.last())
    }
}

proof fn lemma_without_key(s: Seq<(Seq<char>, Seq<char>)>, k: Seq<char>, q: Seq<char>)
    ensures
        bound_action(without_key(s, k), q) == (if q == k {
            None
        } else {
            bound_action(s, q)
        }),
    decreases s.len(),
{
    if s.len() > 0 {
        lemma_without_key(s.drop_last(), k, q);
        if s.last().0 != k {
            assert(without_key(s, k).drop_last() =~= without_key(s.drop_last(), k));
        }
    }
}

/// Global shortcuts bound to actions, at most one binding per shortcut.
pub struct ShortcutRegistry {
    entries: Vec<(String, String)>,
}

impl ShortcutRegistry {
    pub closed spec fn bindings(&self) -> Seq<(Seq<char>, Seq<char>)> {
        pairs_view(self.entries@)
    }

    /// The action bound to shortcut `k`.
    pub open spec fn action(&self, k: Seq<char>) -> Option<Seq<char>> {
        bound_action(self.bindings(), k)
    }

    pub fn new() -> (r: Self)
        ensures
            forall|k: Seq<char>| #[trigger] r.action(k) is None,
    {
        let r = ShortcutRegistry { entries: Vec::new() };
        assert(r.bindings() =~= Seq::<(Seq<char>, Seq<char>)>::empty());
        r
    }

    /// The action bound to `shortcut`.
    pub fn action_of(&self, shortcut: &str) -> (r: Option<String>)
        ensures
            match r {
                Some(a) => self.action(shortcut@) == Some(a@),
                None => self.action(shortcut@) is None,
            },
    {
        let k = chars_of(shortcut);
        let mut i = self.entries.len();
        assert(self.entries@.subrange(0, i as int) =~= self.entries@);
        while i > 0
            invariant
                i <= self.entries@.len(),
                k@ == shortcut@,
                bound_action(self.bindings(), shortcut@) == bound_action(
                    pairs_view(self.entries@.subrange(0, i as int)),
                    shortcut@,
                ),
            decreases i,
        {
            let ek = chars_of(self.entries[i - 1].0.as_str());
            proof {
                let s = pairs_view(self.entries@.subrange(0, i as int));
                assert(s.drop_last() =~= pairs_view(self.entries@.subrange(0, i - 1)));
                assert(s.last() == (self.entries@[i - 1].0@, self.entries@[i - 1].1@));
            }
            if chars_eq(&ek, &k) {
                return Some(self.entries[i - 1].1.clone());
            }
            i = i - 1;
        }
        assert(pairs_view(self.entries@.subrange(0, 0)) =~= Seq::<(Seq<char>, Seq<char>)>::empty());
        None
    }

    /// Bind `shortcut` to `action`. Binding a shortcut to the action it
    /// already has changes nothing and returns `false` (no second OS grab);
    /// otherwise the binding replaces any earlier one and `true` is returned.
    pub fn register(&mut self, shortcut: String, action: String) -> (r: bool)
        ensures
            r == (old(self).action(shortcut@) != Some(action@)),
            !r ==> final(self).bindings() == old(self).bindings(),
            forall|q: Seq<char>| #[trigger] final(self).action(q) == (if q == shortcut@ {
                Some(action@)
            } else {
                old(self).action(q)
            }),
    {
        match self.action_of(shortcut.as_str()) {
            Some(a) => {
                let av = chars_of(a.as_str());
                let bv = chars_of(action.as_str());
                if chars_eq(&av, &bv) {
                    return false;
                }
            },
            None => {},
        }
        self.unregister(shortcut.as_str());
        let ghost mid = self.bindings();
        let ghost mid_reg = *self;
        let ghost k = shortcut@;
        let ghost a = action@;
        self.entries.push((shortcut, action));
        proof {
            assert(self.bindings().drop_last() =~= mid);
            assert(self.bindings().last() == (k, a));
            assert forall|q: Seq<char>| #[trigger] self.action(q) == (if q == k {
                Some(a)
            } else {
                old(self).action(q)
            }) by {
                assert(mid_reg.action(q) == (if q == k {
                    None
                } else {
                    old(self).action(q)
                }));
            }
        }
        true
    }

    /// Remove any binding of `shortcut`.
    pub fn unregister(&mut self, shortcut: &str)
        ensures
            final(self).bindings() == without_key(old(self).bindings(), shortcut@),
            forall|q: Seq<char>| #[trigger] final(self).action(q) == (if q == shortcut@ {
                None
            } else {
                old(self).action(q)
            }),
    {
        let k = chars_of(shortcut);
        let mut old_entries: Vec<(String, String)> = Vec::new();
        std::mem::swap(&mut old_entries, &mut self.entries);
        let ghost all = old_entries@;
        let mut kept: Vec<(String, String)> = Vec::new();
        let mut i: usize = 0;
        let n = old_entries.len();
        while i < n
            invariant
                n == all.len(),
                i <= n,
                k@ == shortcut@,
                old_entries@ =~= all.subrange(i as int, n as int),
                pairs_view(kept@) == without_key(pairs_view(all.subrange(0, i as int)), shortcut@),
            decreases n - i,
        {
            let e = old_entries.remove(0);
            proof {
                let s = pairs_view(all.subrange(0, i + 1));
                assert(s.drop_last() =~= pairs_view(all.subrange(0, i as int)));
                assert(e == all[i as int]);
            }
            let ek = chars_of(e.0.as_str());
            if !chars_eq(&ek, &k) {
                let ghost before = kept@;
                kept.push(e);
                proof {
                    assert(pairs_view(kept@) =~= pairs_view(before).push((e.0@, e.1@)));
                }
            }
            i = i + 1;
        }
        assert(all.subrange(0, n as int) =~= all);
        self.entries = kept;
        proof {
            assert forall|q: Seq<char>| #[trigger] self.action(q) == (if q == shortcut@ {
                None
            } else {
                old(self).action(q)
            }) by {
                lemma_without_key(pairs_view(all), shortcut@, q);
            }
        }
    }
}

/// What an analysis backfill request does.
#[derive(Clone, Copy, Debug, PartialEq, Eq, Structural)]
pub enum BackfillDecision {
    /// A blank track id or URL: nothing to do.
    Ignore,
    /// The ranged download of this track will seed loudness itself.
    DeferToRangedSeed,
    /// Loudness for this track is cached already.
    AlreadyCached,
    /// Queue the track.
    Enqueue,
}

/// Whether a loudness backfill for a track is queued. `force` skips both
/// the ranged-seed deferral and the cache check.
pub fn backfill_decision(
    track_id: &str,
    url: &str,
    force: bool,
    ranged_seed_pending: bool,
    already_cached: bool,
) -> (r: BackfillDecision)
    ensures
        r == (if trim_seq(track_id@, TrimSet::Whitespace).len() == 0 || trim_seq(
            url@,
            TrimSet::Whitespace,
        ).len() == 0 {
            BackfillDecision::Ignore
        } else if !force && ranged_seed_pending {
            BackfillDecision::DeferToRangedSeed
        } else if !force && already_cached {
            BackfillDecision::AlreadyCached
        } else {
            BackfillDecision::Enqueue
        }),
{
    let t = trim_chars(&chars_of(track_id), TrimSet::Whitespace);
    let u = trim_chars(&chars_of(url), TrimSet::Whitespace);
    if t.len() == 0 || u.len() == 0 {
        BackfillDecision::Ignore
    } else if !force && ranged_seed_pending {
        BackfillDecision::DeferToRangedSeed
    } else if !force && already_cached {
        BackfillDecision::AlreadyCached
    } else {
        BackfillDecision::Enqueue
    }
}

/// How a backfill queue took a track.
#[derive(Clone, Copy, Debug, PartialEq, Eq, Structural)]
pub enum BackfillEnqueueKind {
    NewBack,
    NewFront,
    ReorderedFront,
    DuplicateSkipped,
    RunningSkipped,
}

/// The backfill worker is woken when the queue gained or reordered work.
pub fn backfill_wakes_worker(kind: BackfillEnqueueKind) -> (r: bool)
    ensures
        r == (kind == BackfillEnqueueKind::NewBack || kind == BackfillEnqueueKind::NewFront || kind
            == BackfillEnqueueKind::ReorderedFront),
{
    match kind {
        BackfillEnqueueKind::NewBack | BackfillEnqueueKind::NewFront
        | BackfillEnqueueKind::ReorderedFront => true,
        _ => false,
    }
}

/// Win32 power broadcast: resumed automatically.
pub const PBT_APMRESUMEAUTOMATIC: u32 = 0x12;
/// Win32 power broadcast: resumed after a user-triggered suspend.
pub const PBT_APMRESUMESUSPEND: u32 = 0x7;
/// Win32 power broadcast: resumed from standby.
pub const PBT_APMRESUMESTANDBY: u32 = 0x8;

/// A Windows power broadcast that reports a resume from sleep.
pub fn windows_power_event_is_resume(event_type: u32) -> (r: bool)
    ensures
        r == (event_type == PBT_APMRESUMEAUTOMATIC || event_type == PBT_APMRESUMESUSPEND
            || event_type == PBT_APMRESUMESTANDBY),
{
    event_type == PBT_APMRESUMEAUTOMATIC || event_type == PBT_APMRESUMESUSPEND || event_type
        == PBT_APMRESUMESTANDBY
}

/// A GPU vendor the Linux startup tuning cares about.
#[derive(Clone, Copy, Debug, PartialEq, Eq, Structural)]
pub enum GpuVendor {
    Nvidia,
    Intel,
    Amd,
}

pub open spec fn gpu_vendor_spec(id: Seq<char>) -> Option<GpuVendor> {
    let t = trim_seq(id, TrimSet::Whitespace);
    if t == "0x10de"@ {
        Some(GpuVendor::Nvidia)
    } else if t == "0x8086"@ {
        Some(GpuVendor::Intel)
    } else if t == "0x1002"@ {
        Some(GpuVendor::Amd)
    } else {
        None
    }
}

/// The vendor named by a DRM card's `device/vendor` file (PCI vendor id).
pub fn gpu_vendor_from_id(vendor_file: &str) -> (r: Option<GpuVendor>)
    ensures
        r == gpu_vendor_spec(vendor_file@),
{
    let t = trim_chars(&chars_of(vendor_file), TrimSet::Whitespace);
    if is(&t, "0x10de") {
        Some(GpuVendor::Nvidia)
    } else if is(&t, "0x8086") {
        Some(GpuVendor::Intel)
    } else if is(&t, "0x1002") {
        Some(GpuVendor::Amd)
    } else {
        None
    }
}

/// A `/sys/class/drm` entry that is a card itself (`card0`), not one of its
/// connectors (`card0-HDMI-A-1`).
pub fn is_drm_card(name: &str) -> (r: bool)
    ensures
        r == (starts_with(name@, "card"@) && !name@.contains('-')),
{
    let v = chars_of(name);
    let card = chars_of("card");
    if !chars_start_with(&v, &card) {
        return false;
    }
    let mut i: usize = 0;
    while i < v.len()
        invariant
            i <= v@.len(),
            v@ == name@,
            forall|j: int| 0 <= j < i ==> v@[j] != '-',
        decreases v@.len() - i,
    {
        if v[i] == '-' {
            return false;
        }
        i = i + 1;
    }
    true
}

} // verus!

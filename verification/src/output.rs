//! Choice of the audio output: which device to open, which of its supported
//! configurations to use for a requested sample rate, the PipeWire/Pulse
//! latency hints for a rate, and the device watcher's reaction to each poll
//! of the device list.
use vstd::prelude::*;

use crate::devices::{logically_same_spec, output_enumeration_includes_pinned};
use crate::text::{chars_eq, chars_of, dec_seq, push_dec, push_str, string_of};

verus! {

/// Polls a pinned device may be missing before the watcher falls back.
pub const PINNED_MISS_LIMIT: u32 = 3;

/// One supported output configuration range of a device.
#[derive(Clone, Copy, Debug, PartialEq, Eq, Structural)]
pub struct OutputConfigRange {
    pub channels: u16,
    pub min_rate: u32,
    pub max_rate: u32,
}

pub open spec fn supports_rate(c: OutputConfigRange, rate: u32) -> bool {
    c.min_rate <= rate <= c.max_rate
}

/// Index of the last configuration that supports `rate` with the most
/// channels among those that support it (how `max_by_key` breaks ties).
pub open spec fn is_exact_choice(cs: Seq<OutputConfigRange>, rate: u32, i: int) -> bool {
    &&& 0 <= i < cs.len()
    &&& supports_rate(cs[i], rate)
    &&& forall|j: int| 0 <= j < cs.len() && supports_rate(cs[j], rate) ==> cs[j].channels <= cs[i].channels
    &&& forall|j: int| i < j < cs.len() && supports_rate(cs[j], rate) ==> cs[j].channels < cs[i].channels
}

/// Index of the last configuration with the highest maximum rate.
pub open spec fn is_highest_choice(cs: Seq<OutputConfigRange>, i: int) -> bool {
    &&& 0 <= i < cs.len()
    &&& forall|j: int| 0 <= j < cs.len() ==> cs[j].max_rate <= cs[i].max_rate
    &&& forall|j: int| i < j < cs.len() ==> cs[j].max_rate < cs[i].max_rate
}

/// The configuration to open at exactly `rate`: among those whose range holds
/// it, one with the most channels (the last such on ties); none if no range
/// holds the rate.
pub fn exact_rate_config(configs: &Vec<OutputConfigRange>, rate: u32) -> (r: Option<usize>)
    ensures
        match r {
            Some(i) => is_exact_choice(configs@, rate, i as int),
            None => forall|j: int| 0 <= j < configs@.len() ==> !supports_rate(configs@[j], rate),
        },
{
    let mut best: Option<usize> = None;
    let mut i: usize = 0;
    while i < configs.len()
        invariant
            i <= configs@.len(),
            match best {
                Some(b) => is_exact_choice(configs@.subrange(0, i as int), rate, b as int),
                None => forall|j: int| 0 <= j < i ==> !supports_rate(configs@[j], rate),
            },
        decreases configs@.len() - i,
    {
        let c = configs[i];
        if c.min_rate <= rate && rate <= c.max_rate {
            match best {
                Some(b) => {
                    if configs[b].channels <= c.channels {
                        best = Some(i);
                    }
                },
                None => {
                    best = Some(i);
                },
            }
        }
        proof {
            let s = configs@.subrange(0, i + 1);
            assert(forall|j: int| 0 <= j < i ==> s[j] == configs@.subrange(0, i as int)[j]);
        }
        i = i + 1;
    }
    assert(configs@.subrange(0, configs@.len() as int) =~= configs@);
    best
}

/// The configuration with the highest maximum rate (the last such on ties);
/// none for an empty list.
pub fn highest_rate_config(configs: &Vec<OutputConfigRange>) -> (r: Option<usize>)
    ensures
        match r {
            Some(i) => is_highest_choice(configs@, i as int),
            None => configs@.len() == 0,
        },
{
    if configs.len() == 0 {
        return None;
    }
    let mut best: usize = 0;
    let mut i: usize = 1;
    while i < configs.len()
        invariant
            1 <= i <= configs@.len(),
            is_highest_choice(configs@.subrange(0, i as int), best as int),
        decreases configs@.len() - i,
    {
        if configs[best].max_rate <= configs[i].max_rate {
            best = i;
        }
        proof {
            let s = configs@.subrange(0, i + 1);
            assert(forall|j: int| 0 <= j < i ==> s[j] == configs@.subrange(0, i as int)[j]);
        }
        i = i + 1;
    }
    assert(configs@.subrange(0, configs@.len() as int) =~= configs@);
    Some(best)
}

/// At most one configuration is the exact-rate choice.
proof fn lemma_exact_choice_unique(cs: Seq<OutputConfigRange>, rate: u32, i: int, j: int)
    requires
        is_exact_choice(cs, rate, i),
        is_exact_choice(cs, rate, j),
    ensures
        i == j,
{
    if i < j {
        assert(cs[j].channels < cs[i].channels);
        assert(cs[i].channels <= cs[j].channels);
    } else if j < i {
        assert(cs[i].channels < cs[j].channels);
        assert(cs[j].channels <= cs[i].channels);
    }
}

/// At most one configuration is the highest-rate choice.
proof fn lemma_highest_choice_unique(cs: Seq<OutputConfigRange>, i: int, j: int)
    requires
        is_highest_choice(cs, i),
        is_highest_choice(cs, j),
    ensures
        i == j,
{
    if i < j {
        assert(cs[j].max_rate < cs[i].max_rate);
        assert(cs[i].max_rate <= cs[j].max_rate);
    } else if j < i {
        assert(cs[i].max_rate < cs[j].max_rate);
        assert(cs[j].max_rate <= cs[i].max_rate);
    }
}

/// The exact-rate choice, if any configuration holds the rate.
pub open spec fn exact_choice(cs: Seq<OutputConfigRange>, rate: u32) -> Option<int> {
    if exists|i: int| is_exact_choice(cs, rate, i) {
        Some(choose|i: int| is_exact_choice(cs, rate, i))
    } else {
        None
    }
}

/// The highest-rate choice, if there is any configuration.
pub open spec fn highest_choice(cs: Seq<OutputConfigRange>) -> Option<int> {
    if exists|i: int| is_highest_choice(cs, i) {
        Some(choose|i: int| is_highest_choice(cs, i))
    } else {
        None
    }
}

/// One way of opening the output stream.
#[derive(Clone, Copy, Debug, PartialEq, Eq, Structural)]
pub enum OpenAttempt {
    /// The device's configuration at this index, run at this rate.
    Config { index: usize, rate: u32 },
    /// The device with its default configuration.
    DeviceDefault,
    /// The system's default device (the last resort).
    SystemDefault,
}

/// The ways to try, in order, when opening a device at `desired` Hz (0 =
/// device default) whose configuration ranges are `configs` (`None` when
/// they cannot be listed): an exact-rate configuration, then the one with
/// the highest rate, then the device default, then the system default.
pub open spec fn open_attempts_spec(desired: u32, configs: Option<Seq<OutputConfigRange>>) -> Seq<OpenAttempt> {
    let tries: Seq<OpenAttempt> = if desired > 0 {
        match configs {
            Some(cs) => (match exact_choice(cs, desired) {
                Some(i) => seq![OpenAttempt::Config { index: i as usize, rate: desired }],
                None => Seq::empty(),
            }) + (match highest_choice(cs) {
                Some(i) => seq![OpenAttempt::Config { index: i as usize, rate: cs[i].max_rate }],
                None => Seq::empty(),
            }),
            None => Seq::empty(),
        }
    } else {
        Seq::empty()
    };
    tries + seq![OpenAttempt::DeviceDefault, OpenAttempt::SystemDefault]
}

/// The order in which an output stream is opened; the first attempt that
/// succeeds gives the stream and its rate.
pub fn open_attempts(desired_rate: u32, configs: &Option<Vec<OutputConfigRange>>) -> (r: Vec<OpenAttempt>)
    ensures
        r@ == open_attempts_spec(
            desired_rate,
            match configs {
                Some(cs) => Some(cs@),
                None => None,
            },
        ),
{
    let mut v: Vec<OpenAttempt> = Vec::new();
    if desired_rate > 0 {
        match configs {
            Some(cs) => {
                match exact_rate_config(cs, desired_rate) {
                    Some(i) => {
                        proof {
                            let c = choose|k: int| is_exact_choice(cs@, desired_rate, k);
                            lemma_exact_choice_unique(cs@, desired_rate, i as int, c);
                        }
                        v.push(OpenAttempt::Config { index: i, rate: desired_rate });
                    },
                    None => {
                        assert(!exists|k: int| is_exact_choice(cs@, desired_rate, k));
                    },
                }
                match highest_rate_config(cs) {
                    Some(i) => {
                        proof {
                            let c = choose|k: int| is_highest_choice(cs@, k);
                            lemma_highest_choice_unique(cs@, i as int, c);
                        }
                        v.push(OpenAttempt::Config { index: i, rate: cs[i].max_rate });
                    },
                    None => {
                        assert(!exists|k: int| is_highest_choice(cs@, k));
                    },
                }
            },
            None => {},
        }
    }
    let ghost tries = v@;
    v.push(OpenAttempt::DeviceDefault);
    v.push(OpenAttempt::SystemDefault);
    assert(v@ =~= tries + seq![OpenAttempt::DeviceDefault, OpenAttempt::SystemDefault]);
    v
}

/// Index of the first device whose name is `name`; devices whose name could
/// not be read are `None` and never match.
pub open spec fn first_named(names: Seq<Option<String>>, name: Seq<char>) -> Option<int>
    decreases names.len(),
{
    if names.len() == 0 {
        None
    } else {
        match first_named(names.drop_last(), name) {
            Some(i) => Some(i),
            None => match names.last() {
                Some(n) => if n@ == name {
                    Some(names.len() - 1)
                } else {
                    None
                },
                None => None,
            },
        }
    }
}

fn find_named(names: &Vec<Option<String>>, name: &str) -> (r: Option<usize>)
    ensures
        match r {
            Some(i) => first_named(names@, name@) == Some(i as int),
            None => first_named(names@, name@) is None,
        },
{
    let target = chars_of(name);
    let mut i: usize = 0;
    while i < names.len()
        invariant
            i <= names@.len(),
            target@ == name@,
            first_named(names@.subrange(0, i as int), name@) is None,
        decreases names@.len() - i,
    {
        proof {
            let s = names@.subrange(0, i + 1);
            assert(s.drop_last() =~= names@.subrange(0, i as int));
        }
        match &names[i] {
            Some(n) => {
                let nv = chars_of(n.as_str());
                if chars_eq(&nv, &target) {
                    proof {
                        lemma_first_named_prefix(names@, name@, i + 1);
                    }
                    return Some(i);
                }
            },
            None => {},
        }
        i = i + 1;
    }
    assert(names@.subrange(0, names@.len() as int) =~= names@);
    None
}

proof fn lemma_first_named_prefix(names: Seq<Option<String>>, name: Seq<char>, n: int)
    requires
        0 <= n <= names.len(),
        first_named(names.subrange(0, n), name) is Some,
    ensures
        first_named(names, name) == first_named(names.subrange(0, n), name),
    decreases names.len() - n,
{
    if n < names.len() {
        let s = names.subrange(0, n + 1);
        assert(s.drop_last() =~= names.subrange(0, n));
        lemma_first_named_prefix(names, name, n + 1);
    } else {
        assert(names.subrange(0, n) =~= names);
    }
}

/// Which device to open.
#[derive(Clone, Copy, Debug, PartialEq, Eq, Structural)]
pub enum DeviceChoice {
    /// The enumerated device at this index.
    Listed(usize),
    /// The host's default output device.
    SystemDefault,
}

/// The device an output stream opens: the requested name if it is listed,
/// else on Linux a device named "pipewire", then one named "pulse", else the
/// system default.
pub open spec fn device_choice_spec(names: Seq<Option<String>>, requested: Option<Seq<char>>, linux: bool) -> DeviceChoice {
    let by_request = match requested {
        Some(n) => first_named(names, n),
        None => None,
    };
    match by_request {
        Some(i) => DeviceChoice::Listed(i as usize),
        None => if linux {
            match first_named(names, "pipewire"@) {
                Some(i) => DeviceChoice::Listed(i as usize),
                None => match first_named(names, "pulse"@) {
                    Some(i) => DeviceChoice::Listed(i as usize),
                    None => DeviceChoice::SystemDefault,
                },
            }
        } else {
            DeviceChoice::SystemDefault
        },
    }
}

/// Whether an enumerated device name is `name` (an unreadable name never is).
pub open spec fn named(o: Option<String>, name: Seq<char>) -> bool {
    o matches Some(x) && x@ == name
}

proof fn lemma_first_named(names: Seq<Option<String>>, name: Seq<char>)
    ensures
        match first_named(names, name) {
            Some(i) => 0 <= i < names.len() && named(names[i], name) && forall|j: int|
                0 <= j < i ==> !named(#[trigger] names[j], name),
            None => forall|j: int| 0 <= j < names.len() ==> !named(#[trigger] names[j], name),
        },
    decreases names.len(),
{
    if names.len() > 0 {
        let d = names.drop_last();
        lemma_first_named(d, name);
        assert forall|j: int| 0 <= j < d.len() implies d[j] == names[j] by {}
    }
}

/// A requested device that is listed is always the one opened, on every
/// platform: the choice is the first listed device of that name.
pub proof fn requested_listed_device_is_chosen(names: Seq<Option<String>>, name: Seq<char>, i: int, linux: bool)
    requires
        0 <= i < names.len(),
        named(names[i], name),
        forall|j: int| 0 <= j < i ==> !named(#[trigger] names[j], name),
    ensures
        device_choice_spec(names, Some(name), linux) == DeviceChoice::Listed(i as usize),
{
    lemma_first_named(names, name);
    match first_named(names, name) {
        Some(p) => {
            if p < i {
                assert(!named(names[p], name));
            }
            if p > i {
                assert(!named(names[i], name));
            }
        },
        None => {
            assert(!named(names[i], name));
        },
    }
}

/// Off Linux, a requested device that is not listed (or no request) falls
/// back to the system default.
pub proof fn unlisted_request_off_linux_is_default(names: Seq<Option<String>>, requested: Option<Seq<char>>)
    requires
        requested matches Some(n) ==> forall|j: int| 0 <= j < names.len() ==> !named(#[trigger] names[j], n),
    ensures
        device_choice_spec(names, requested, false) == DeviceChoice::SystemDefault,
{
    match requested {
        Some(n) => {
            lemma_first_named(names, n);
            if let Some(p) = first_named(names, n) {
                assert(named(names[p], n));
            }
        },
        None => {},
    }
}

/// Resolve the output device among the enumerated `names`.
pub fn resolve_output_device(names: &Vec<Option<String>>, requested: Option<&str>, linux: bool) -> (r:
    DeviceChoice)
    ensures
        r == device_choice_spec(
            names@,
            match requested {
                Some(n) => Some(n@),
                None => None,
            },
            linux,
        ),
{
    let by_request = match requested {
        Some(n) => find_named(names, n),
        None => None,
    };
    match by_request {
        Some(i) => DeviceChoice::Listed(i),
        None => {
            if linux {
                match find_named(names, "pipewire") {
                    Some(i) => DeviceChoice::Listed(i),
                    None => match find_named(names, "pulse") {
                        Some(i) => DeviceChoice::Listed(i),
                        None => DeviceChoice::SystemDefault,
                    },
                }
            } else {
                DeviceChoice::SystemDefault
            }
        },
    }
}

/// PipeWire quantum (frames) for a stream at `rate` Hz: doubled above 48 kHz
/// so the wall-clock latency stays near 93 ms.
pub open spec fn quantum_frames_spec(rate: u32) -> u32 {
    if rate > 48000 {
        8192
    } else {
        4096
    }
}

/// Milliseconds of one quantum at `rate`, rounded half away from zero; at
/// rate 0 the quotient is infinite and saturates.
pub open spec fn quantum_ms_spec(rate: u32) -> u64 {
    if rate == 0 {
        u64::MAX
    } else {
        ((2 * quantum_frames_spec(rate) * 1000 + rate) / (2 * rate as int)) as u64
    }
}

/// PipeWire quantum for a stream at `rate` Hz.
pub fn quantum_frames(rate: u32) -> (r: u32)
    ensures
        r == quantum_frames_spec(rate),
{
    if rate > 48000 {
        8192
    } else {
        4096
    }
}

/// The `PIPEWIRE_LATENCY` hint (`frames/rate`) and the `PULSE_LATENCY_MSEC`
/// hint (the same quantum in milliseconds) for a stream reopened at `rate`.
pub fn latency_hints(rate: u32) -> (r: (String, String))
    ensures
        r.0@ == dec_seq(quantum_frames_spec(rate) as nat) + "/"@ + dec_seq(rate as nat),
        r.1@ == dec_seq(quantum_ms_spec(rate) as nat),
{
    let frames = quantum_frames(rate);
    let mut pw: Vec<char> = Vec::new();
    push_dec(frames as u64, &mut pw);
    push_str(&mut pw, "/");
    push_dec(rate as u64, &mut pw);
    let ms: u64 = if rate == 0 {
        u64::MAX
    } else {
        let num: u64 = 2 * (frames as u64) * 1000 + rate as u64;
        let den: u64 = 2 * (rate as u64);
        num / den
    };
    let mut pu: Vec<char> = Vec::new();
    push_dec(ms, &mut pu);
    (string_of(&pw), string_of(&pu))
}

/// What the device watcher does after a poll.
#[derive(Clone, Copy, Debug, PartialEq, Eq, Structural)]
pub enum WatchAction {
    /// Nothing changed that needs a reopen.
    Idle,
    /// The pinned device is gone: clear the pin, reopen on the system
    /// default, and report a device reset.
    FallBackToDefault,
    /// The system default changed: reopen on it and report a device change.
    FollowNewDefault,
}

/// An optional string as an optional sequence of characters.
pub open spec fn opt_view(o: Option<String>) -> Option<Seq<char>> {
    match o {
        Some(s) => Some(s@),
        None => None,
    }
}

pub open spec fn includes_pinned(available: Seq<String>, pinned: Seq<char>, linux: bool) -> bool {
    exists|i: int| 0 <= i < available.len() && logically_same_spec(available[i]@, pinned, linux)
}

/// One poll of the watcher: state is the last default device seen and the
/// consecutive polls a pinned device was missing. An empty list is taken as
/// a failed enumeration; on Linux a pinned device is never presumed gone.
pub open spec fn watch_step(
    last_default: Option<Seq<char>>,
    misses: nat,
    linux: bool,
    current_default: Option<Seq<char>>,
    available: Seq<String>,
    pinned: Option<Seq<char>>,
) -> (Option<Seq<char>>, nat, WatchAction) {
    if available.len() == 0 {
        (last_default, misses, WatchAction::Idle)
    } else {
        match pinned {
            Some(p) => if linux {
                (last_default, misses, WatchAction::Idle)
            } else if includes_pinned(available, p, linux) {
                (last_default, 0, WatchAction::Idle)
            } else if misses + 1 < PINNED_MISS_LIMIT {
                (last_default, misses + 1, WatchAction::Idle)
            } else {
                (current_default, 0, WatchAction::FallBackToDefault)
            },
            None => if current_default == last_default {
                (last_default, misses, WatchAction::Idle)
            } else if current_default is None {
                (current_default, misses, WatchAction::Idle)
            } else {
                (current_default, misses, WatchAction::FollowNewDefault)
            },
        }
    }
}

/// State the device watcher keeps between polls.
pub struct DeviceWatch {
    last_default: Option<String>,
    pinned_misses: u32,
}

impl DeviceWatch {
    pub closed spec fn last_default(&self) -> Option<Seq<char>> {
        opt_view(self.last_default)
    }

    pub closed spec fn misses(&self) -> nat {
        self.pinned_misses as nat
    }

    pub open spec fn wf(&self) -> bool {
        self.misses() < PINNED_MISS_LIMIT
    }

    /// Start watching with the default device seen at startup.
    pub fn new(initial_default: Option<String>) -> (r: Self)
        ensures
            r.wf(),
            r.last_default() == opt_view(initial_default),
            r.misses() == 0,
    {
        DeviceWatch { last_default: initial_default, pinned_misses: 0 }
    }

    /// React to one poll: the current default device, the enumerated output
    /// devices, and the pinned device if any.
    pub fn poll(
        &mut self,
        linux: bool,
        current_default: Option<String>,
        available: &[String],
        pinned: &Option<String>,
    ) -> (r: WatchAction)
        requires
            old(self).wf(),
        ensures
            final(self).wf(),
            (final(self).last_default(), final(self).misses(), r) == watch_step(
                old(self).last_default(),
                old(self).misses(),
                linux,
                opt_view(current_default),
                available@,
                opt_view(*pinned),
            ),
    {
        if available.len() == 0 {
            return WatchAction::Idle;
        }
        match pinned {
            Some(p) => {
                if linux {
                    return WatchAction::Idle;
                }
                if output_enumeration_includes_pinned(available, p.as_str(), linux) {
                    self.pinned_misses = 0;
                    return WatchAction::Idle;
                }
                if self.pinned_misses + 1 < PINNED_MISS_LIMIT {
                    self.pinned_misses = self.pinned_misses + 1;
                    return WatchAction::Idle;
                }
                self.pinned_misses = 0;
                self.last_default = current_default;
                WatchAction::FallBackToDefault
            },
            None => {
                let same = match (&current_default, &self.last_default) {
                    (Some(a), Some(b)) => {
                        let av = chars_of(a.as_str());
                        let bv = chars_of(b.as_str());
                        chars_eq(&av, &bv)
                    },
                    (None, None) => true,
                    _ => false,
                };
                if same {
                    return WatchAction::Idle;
                }
                let is_some = current_default.is_some();
                self.last_default = current_default;
                if is_some {
                    WatchAction::FollowNewDefault
                } else {
                    WatchAction::Idle
                }
            },
        }
    }
}

/// A pinned device that vanished from a (non-empty) listing is given up only
/// on the third poll in a row that misses it: the first two misses leave
/// everything as it was, the third falls back to the system default, and
/// any poll that lists it again clears the count.
pub proof fn pinned_device_needs_three_misses(
    last_default: Option<Seq<char>>,
    current_default: Option<Seq<char>>,
    available: Seq<String>,
    pinned: Seq<char>,
)
    requires
        available.len() > 0,
        !includes_pinned(available, pinned, false),
    ensures
        ({
            let s1 = watch_step(last_default, 0, false, current_default, available, Some(pinned));
            let s2 = watch_step(s1.0, s1.1, false, current_default, available, Some(pinned));
            let s3 = watch_step(s2.0, s2.1, false, current_default, available, Some(pinned));
            &&& s1.2 == WatchAction::Idle
            &&& s2.2 == WatchAction::Idle
            &&& s3.2 == WatchAction::FallBackToDefault
            &&& s3.0 == current_default
            &&& s3.1 == 0
        }),
        forall|m: nat, other: Seq<String>|
            #![trigger watch_step(last_default, m, false, current_default, other, Some(pinned))]
            other.len() > 0 && includes_pinned(other, pinned, false) ==> watch_step(
                last_default,
                m,
                false,
                current_default,
                other,
                Some(pinned),
            ) == (last_default, 0nat, WatchAction::Idle),
{
}

} // verus!

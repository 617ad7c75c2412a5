//! Output-device naming: recognising the same physical ALSA sink under
//! different cpal names, choosing a stream configuration, and the
//! default-device watcher's decisions.
use vstd::prelude::*;

use crate::text::{
    ascii_lower_seq, chars_eq, chars_of, find_chars, find_from, lemma_find_from,
    lower_ascii_chars, occurs_at, slice_chars, string_of,
};

verus! {

// ---------------------------------------------------------------------------
// ALSA sink fingerprints
// ---------------------------------------------------------------------------

/// `s.split(pat).nth(1)`: the text after the first `pat`, up to the next
/// `pat` or the end.
pub open spec fn split_second(s: Seq<char>, pat: Seq<char>) -> Option<Seq<char>> {
    match find_from(s, pat, 0) {
        None => None,
        Some(p) => {
            let rest = s.subrange(p + pat.len(), s.len() as int);
            let e = match find_from(rest, pat, 0) {
                Some(e) => e,
                None => rest.len() as int,
            };
            Some(rest.subrange(0, e))
        },
    }
}

/// `s.split(',').next()`: the text before the first comma.
pub open spec fn before_comma(s: Seq<char>) -> Seq<char> {
    match find_from(s, seq![','], 0) {
        Some(e) => s.subrange(0, e),
        None => s,
    }
}

/// Decimal digit character.
pub open spec fn is_dec_digit(c: char) -> bool {
    '0' <= c && c <= '9'
}

/// Every character is a decimal digit.
pub open spec fn all_dec_digits(d: Seq<char>) -> bool {
    forall|k: int| 0 <= k < d.len() ==> is_dec_digit(d[k])
}

/// The text after an optional leading `+`.
pub open spec fn unsigned_digits(s: Seq<char>) -> Seq<char> {
    if s.len() > 0 && s[0] == '+' {
        s.drop_first()
    } else {
        s
    }
}

/// Value of a sequence of decimal digits.
pub open spec fn dec_value(s: Seq<char>) -> nat
    decreases s.len(),
{
    if s.len() == 0 {
        0
    } else {
        dec_value(s.drop_last()) * 10 + ((s.last() as u32) - ('0' as u32)) as nat
    }
}

/// `str::parse::<u32>().ok()`: an optional `+`, then at least one decimal
/// digit, and a value that fits.
pub open spec fn parse_u32_spec(s: Seq<char>) -> Option<u32> {
    let d = unsigned_digits(s);
    if d.len() == 0 || !all_dec_digits(d) || dec_value(d) > u32::MAX {
        None
    } else {
        Some(dec_value(d) as u32)
    }
}

proof fn lemma_dec_prefix_monotone(s: Seq<char>, i: int, j: int)
    requires
        0 <= i <= j <= s.len(),
        forall|k: int| 0 <= k < s.len() ==> is_dec_digit(s[k]),
    ensures
        dec_value(s.subrange(0, i)) <= dec_value(s.subrange(0, j)),
    decreases j - i,
{
    if i < j {
        lemma_dec_prefix_monotone(s, i, j - 1);
        assert(s.subrange(0, j).drop_last() =~= s.subrange(0, j - 1));
    }
}

/// `str::parse::<u32>().ok()` on a character vector.
pub fn parse_u32(s: &Vec<char>) -> (r: Option<u32>)
    ensures
        r == parse_u32_spec(s@),
{
    let start: usize = if s.len() > 0 && s[0] == '+' {
        1
    } else {
        0
    };
    let d = slice_chars(s, start, s.len());
    proof {
        if start == 1 {
            assert(d@ =~= s@.drop_first());
        } else {
            assert(d@ =~= s@);
        }
        assert(d@ == unsigned_digits(s@));
    }
    if d.len() == 0 {
        return None;
    }
    let mut k: usize = 0;
    while k < d.len()
        invariant
            d@ == unsigned_digits(s@),
            k <= d@.len(),
            forall|j: int| 0 <= j < k ==> is_dec_digit(d@[j]),
        decreases d@.len() - k,
    {
        if !('0' <= d[k] && d[k] <= '9') {
            assert(!is_dec_digit(d@[k as int]));
            assert(!all_dec_digits(d@));
            return None;
        }
        k += 1;
    }
    let mut acc: u64 = 0;
    let mut i: usize = 0;
    assert(d@.subrange(0, 0) =~= Seq::<char>::empty());
    while i < d.len()
        invariant
            d@ == unsigned_digits(s@),
            d@.len() > 0,
            i <= d@.len(),
            forall|j: int| 0 <= j < d@.len() ==> is_dec_digit(d@[j]),
            acc == dec_value(d@.subrange(0, i as int)),
            acc <= u32::MAX,
        decreases d@.len() - i,
    {
        let c = d[i];
        let dig: u64 = ((c as u32) - ('0' as u32)) as u64;
        assert(d@.subrange(0, i + 1).drop_last() =~= d@.subrange(0, i as int));
        let next = acc * 10 + dig;
        assert(d@.subrange(0, i + 1).last() == c);
        assert(dec_value(d@.subrange(0, i + 1)) == next);
        if next > 0xffff_ffffu64 {
            proof {
                lemma_dec_prefix_monotone(d@, i + 1, d@.len() as int);
                assert(d@.subrange(0, d@.len() as int) =~= d@);
                assert(dec_value(d@) > u32::MAX);
            }
            return None;
        }
        acc = next;
        i += 1;
    }
    assert(d@.subrange(0, d@.len() as int) =~= d@);
    Some(acc as u32)
}

/// The ALSA interface prefixes that name a physical sink.
pub open spec fn is_alsa_iface(s: Seq<char>) -> bool {
    ||| s == "hdmi"@
    ||| s == "hw"@
    ||| s == "plughw"@
    ||| s == "sysdefault"@
    ||| s == "iec958"@
    ||| s == "front"@
    ||| s == "dmix"@
    ||| s == "surround40"@
    ||| s == "surround51"@
    ||| s == "surround71"@
}

/// `(interface, card, device)` of a Linux ALSA-style cpal name such as
/// `hw:CARD=PCH,DEV=3`: the lowercased text before the first `:` (one of
/// the known interfaces), the `CARD=` value, and the `DEV=` value (0 when
/// absent or not a number). `None` when there is no `:`, the interface is
/// unknown, or there is no `CARD=`.
pub open spec fn alsa_fingerprint_spec(name: Seq<char>) -> Option<(Seq<char>, Seq<char>, u32)> {
    match find_from(name, seq![':'], 0) {
        None => None,
        Some(colon) => {
            let iface = ascii_lower_seq(name.subrange(0, colon));
            if !is_alsa_iface(iface) {
                None
            } else {
                match split_second(name, "CARD="@) {
                    None => None,
                    Some(piece) => {
                        let dev = match split_second(name, "DEV="@) {
                            Some(p) => match parse_u32_spec(before_comma(p)) {
                                Some(v) => v,
                                None => 0,
                            },
                            None => 0,
                        };
                        Some((iface, before_comma(piece), dev))
                    },
                }
            }
        },
    }
}

fn split_second_exec(s: &Vec<char>, pat: &Vec<char>) -> (r: Option<Vec<char>>)
    ensures
        match r {
            Some(v) => split_second(s@, pat@) == Some(v@),
            None => split_second(s@, pat@) is None,
        },
{
    proof {
        lemma_find_from(s@, pat@, 0);
    }
    let slen = s.len();
    let plen = pat.len();
    match find_chars(s, pat, 0) {
        None => None,
        Some(p) => {
            assert(p + plen <= slen);
            let rest = slice_chars(s, p + plen, slen);
            proof {
                lemma_find_from(rest@, pat@, 0);
            }
            let e = match find_chars(&rest, pat, 0) {
                Some(e) => e,
                None => rest.len(),
            };
            Some(slice_chars(&rest, 0, e))
        },
    }
}

fn before_comma_exec(s: &Vec<char>) -> (r: Vec<char>)
    ensures
        r@ == before_comma(s@),
{
    let comma = vec![','];
    assert(comma@ == seq![',']);
    proof {
        lemma_find_from(s@, seq![','], 0);
    }
    match find_chars(s, &comma, 0) {
        Some(e) => slice_chars(s, 0, e),
        None => s.clone(),
    }
}

fn is_alsa_iface_exec(s: &Vec<char>) -> (b: bool)
    ensures
        b == is_alsa_iface(s@),
{
    let c0 = chars_of("hdmi");
    let c1 = chars_of("hw");
    let c2 = chars_of("plughw");
    let c3 = chars_of("sysdefault");
    let c4 = chars_of("iec958");
    let c5 = chars_of("front");
    let c6 = chars_of("dmix");
    let c7 = chars_of("surround40");
    let c8 = chars_of("surround51");
    let c9 = chars_of("surround71");
    chars_eq(s, &c0) || chars_eq(s, &c1) || chars_eq(s, &c2) || chars_eq(s, &c3) || chars_eq(s, &c4)
        || chars_eq(s, &c5) || chars_eq(s, &c6) || chars_eq(s, &c7) || chars_eq(s, &c8)
        || chars_eq(s, &c9)
}

/// The fingerprint on the given platform: ALSA names exist only on Linux,
/// so elsewhere there is none.
pub open spec fn sink_fingerprint_spec(name: Seq<char>, linux: bool) -> Option<(Seq<char>, Seq<char>, u32)> {
    if linux {
        alsa_fingerprint_spec(name)
    } else {
        None
    }
}

/// Linux ALSA-style cpal names: the same physical sink can appear with
/// different suffixes; this is the part that identifies it. Off Linux
/// (`linux == false`) there is never a fingerprint.
pub fn linux_alsa_sink_fingerprint(name: &str, linux: bool) -> (r: Option<(String, String, u32)>)
    ensures
        match r {
            Some((i, c, d)) => sink_fingerprint_spec(name@, linux) == Some((i@, c@, d)),
            None => sink_fingerprint_spec(name@, linux) is None,
        },
{
    if !linux {
        return None;
    }
    let n = chars_of(name);
    let colon_pat = vec![':'];
    assert(colon_pat@ == seq![':']);
    proof {
        lemma_find_from(n@, seq![':'], 0);
    }
    let colon = match find_chars(&n, &colon_pat, 0) {
        Some(c) => c,
        None => return None,
    };
    let head = slice_chars(&n, 0, colon);
    let iface = lower_ascii_chars(&head);
    if !is_alsa_iface_exec(&iface) {
        return None;
    }
    let card_pat = chars_of("CARD=");
    let piece = match split_second_exec(&n, &card_pat) {
        Some(p) => p,
        None => return None,
    };
    let card = before_comma_exec(&piece);
    let dev_pat = chars_of("DEV=");
    let dev: u32 = match split_second_exec(&n, &dev_pat) {
        Some(p) => {
            let digits = before_comma_exec(&p);
            match parse_u32(&digits) {
                Some(v) => v,
                None => 0,
            }
        },
        None => 0,
    };
    Some((string_of(iface.as_slice()), string_of(card.as_slice()), dev))
}

/// Two cpal output names denote the same sink: equal names, or (on Linux)
/// equal ALSA fingerprints.
pub open spec fn logically_same_spec(a: Seq<char>, b: Seq<char>, linux: bool) -> bool {
    a == b || match (sink_fingerprint_spec(a, linux), sink_fingerprint_spec(b, linux)) {
        (Some(fa), Some(fb)) => fa == fb,
        _ => false,
    }
}

/// Whether two output device names denote the same physical sink on the
/// given platform.
pub fn output_devices_logically_same(a: &str, b: &str, linux: bool) -> (r: bool)
    ensures
        r == logically_same_spec(a@, b@, linux),
{
    let av = chars_of(a);
    let bv = chars_of(b);
    if chars_eq(&av, &bv) {
        return true;
    }
    match (linux_alsa_sink_fingerprint(a, linux), linux_alsa_sink_fingerprint(b, linux)) {
        (Some((ia, ca, da)), Some((ib, cb, db))) => {
            let iav = chars_of(ia.as_str());
            let ibv = chars_of(ib.as_str());
            let cav = chars_of(ca.as_str());
            let cbv = chars_of(cb.as_str());
            chars_eq(&iav, &ibv) && chars_eq(&cav, &cbv) && da == db
        },
        _ => false,
    }
}

/// "Same sink" is an equivalence: every name denotes the same sink as
/// itself, the relation is symmetric, and it is transitive.
pub proof fn output_devices_same_is_equivalence(a: Seq<char>, b: Seq<char>, c: Seq<char>, linux: bool)
    ensures
        logically_same_spec(a, a, linux),
        logically_same_spec(a, b, linux) == logically_same_spec(b, a, linux),
        logically_same_spec(a, b, linux) && logically_same_spec(b, c, linux) ==> logically_same_spec(
            a,
            c,
            linux,
        ),
        !linux ==> (logically_same_spec(a, b, linux) <==> a == b),
{
}

/// Two different names denote the same sink only on Linux and only when
/// their whole ALSA fingerprints (interface, card and device number) are
/// equal; in particular names whose device numbers differ, such as two
/// HDMI ports of one card, are never the same sink.
pub proof fn distinct_names_same_sink_by_whole_fingerprint(a: Seq<char>, b: Seq<char>, linux: bool)
    ensures
        a != b && logically_same_spec(a, b, linux) ==> linux && alsa_fingerprint_spec(a) is Some
            && alsa_fingerprint_spec(a) == alsa_fingerprint_spec(b),
        a != b && (alsa_fingerprint_spec(a) matches Some(fa) && alsa_fingerprint_spec(b) matches Some(
            fb,
        ) && (fa.0 != fb.0 || fa.1 != fb.1 || fa.2 != fb.2)) ==> !logically_same_spec(a, b, linux),
{
}

proof fn lemma_first_at<T>(s: Seq<T>, needle: Seq<T>, p: int)
    requires
        occurs_at(s, needle, p),
        forall|k: int| 0 <= k < p ==> !occurs_at(s, needle, k),
    ensures
        find_from(s, needle, 0) == Some(p),
{
    lemma_find_from(s, needle, 0);
    match find_from(s, needle, 0) {
        Some(q) => {
            if q > p {
                assert(!occurs_at(s, needle, p));
            }
        },
        None => {
            assert(!occurs_at(s, needle, p));
        },
    }
}

proof fn lemma_absent<T>(s: Seq<T>, needle: Seq<T>)
    requires
        forall|k: int| 0 <= k ==> !occurs_at(s, needle, k),
    ensures
        find_from(s, needle, 0) is None,
{
    lemma_find_from(s, needle, 0);
    if let Some(q) = find_from(s, needle, 0) {
        assert(occurs_at(s, needle, q));
    }
}

/// The fingerprint reads the interface, the card and the device number of
/// a name of the form `{iface}:CARD={card},DEV={n}`: for a known interface
/// (written in lower case), a card name without `,` or `=`, and a decimal
/// device number that fits in a `u32`, the fingerprint is exactly
/// `(iface, card, n)`. So names that differ in any of the three differ in
/// their fingerprints.
pub proof fn alsa_fingerprint_reads_card_and_device(iface: Seq<char>, card: Seq<char>, digits: Seq<char>)
    requires
        is_alsa_iface(iface),
        forall|k: int| 0 <= k < iface.len() ==> ('a' <= #[trigger] iface[k] && iface[k] <= 'z') || (
        '0' <= iface[k] && iface[k] <= '9'),
        forall|k: int| 0 <= k < card.len() ==> #[trigger] card[k] != ',' && card[k] != '=',
        digits.len() > 0,
        all_dec_digits(digits),
        dec_value(digits) <= u32::MAX,
    ensures
        alsa_fingerprint_spec(iface + ":CARD="@ + card + ",DEV="@ + digits) == Some(
            (iface, card, dec_value(digits) as u32),
        ),
{
    reveal_strlit(":CARD=");
    reveal_strlit(",DEV=");
    reveal_strlit("CARD=");
    reveal_strlit("DEV=");
    let l = iface.len() as int;
    let c = card.len() as int;
    let name = iface + ":CARD="@ + card + ",DEV="@ + digits;
    assert forall|k: int| 0 <= k < l implies name[k] == iface[k] by {}
    assert(name[l] == ':');
    assert(name[l + 1] == 'C');
    assert(name[l + 2] == 'A');
    assert(name[l + 5] == '=');
    assert forall|k: int| 0 <= k < c implies name[l + 6 + k] == card[k] by {}
    assert(name[l + 6 + c] == ',');
    assert(name[l + 7 + c] == 'D');
    assert(name[l + 10 + c] == '=');
    assert forall|k: int| 0 <= k < digits.len() implies name[l + 11 + c + k] == digits[k] by {}
    // The colon ends the interface.
    let colon = seq![':'];
    assert(name.subrange(l, l + 1) =~= colon);
    assert forall|k: int| 0 <= k < l implies !occurs_at(name, colon, k) by {
        assert(name.subrange(k, k + 1)[0] == name[k]);
    }
    lemma_first_at(name, colon, l);
    assert(name.subrange(0, l) =~= iface);
    assert(ascii_lower_seq(iface) =~= iface);
    // `CARD=` first occurs right after the colon, and not again.
    let card_tag = "CARD="@;
    assert(name.subrange(l + 1, l + 6) =~= card_tag);
    assert forall|k: int| 0 <= k < l + 1 implies !occurs_at(name, card_tag, k) by {
        if occurs_at(name, card_tag, k) {
            assert(name.subrange(k, k + 5)[4] == name[k + 4]);
        }
    }
    lemma_first_at(name, card_tag, l + 1);
    let rest = name.subrange(l + 6, name.len() as int);
    assert(rest =~= card + ",DEV="@ + digits);
    assert forall|k: int| 0 <= k implies !occurs_at(rest, card_tag, k) by {
        if occurs_at(rest, card_tag, k) {
            assert(rest.subrange(k, k + 5)[4] == rest[k + 4]);
            assert(rest.subrange(k, k + 5)[0] == rest[k]);
            if k + 4 < c {
                assert(rest[k + 4] == card[k + 4]);
            } else if k + 4 == c + 4 {
                assert(rest[k] == ',');
            } else if k + 4 > c + 4 {
                assert(rest[k + 4] == digits[k + 4 - c - 5]);
            } else {
                assert(rest[k + 4] == (",DEV="@)[k + 4 - c]);
            }
        }
    }
    lemma_absent(rest, card_tag);
    assert(split_second(name, card_tag) == Some(rest));
    let comma = seq![','];
    assert(rest.subrange(c, c + 1) =~= comma);
    assert forall|k: int| 0 <= k < c implies !occurs_at(rest, comma, k) by {
        assert(rest.subrange(k, k + 1)[0] == rest[k]);
        assert(rest[k] == card[k]);
    }
    lemma_first_at(rest, comma, c);
    assert(rest.subrange(0, c) =~= card);
    assert(before_comma(rest) == card);
    // `DEV=` first occurs after the comma, and not again.
    let dev_tag = "DEV="@;
    assert(name.subrange(l + 7 + c, l + 11 + c) =~= dev_tag);
    assert forall|k: int| 0 <= k < l + 7 + c implies !occurs_at(name, dev_tag, k) by {
        if occurs_at(name, dev_tag, k) {
            assert(name.subrange(k, k + 4)[3] == name[k + 3]);
            assert(name.subrange(k, k + 4)[0] == name[k]);
            if k + 3 < l {
                assert(name[k + 3] == iface[k + 3]);
            } else if k + 3 == l + 5 {
                assert(name[k] == 'A');
            } else if k + 3 < l + 6 {
                assert(name[k + 3] == (":CARD="@)[k + 3 - l]);
            } else if k + 3 < l + 6 + c {
                assert(name[k + 3] == card[k + 3 - l - 6]);
            } else {
                assert(name[k + 3] == (",DEV="@)[k + 3 - l - 6 - c]);
            }
        }
    }
    lemma_first_at(name, dev_tag, l + 7 + c);
    let rest2 = name.subrange(l + 11 + c, name.len() as int);
    assert(rest2 =~= digits);
    assert forall|k: int| 0 <= k implies !occurs_at(digits, dev_tag, k) by {
        if occurs_at(digits, dev_tag, k) {
            assert(digits.subrange(k, k + 4)[3] == digits[k + 3]);
            assert(is_dec_digit(digits[k + 3]));
        }
    }
    lemma_absent(digits, dev_tag);
    assert(digits.subrange(0, digits.len() as int) =~= digits);
    assert(split_second(name, dev_tag) == Some(digits));
    assert forall|k: int| 0 <= k implies !occurs_at(digits, comma, k) by {
        if occurs_at(digits, comma, k) {
            assert(digits.subrange(k, k + 1)[0] == digits[k]);
            assert(is_dec_digit(digits[k]));
        }
    }
    lemma_absent(digits, comma);
    assert(before_comma(digits) == digits);
    assert(is_dec_digit(digits[0]));
    assert(unsigned_digits(digits) == digits);
}

/// Two ports of one card, `{iface}:CARD={card},DEV={m}` and
/// `{iface}:CARD={card},DEV={n}` with `m != n`, are different sinks on
/// every platform.
pub proof fn different_device_numbers_are_different_sinks(
    iface: Seq<char>,
    card: Seq<char>,
    m: Seq<char>,
    n: Seq<char>,
    linux: bool,
)
    requires
        is_alsa_iface(iface),
        forall|k: int| 0 <= k < iface.len() ==> ('a' <= #[trigger] iface[k] && iface[k] <= 'z') || (
        '0' <= iface[k] && iface[k] <= '9'),
        forall|k: int| 0 <= k < card.len() ==> #[trigger] card[k] != ',' && card[k] != '=',
        m.len() > 0 && all_dec_digits(m) && dec_value(m) <= u32::MAX,
        n.len() > 0 && all_dec_digits(n) && dec_value(n) <= u32::MAX,
        dec_value(m) != dec_value(n),
    ensures
        !logically_same_spec(
            iface + ":CARD="@ + card + ",DEV="@ + m,
            iface + ":CARD="@ + card + ",DEV="@ + n,
            linux,
        ),
{
    let a = iface + ":CARD="@ + card + ",DEV="@ + m;
    let b = iface + ":CARD="@ + card + ",DEV="@ + n;
    alsa_fingerprint_reads_card_and_device(iface, card, m);
    alsa_fingerprint_reads_card_and_device(iface, card, n);
    assert(a != b);
    distinct_names_same_sink_by_whole_fingerprint(a, b, linux);
}

/// True if `pinned` is the same sink as some entry of `available`.
pub fn output_enumeration_includes_pinned(available: &[String], pinned: &str, linux: bool) -> (r: bool)
    ensures
        r == exists|i: int|
            0 <= i < available@.len() && logically_same_spec(available@[i]@, pinned@, linux),
{
    let mut i: usize = 0;
    while i < available.len()
        invariant
            i <= available@.len(),
            forall|j: int| 0 <= j < i ==> !logically_same_spec(available@[j]@, pinned@, linux),
        decreases available@.len() - i,
    {
        if output_devices_logically_same(available[i].as_str(), pinned, linux) {
            return true;
        }
        i += 1;
    }
    false
}

} // verus!

//! Encoder-gap trimming metadata (iTunSMPB).
//!
//! MP3/AAC encoders prepend an encoder delay and append end padding. iTunes
//! embeds the exact counts after the ASCII marker `iTunSMPB` as
//! space-separated hexadecimal numbers: `" 00000000 DELAY PADDING TOTAL ..."`.
use vstd::prelude::*;

use crate::text::{find_from, lemma_find_from, occurs_at};

verus! {

/// Encoder delay and the number of valid samples, as read from iTunSMPB.
#[derive(Debug, PartialEq, Eq)]
pub struct GaplessInfo {
    pub delay_samples: u64,
    pub total_valid_samples: Option<u64>,
}

impl GaplessInfo {
    /// No trimming: zero delay, total unknown.
    pub fn default() -> (r: Self)
        ensures
            r == gapless_default(),
    {
        GaplessInfo { delay_samples: 0, total_valid_samples: None }
    }
}

/// No trimming: zero delay, total unknown.
pub open spec fn gapless_default() -> GaplessInfo {
    GaplessInfo { delay_samples: 0, total_valid_samples: None }
}

/// Position of the first occurrence of `needle` in `data`.
pub fn find_subsequence(data: &[u8], needle: &[u8]) -> (r: Option<usize>)
    requires
        needle@.len() > 0,
    ensures
        match r {
            Some(p) => find_from(data@, needle@, 0) == Some(p as int),
            None => find_from(data@, needle@, 0) is None,
        },
{
    let n = needle.len();
    let len = data.len();
    let mut i: usize = 0;
    while i < len && n <= len - i
        invariant
            n == needle@.len(),
            len == data@.len(),
            n > 0,
            find_from(data@, needle@, 0) == find_from(data@, needle@, i as int),
        decreases len - i,
    {
        let mut k: usize = 0;
        let mut same = true;
        while k < n
            invariant
                i + n <= len,
                n == needle@.len(),
                len == data@.len(),
                k <= n,
                same == forall|j: int| 0 <= j < k ==> data@[i + j] == needle@[j],
            decreases n - k,
        {
            if data[i + k] != needle[k] {
                same = false;
            }
            k += 1;
        }
        proof {
            if same {
                assert(data@.subrange(i as int, i + n) =~= needle@);
            } else {
                if data@.subrange(i as int, i + n) == needle@ {
                    assert forall|j: int| 0 <= j < n implies data@[i + j] == needle@[j] by {
                        assert(data@.subrange(i as int, i + n)[j] == data@[i + j]);
                    }
                }
            }
        }
        if same {
            return Some(i);
        }
        i += 1;
    }
    proof {
        lemma_find_from(data@, needle@, i as int);
    }
    None
}

/// The ASCII marker that introduces the gapless value.
pub open spec fn smpb_tag() -> Seq<u8> {
    seq![0x69u8, 0x54u8, 0x75u8, 0x6eu8, 0x53u8, 0x4du8, 0x50u8, 0x42u8]
}

/// `" 00000000 "`: every iTunSMPB value starts with it.
pub open spec fn smpb_sentinel() -> Seq<u8> {
    seq![0x20u8, 0x30u8, 0x30u8, 0x30u8, 0x30u8, 0x30u8, 0x30u8, 0x30u8, 0x30u8, 0x20u8]
}

/// ASCII hexadecimal digit.
pub open spec fn is_hex_digit(b: u8) -> bool {
    (0x30 <= b && b <= 0x39) || (0x41 <= b && b <= 0x46) || (0x61 <= b && b <= 0x66)
}

/// Value of one hexadecimal digit.
pub open spec fn hex_digit_value(b: u8) -> nat {
    if 0x30 <= b && b <= 0x39 {
        (b - 0x30) as nat
    } else if 0x41 <= b && b <= 0x46 {
        (b - 0x41 + 10) as nat
    } else {
        (b - 0x61 + 10) as nat
    }
}

/// Value of a sequence of hexadecimal digits.
pub open spec fn hex_value(s: Seq<u8>) -> nat
    decreases s.len(),
{
    if s.len() == 0 {
        0
    } else {
        hex_value(s.drop_last()) * 16 + hex_digit_value(s.last())
    }
}

/// `u64::from_str_radix(s, 16).ok()` for `s` made of hexadecimal digits:
/// `None` when empty or when the value does not fit.
pub open spec fn parse_hex_u64(s: Seq<u8>) -> Option<u64> {
    if s.len() == 0 || hex_value(s) > u64::MAX {
        None
    } else {
        Some(hex_value(s) as u64)
    }
}

/// The bytes kept from the value text: hex digits and spaces.
pub open spec fn keep_hex_and_space(s: Seq<u8>) -> Seq<u8> {
    s.filter(|b: u8| is_hex_digit(b) || b == 0x20)
}

/// Index of the first space at or after `i` (or `s.len()`).
pub open spec fn space_at_or_after(s: Seq<u8>, i: int) -> int
    decreases s.len() - i,
{
    if i < 0 || i >= s.len() {
        s.len() as int
    } else if s[i] == 0x20 {
        i
    } else {
        space_at_or_after(s, i + 1)
    }
}

/// The first space at or after `i` is in range, and no space comes before it.
pub proof fn lemma_space_bounds(s: Seq<u8>, i: int)
    requires
        0 <= i <= s.len(),
    ensures
        i <= space_at_or_after(s, i) <= s.len(),
        forall|k: int| i <= k < space_at_or_after(s, i) ==> s[k] != 0x20,
        space_at_or_after(s, i) < s.len() ==> s[space_at_or_after(s, i)] == 0x20,
    decreases s.len() - i,
{
    if i < s.len() && s[i] != 0x20 {
        lemma_space_bounds(s, i + 1);
    }
}

/// The non-empty space-separated words of `s` (`split_whitespace` on text
/// whose only white space is the ASCII space).
pub open spec fn words(s: Seq<u8>) -> Seq<Seq<u8>>
    decreases s.len(),
{
    if s.len() == 0 {
        Seq::empty()
    } else if s[0] == 0x20 {
        words(s.drop_first())
    } else {
        let e = space_at_or_after(s, 0);
        proof {
            lemma_space_bounds(s, 0);
        }
        seq![s.subrange(0, e)] + words(s.subrange(e, s.len() as int))
    }
}

/// What `parse_gapless_info` reads from raw file bytes.
pub open spec fn gapless_spec(data: Seq<u8>) -> GaplessInfo {
    match find_from(data, smpb_tag(), 0) {
        None => gapless_default(),
        Some(pos) => {
            let search_end = if data.len() < pos + 8 + 128 {
                data.len() as int
            } else {
                pos + 8 + 128
            };
            let window = data.subrange(pos + 8, search_end);
            let value_start = match find_from(window, smpb_sentinel(), 0) {
                Some(off) => pos + 8 + off,
                None => pos + 8,
            };
            let tail_end = if data.len() < value_start + 256 {
                data.len() as int
            } else {
                value_start + 256
            };
            let parts = words(keep_hex_and_space(data.subrange(value_start, tail_end)));
            if parts.len() < 3 {
                gapless_default()
            } else {
                let delay = match parse_hex_u64(parts[1]) {
                    Some(d) => d,
                    None => 0,
                };
                let total = if parts.len() > 3 {
                    match parse_hex_u64(parts[3]) {
                        Some(t) => if t > 0 {
                            Some(t)
                        } else {
                            None
                        },
                        None => None,
                    }
                } else {
                    None
                };
                GaplessInfo { delay_samples: delay, total_valid_samples: total }
            }
        },
    }
}

fn is_hex_byte(b: u8) -> (r: bool)
    ensures
        r == is_hex_digit(b),
{
    (0x30 <= b && b <= 0x39) || (0x41 <= b && b <= 0x46) || (0x61 <= b && b <= 0x66)
}

fn hex_byte_value(b: u8) -> (r: u64)
    requires
        is_hex_digit(b),
    ensures
        r == hex_digit_value(b),
        r < 16,
{
    if 0x30 <= b && b <= 0x39 {
        (b - 0x30) as u64
    } else if 0x41 <= b && b <= 0x46 {
        (b - 0x41 + 10) as u64
    } else {
        (b - 0x61 + 10) as u64
    }
}

proof fn lemma_hex_prefix_monotone(s: Seq<u8>, i: int, j: int)
    requires
        0 <= i <= j <= s.len(),
    ensures
        hex_value(s.subrange(0, i)) <= hex_value(s.subrange(0, j)),
    decreases j - i,
{
    if i < j {
        lemma_hex_prefix_monotone(s, i, j - 1);
        assert(s.subrange(0, j).drop_last() =~= s.subrange(0, j - 1));
    }
}

/// `u64::from_str_radix(word, 16).ok()` for a word of hex digits.
fn parse_hex_word(w: &Vec<u8>) -> (r: Option<u64>)
    requires
        forall|k: int| 0 <= k < w@.len() ==> is_hex_digit(w@[k]),
    ensures
        r == parse_hex_u64(w@),
{
    if w.len() == 0 {
        return None;
    }
    let mut acc: u64 = 0;
    let mut i: usize = 0;
    assert(w@.subrange(0, 0) =~= Seq::<u8>::empty());
    while i < w.len()
        invariant
            i <= w@.len(),
            forall|k: int| 0 <= k < w@.len() ==> is_hex_digit(w@[k]),
            acc == hex_value(w@.subrange(0, i as int)),
        decreases w@.len() - i,
    {
        let d = hex_byte_value(w[i]);
        assert(w@.subrange(0, i + 1).drop_last() =~= w@.subrange(0, i as int));
        if acc > (u64::MAX - d) / 16 {
            proof {
                assert(acc * 16 + d > u64::MAX) by (nonlinear_arith)
                    requires
                        acc > (u64::MAX - d) / 16,
                        d < 16,
                ;
                lemma_hex_prefix_monotone(w@, i + 1, w@.len() as int);
                assert(w@.subrange(0, w@.len() as int) =~= w@);
            }
            return None;
        }
        proof {
            assert(acc * 16 + d <= u64::MAX) by (nonlinear_arith)
                requires
                    acc <= (u64::MAX - d) / 16,
                    d < 16,
            ;
        }
        acc = acc * 16 + d;
        i += 1;
    }
    assert(w@.subrange(0, w@.len() as int) =~= w@);
    Some(acc)
}

/// Keeps hex digits and spaces of `data[from..to]`.
fn filter_hex_space(data: &[u8], from: usize, to: usize) -> (r: Vec<u8>)
    requires
        from <= to <= data@.len(),
    ensures
        r@ == keep_hex_and_space(data@.subrange(from as int, to as int)),
{
    let mut r: Vec<u8> = Vec::new();
    let mut i = from;
    reveal_with_fuel(Seq::<_>::filter, 1);
    assert(data@.subrange(from as int, from as int) =~= Seq::<u8>::empty());
    assert(keep_hex_and_space(Seq::<u8>::empty()) =~= Seq::<u8>::empty());
    while i < to
        invariant
            from <= i <= to <= data@.len(),
            r@ == keep_hex_and_space(data@.subrange(from as int, i as int)),
        decreases to - i,
    {
        reveal_with_fuel(Seq::<_>::filter, 1);
        let b = data[i];
        proof {
            let s = data@.subrange(from as int, i + 1);
            assert(s.drop_last() =~= data@.subrange(from as int, i as int));
            assert(s.last() == b);
        }
        if is_hex_byte(b) || b == 0x20 {
            r.push(b);
        }
        i += 1;
    }
    r
}

/// Splits into non-empty space-separated words.
fn split_words(t: &Vec<u8>) -> (r: Vec<Vec<u8>>)
    ensures
        r@.map_values(|w: Vec<u8>| w@) == words(t@),
{
    let mut r: Vec<Vec<u8>> = Vec::new();
    let mut i: usize = 0;
    let len = t.len();
    assert(t@.subrange(0, len as int) =~= t@);
    while i < len
        invariant
            len == t@.len(),
            i <= len,
            words(t@) == r@.map_values(|w: Vec<u8>| w@) + words(t@.subrange(i as int, len as int)),
        decreases len - i,
    {
        let ghost rest = t@.subrange(i as int, len as int);
        if t[i] == 0x20 {
            proof {
                assert(rest[0] == 0x20);
                assert(rest.drop_first() =~= t@.subrange(i + 1, len as int));
            }
            i += 1;
        } else {
            let mut j = i;
            let mut w: Vec<u8> = Vec::new();
            while j < len && t[j] != 0x20
                invariant
                    len == t@.len(),
                    i <= j <= len,
                    w@ == t@.subrange(i as int, j as int),
                    forall|k: int| i <= k < j ==> t@[k] != 0x20,
                decreases len - j,
            {
                w.push(t[j]);
                j += 1;
            }
            proof {
                lemma_space_bounds(rest, 0);
                let e = space_at_or_after(rest, 0);
                assert(e == j - i) by {
                    if e < j - i {
                        assert(rest[e] == t@[i + e]);
                    }
                    if e > j - i {
                        assert(rest[j - i] == t@[j as int]);
                    }
                }
                assert(rest.subrange(0, e) =~= w@);
                assert(rest.subrange(e, rest.len() as int) =~= t@.subrange(j as int, len as int));
                let old_r = r@.map_values(|x: Vec<u8>| x@);
                assert(old_r + (seq![w@] + words(t@.subrange(j as int, len as int))) =~= old_r.push(
                    w@,
                ) + words(t@.subrange(j as int, len as int)));
            }
            let ghost prev = r@;
            let ghost wv = w@;
            r.push(w);
            proof {
                assert(r@.map_values(|x: Vec<u8>| x@) =~= prev.map_values(|x: Vec<u8>| x@).push(wv));
            }
            i = j;
        }
    }
    proof {
        assert(t@.subrange(len as int, len as int) =~= Seq::<u8>::empty());
        assert(r@.map_values(|w: Vec<u8>| w@) + Seq::<Seq<u8>>::empty() =~= r@.map_values(
            |w: Vec<u8>| w@,
        ));
    }
    r
}


proof fn lemma_words_hex(s: Seq<u8>)
    requires
        forall|k: int| 0 <= k < s.len() ==> is_hex_digit(s[k]) || s[k] == 0x20,
    ensures
        forall|i: int, k: int|
            0 <= i < words(s).len() && 0 <= k < words(s)[i].len() ==> is_hex_digit(
                #[trigger] words(s)[i][k],
            ),
    decreases s.len(),
{
    if s.len() == 0 {
    } else if s[0] == 0x20 {
        let t = s.drop_first();
        assert forall|k: int| 0 <= k < t.len() implies is_hex_digit(t[k]) || t[k] == 0x20 by {
            assert(t[k] == s[k + 1]);
        }
        lemma_words_hex(t);
        assert(words(s) == words(t));
    } else {
        lemma_space_bounds(s, 0);
        let e = space_at_or_after(s, 0);
        let rest = s.subrange(e, s.len() as int);
        assert forall|k: int| 0 <= k < rest.len() implies is_hex_digit(rest[k]) || rest[k] == 0x20 by {
            assert(rest[k] == s[k + e]);
        }
        lemma_words_hex(rest);
        let ws = words(s);
        assert(ws == seq![s.subrange(0, e)] + words(rest));
        assert forall|i: int, k: int|
            0 <= i < ws.len() && 0 <= k < ws[i].len() implies is_hex_digit(#[trigger] ws[i][k]) by {
            if i == 0 {
                assert(ws[0] == s.subrange(0, e));
                assert(ws[0][k] == s[k]);
            } else {
                assert(ws[i] == words(rest)[i - 1]);
            }
        }
    }
}

/// Reads the encoder delay and valid-sample total from the iTunSMPB value
/// embedded in raw file bytes; no trimming when the marker is absent or the
/// value has fewer than three words.
pub fn parse_gapless_info(data: &[u8]) -> (r: GaplessInfo)
    ensures
        r == gapless_spec(data@),
{
    let tag: Vec<u8> = vec![0x69u8, 0x54u8, 0x75u8, 0x6eu8, 0x53u8, 0x4du8, 0x50u8, 0x42u8];
    assert(tag@ == smpb_tag());
    let sentinel: Vec<u8> = vec![
        0x20u8,
        0x30u8,
        0x30u8,
        0x30u8,
        0x30u8,
        0x30u8,
        0x30u8,
        0x30u8,
        0x30u8,
        0x20u8,
    ];
    assert(sentinel@ == smpb_sentinel());
    let pos = match find_subsequence(data, tag.as_slice()) {
        Some(p) => p,
        None => return GaplessInfo::default(),
    };
    let len = data.len();
    proof {
        lemma_find_from(data@, smpb_tag(), 0);
    }
    assert(pos + 8 <= len);
    let start = pos + 8;
    let search_end = if len - start < 128 {
        len
    } else {
        start + 128
    };
    let window = vstd::slice::slice_subrange(data, start, search_end);
    proof {
        lemma_find_from(window@, smpb_sentinel(), 0);
    }
    let value_start = match find_subsequence(window, sentinel.as_slice()) {
        Some(off) => start + off,
        None => start,
    };
    let tail_end = if len - value_start < 256 {
        len
    } else {
        value_start + 256
    };
    let text = filter_hex_space(data, value_start, tail_end);
    let parts = split_words(&text);
    let ghost ws = words(keep_hex_and_space(data@.subrange(value_start as int, tail_end as int)));
    proof {
        let t = keep_hex_and_space(data@.subrange(value_start as int, tail_end as int));
        broadcast use vstd::seq_lib::group_filter_ensures;
        assert forall|k: int| 0 <= k < t.len() implies is_hex_digit(t[k]) || t[k] == 0x20 by {
            let f = |b: u8| is_hex_digit(b) || b == 0x20;
            assert(f(t[k]));
        }
        lemma_words_hex(t);
        assert(parts@.len() == ws.len());
    }
    if parts.len() < 3 {
        return GaplessInfo::default();
    }
    proof {
        assert(parts@[1]@ == ws[1]);
        assert forall|k: int| 0 <= k < parts@[1]@.len() implies is_hex_digit(parts@[1]@[k]) by {
            assert(ws[1][k] == parts@[1]@[k]);
        }
    }
    let delay = match parse_hex_word(&parts[1]) {
        Some(d) => d,
        None => 0,
    };
    let total = if parts.len() > 3 {
        proof {
            assert(parts@[3]@ == ws[3]);
            assert forall|k: int| 0 <= k < parts@[3]@.len() implies is_hex_digit(parts@[3]@[k]) by {
                assert(ws[3][k] == parts@[3]@[k]);
            }
        }
        match parse_hex_word(&parts[3]) {
            Some(t) => if t > 0 {
                Some(t)
            } else {
                None
            },
            None => None,
        }
    } else {
        None
    };
    GaplessInfo { delay_samples: delay, total_valid_samples: total }
}

} // verus!

//! Requests to the Navidrome REST API and to Bandsintown: endpoint URLs,
//! the retry policy for transient transport errors, how statuses and replies
//! become results, and the shaping of concert listings.
use vstd::prelude::*;

use crate::download::status_success_spec;
use crate::text::{chars_of, dec_seq, push_dec, push_str, string_of, trim_chars, trim_seq, TrimSet};

verus! {

// ---------------------------------------------------------------------------
// Form encoding
// ---------------------------------------------------------------------------

/// Bytes the form encoder keeps as they are.
pub open spec fn form_unchanged(b: u8) -> bool {
    b == 0x2a || b == 0x2d || b == 0x2e || b == 0x5f || (0x30 <= b <= 0x39) || (0x41 <= b
        <= 0x5a) || (0x61 <= b <= 0x7a)
}

/// Upper-case hexadecimal digit of `d < 16`.
pub open spec fn hex_upper(d: u8) -> char {
    if d < 10 {
        (0x30 + d) as char
    } else {
        (0x41 + d - 10) as char
    }
}

/// How one byte is written in `application/x-www-form-urlencoded` form.
pub open spec fn form_byte(b: u8) -> Seq<char> {
    if form_unchanged(b) {
        seq![b as char]
    } else if b == 0x20 {
        seq!['+']
    } else {
        seq!['%', hex_upper(b / 16), hex_upper(b % 16)]
    }
}

/// The form encoding of a byte string: each byte encoded in turn.
pub open spec fn form_encode(bytes: Seq<u8>) -> Seq<char>
    decreases bytes.len(),
{
    if bytes.len() == 0 {
        Seq::empty()
    } else {
        form_encode(bytes.drop_last()) + form_byte(bytes.last())
    }
}

/// Calls `url::form_urlencoded::byte_serialize` and collects its pieces.
/// Claims what its source shows: `*`, `-`, `.`, `_`, ASCII digits and
/// letters are kept, a space becomes `+`, and every other byte becomes `%`
/// and two upper-case hex digits.
#[verifier::external_body]
fn form_urlencode(bytes: &[u8]) -> (r: String)
    ensures
        r@ == form_encode(bytes@),
{
    url::form_urlencoded::byte_serialize(bytes).collect()
}

// ---------------------------------------------------------------------------
// Bandsintown
// ---------------------------------------------------------------------------

/// Application id Bandsintown accepts (the one its own widget uses).
pub open spec fn bandsintown_app_id() -> Seq<char> {
    "js_app_id"@
}

/// Events listed at most.
pub const BANDSINTOWN_MAX_EVENTS: usize = 20;

/// The events URL of an artist, whose name is trimmed and form-encoded
/// (so `/` cannot split the path); none for a blank name.
pub fn bandsintown_events_url(artist_name: &str) -> (r: Option<String>)
    ensures
        match r {
            Some(u) => {
                let t = trim_seq(artist_name@, TrimSet::Whitespace);
                &&& t.len() > 0
                &&& u@ == "https://rest.bandsintown.com/artists/"@ + form_encode(vstd::utf8::encode_utf8(t))
                    + "/events?app_id="@ + bandsintown_app_id()
            },
            None => trim_seq(artist_name@, TrimSet::Whitespace).len() == 0,
        },
{
    let chars = chars_of(artist_name);
    let t = trim_chars(&chars, TrimSet::Whitespace);
    if t.len() == 0 {
        return None;
    }
    let trimmed = string_of(&t);
    let encoded = form_urlencode(trimmed.as_str().as_bytes());
    let mut v: Vec<char> = Vec::new();
    push_str(&mut v, "https://rest.bandsintown.com/artists/");
    push_str(&mut v, encoded.as_str());
    push_str(&mut v, "/events?app_id=");
    push_str(&mut v, "js_app_id");
    Some(string_of(&v))
}

/// One event as read from the Bandsintown reply: a field is `None` when it
/// is missing or not a string; `lineup` is `None` when it is not an array,
/// and holds `None` for each entry that is not a string.
pub struct RawBandsintownEvent {
    pub datetime: Option<String>,
    pub venue_name: Option<String>,
    pub venue_city: Option<String>,
    pub venue_region: Option<String>,
    pub venue_country: Option<String>,
    pub url: Option<String>,
    pub on_sale_datetime: Option<String>,
    pub lineup: Option<Vec<Option<String>>>,
}

/// A concert as listed to the user.
pub struct BandsintownEvent {
    pub datetime: String,
    pub venue_name: String,
    pub venue_city: String,
    pub venue_region: String,
    pub venue_country: String,
    pub url: String,
    pub on_sale_datetime: String,
    pub lineup: Vec<String>,
}

pub open spec fn text_or_blank(o: Option<String>) -> Seq<char> {
    match o {
        Some(s) => s@,
        None => Seq::empty(),
    }
}

/// The string entries of a lineup, in order.
pub open spec fn lineup_names(l: Seq<Option<String>>) -> Seq<Seq<char>>
    decreases l.len(),
{
    if l.len() == 0 {
        Seq::empty()
    } else {
        let init = lineup_names(l.drop_last());
        match l.last() {
            Some(s) => init.push(s@),
            None => init,
        }
    }
}

pub open spec fn event_matches(raw: RawBandsintownEvent, e: BandsintownEvent) -> bool {
    &&& e.datetime@ == text_or_blank(raw.datetime)
    &&& e.venue_name@ == text_or_blank(raw.venue_name)
    &&& e.venue_city@ == text_or_blank(raw.venue_city)
    &&& e.venue_region@ == text_or_blank(raw.venue_region)
    &&& e.venue_country@ == text_or_blank(raw.venue_country)
    &&& e.url@ == text_or_blank(raw.url)
    &&& e.on_sale_datetime@ == text_or_blank(raw.on_sale_datetime)
    &&& e.lineup@.map_values(|s: String| s@) == match raw.lineup {
        Some(l) => lineup_names(l@),
        None => Seq::empty(),
    }
}

fn take_text(o: Option<String>) -> (r: String)
    ensures
        r@ == text_or_blank(o),
{
    match o {
        Some(s) => s,
        None => String::new(),
    }
}

fn take_lineup(l: Option<Vec<Option<String>>>) -> (r: Vec<String>)
    ensures
        r@.map_values(|s: String| s@) == match l {
            Some(v) => lineup_names(v@),
            None => Seq::empty(),
        },
{
    let mut out: Vec<String> = Vec::new();
    match l {
        None => {
            assert(out@.map_values(|s: String| s@) =~= Seq::<Seq<char>>::empty());
            out
        },
        Some(v) => {
            let mut i: usize = 0;
            while i < v.len()
                invariant
                    i <= v@.len(),
                    out@.map_values(|s: String| s@) == lineup_names(v@.subrange(0, i as int)),
                decreases v@.len() - i,
            {
                proof {
                    let s = v@.subrange(0, i + 1);
                    assert(s.drop_last() =~= v@.subrange(0, i as int));
                }
                match &v[i] {
                    Some(name) => {
                        let ghost before = out@;
                        out.push(string_of_str(name.as_str()));
                        assert(out@.map_values(|s: String| s@) =~= before.map_values(
                            |s: String| s@,
                        ).push(name@));
                    },
                    None => {},
                }
                i = i + 1;
            }
            assert(v@.subrange(0, v@.len() as int) =~= v@);
            out
        },
    }
}

fn string_of_str(s: &str) -> (r: String)
    ensures
        r@ == s@,
{
    let mut v: Vec<char> = Vec::new();
    push_str(&mut v, s);
    string_of(&v)
}

/// The listing shown for a reply: its first twenty events, blank text for
/// every field the reply lacks, and only the string entries of a lineup.
pub fn bandsintown_events(raw: Vec<RawBandsintownEvent>) -> (r: Vec<BandsintownEvent>)
    ensures
        r@.len() == (if raw@.len() < BANDSINTOWN_MAX_EVENTS {
            raw@.len()
        } else {
            BANDSINTOWN_MAX_EVENTS as nat
        }),
        forall|i: int| 0 <= i < r@.len() ==> event_matches(raw@[i], #[trigger] r@[i]),
{
    let mut out: Vec<BandsintownEvent> = Vec::new();
    let mut raw = raw;
    let ghost all = raw@;
    let n: usize = if raw.len() < BANDSINTOWN_MAX_EVENTS {
        raw.len()
    } else {
        BANDSINTOWN_MAX_EVENTS
    };
    raw.truncate(n);
    let mut k: usize = 0;
    while k < n
        invariant
            k <= n,
            n <= all.len(),
            out@.len() == k,
            raw@ =~= all.subrange(k as int, n as int),
            forall|i: int| 0 <= i < k ==> event_matches(all[i], #[trigger] out@[i]),
        decreases n - k,
    {
        let e = raw.remove(0);
        let ev = BandsintownEvent {
            datetime: take_text(e.datetime),
            venue_name: take_text(e.venue_name),
            venue_city: take_text(e.venue_city),
            venue_region: take_text(e.venue_region),
            venue_country: take_text(e.venue_country),
            url: take_text(e.url),
            on_sale_datetime: take_text(e.on_sale_datetime),
            lineup: take_lineup(e.lineup),
        };
        out.push(ev);
        k = k + 1;
    }
    out
}

// ---------------------------------------------------------------------------
// Navidrome
// ---------------------------------------------------------------------------

/// Attempts a Navidrome request gets in all.
pub const ND_ATTEMPTS: usize = 3;

/// Pause after the first failed attempt.
pub const ND_FIRST_BACKOFF_MS: u64 = 300;

/// Pause after the second failed attempt.
pub const ND_SECOND_BACKOFF_MS: u64 = 700;

/// Pause before attempt `attempt + 1` after attempt `attempt` (0-based) failed
/// in transport: 300 ms, then 700 ms.
pub open spec fn nd_backoff_spec(attempt: int) -> u64 {
    if attempt == 0 {
        ND_FIRST_BACKOFF_MS
    } else {
        ND_SECOND_BACKOFF_MS
    }
}

/// What to do after a Navidrome request failed in transport.
#[derive(Clone, Copy, Debug, PartialEq, Eq, Structural)]
pub enum NdRetryStep {
    /// Not a connect or timeout error: report it now.
    ReportNow,
    /// Sleep this long, then try again.
    RetryAfter(u64),
    /// Attempts used up: report the last error.
    Exhausted,
}

/// The step after attempt `attempt` (0-based) failed.
pub open spec fn nd_retry_step_spec(attempt: int, transient: bool) -> NdRetryStep {
    if !transient {
        NdRetryStep::ReportNow
    } else if attempt + 1 < ND_ATTEMPTS {
        NdRetryStep::RetryAfter(nd_backoff_spec(attempt))
    } else {
        NdRetryStep::Exhausted
    }
}

/// After attempt `attempt` (0-based) failed, `transient` when the error is a
/// connect or timeout error: three attempts in all, with calm pauses of
/// 300 ms and then 700 ms between them; other errors are reported at once.
pub fn nd_retry_step(attempt: usize, transient: bool) -> (r: NdRetryStep)
    ensures
        r == nd_retry_step_spec(attempt as int, transient),
{
    if !transient {
        NdRetryStep::ReportNow
    } else if attempt < ND_ATTEMPTS - 1 {
        if attempt == 0 {
            NdRetryStep::RetryAfter(ND_FIRST_BACKOFF_MS)
        } else {
            NdRetryStep::RetryAfter(ND_SECOND_BACKOFF_MS)
        }
    } else {
        NdRetryStep::Exhausted
    }
}

/// When every attempt fails with a connect or timeout error, the request
/// is sent exactly three times, pausing 300 ms and then 700 ms, and the
/// last error is reported; any other error is reported at once.
pub proof fn nd_retry_schedule(attempt: int)
    ensures
        nd_retry_step_spec(0, true) == NdRetryStep::RetryAfter(300),
        nd_retry_step_spec(1, true) == NdRetryStep::RetryAfter(700),
        attempt >= 2 ==> nd_retry_step_spec(attempt, true) == NdRetryStep::Exhausted,
        nd_retry_step_spec(attempt, false) == NdRetryStep::ReportNow,
{
}

/// Messages of an error and its sources, joined by " | ".
pub open spec fn chain_text(msgs: Seq<String>) -> Seq<char>
    decreases msgs.len(),
{
    if msgs.len() == 0 {
        Seq::empty()
    } else if msgs.len() == 1 {
        msgs[0]@
    } else {
        chain_text(msgs.drop_last()) + " | "@ + msgs.last()@
    }
}

/// One readable line for a transport error: its message, then the message
/// of each source in turn, separated by " | ".
pub fn nd_err(chain: &Vec<String>) -> (r: String)
    ensures
        r@ == chain_text(chain@),
{
    let mut v: Vec<char> = Vec::new();
    let mut i: usize = 0;
    while i < chain.len()
        invariant
            i <= chain@.len(),
            v@ == chain_text(chain@.subrange(0, i as int)),
        decreases chain@.len() - i,
    {
        proof {
            let s = chain@.subrange(0, i + 1);
            assert(s.drop_last() =~= chain@.subrange(0, i as int));
        }
        if i > 0 {
            push_str(&mut v, " | ");
        }
        push_str(&mut v, chain[i].as_str());
        i = i + 1;
    }
    assert(chain@.subrange(0, chain@.len() as int) =~= chain@);
    string_of(&v)
}

/// Deleting a radio cover succeeds on any 2xx, and on 404 and 503 (no
/// image existed).
pub fn radio_cover_delete_ok(status: u16) -> (r: bool)
    ensures
        r == (status_success_spec(status) || status == 404 || status == 503),
{
    (200 <= status && status <= 299) || status == 404 || status == 503
}

/// The error of a request that came back with a non-2xx status, shown as
/// its status line, and with the body when one is reported.
pub fn nd_status_error(status: &str, body: Option<&str>) -> (r: String)
    ensures
        r@ == match body {
            Some(b) => "HTTP "@ + status@ + ": "@ + b@,
            None => "HTTP "@ + status@,
        },
{
    let mut v: Vec<char> = Vec::new();
    push_str(&mut v, "HTTP ");
    push_str(&mut v, status);
    match body {
        Some(b) => {
            push_str(&mut v, ": ");
            push_str(&mut v, b);
        },
        None => {},
    }
    string_of(&v)
}

/// The error of a login that came back with a non-2xx status.
pub fn nd_login_status_error(status: &str) -> (r: String)
    ensures
        r@ == "Navidrome login failed: HTTP "@ + status@,
{
    let mut v: Vec<char> = Vec::new();
    push_str(&mut v, "Navidrome login failed: HTTP ");
    push_str(&mut v, status);
    string_of(&v)
}

/// What a Navidrome login yields.
pub struct NdLoginResult {
    pub token: String,
    pub user_id: String,
    pub is_admin: bool,
}

/// The login result from the reply's `token`, `id` and `isAdmin` fields
/// (each `None` when missing or of another type): the token is required,
/// the id defaults to "" and the admin flag to false.
pub fn nd_login_result(token: Option<String>, id: Option<String>, is_admin: Option<bool>) -> (r:
    Result<NdLoginResult, String>)
    ensures
        match token {
            Some(t) => r matches Ok(l) && l.token@ == t@ && l.user_id@ == text_or_blank(id)
                && l.is_admin == match is_admin {
                Some(b) => b,
                None => false,
            },
            None => r matches Err(e) && e@ == "no token in response"@,
        },
{
    match token {
        Some(t) => {
            let user_id = take_text(id);
            let admin = match is_admin {
                Some(b) => b,
                None => false,
            };
            Ok(NdLoginResult { token: t, user_id, is_admin: admin })
        },
        None => Err(string_of_str("no token in response")),
    }
}

/// The bearer credential sent in `X-ND-Authorization`.
pub fn nd_bearer(token: &str) -> (r: String)
    ensures
        r@ == "Bearer "@ + token@,
{
    let mut v: Vec<char> = Vec::new();
    push_str(&mut v, "Bearer ");
    push_str(&mut v, token);
    string_of(&v)
}

/// `server` + "/api/" + `resource`, then "/" + `id` and "/" + `tail` when given.
pub open spec fn nd_api_url_spec(server: Seq<char>, resource: Seq<char>, id: Option<Seq<char>>, tail: Option<Seq<char>>) -> Seq<char> {
    let base = server + "/api/"@ + resource;
    let with_id = match id {
        Some(i) => base + "/"@ + i,
        None => base,
    };
    match tail {
        Some(t) => with_id + "/"@ + t,
        None => with_id,
    }
}

/// A Navidrome REST endpoint, such as `{server}/api/playlist/{id}/image`.
pub fn nd_api_url(server: &str, resource: &str, id: Option<&str>, tail: Option<&str>) -> (r: String)
    ensures
        r@ == nd_api_url_spec(
            server@,
            resource@,
            match id {
                Some(i) => Some(i@),
                None => None,
            },
            match tail {
                Some(t) => Some(t@),
                None => None,
            },
        ),
{
    let mut v: Vec<char> = Vec::new();
    push_str(&mut v, server);
    push_str(&mut v, "/api/");
    push_str(&mut v, resource);
    match id {
        Some(i) => {
            push_str(&mut v, "/");
            push_str(&mut v, i);
        },
        None => {},
    }
    match tail {
        Some(t) => {
            push_str(&mut v, "/");
            push_str(&mut v, t);
        },
        None => {},
    }
    string_of(&v)
}

/// The login endpoint of a server.
pub fn nd_login_url(server: &str) -> (r: String)
    ensures
        r@ == server@ + "/auth/login"@,
{
    let mut v: Vec<char> = Vec::new();
    push_str(&mut v, server);
    push_str(&mut v, "/auth/login");
    string_of(&v)
}

/// The song listing endpoint, sorted, ordered and windowed as given.
pub fn nd_songs_url(server: &str, sort: &str, order: &str, start: u32, end: u32) -> (r: String)
    ensures
        r@ == server@ + "/api/song?_sort="@ + sort@ + "&_order="@ + order@ + "&_start="@
            + dec_seq(start as nat) + "&_end="@ + dec_seq(end as nat),
{
    let mut v: Vec<char> = Vec::new();
    push_str(&mut v, server);
    push_str(&mut v, "/api/song?_sort=");
    push_str(&mut v, sort);
    push_str(&mut v, "&_order=");
    push_str(&mut v, order);
    push_str(&mut v, "&_start=");
    push_dec(start as u64, &mut v);
    push_str(&mut v, "&_end=");
    push_dec(end as u64, &mut v);
    string_of(&v)
}

/// The form encoding of any bytes holds no `/`, `?`, `&` or `#`, so an
/// encoded artist name stays one path segment of the request URL.
pub proof fn form_encoding_stays_one_segment(bytes: Seq<u8>)
    ensures
        forall|i: int|
            0 <= i < form_encode(bytes).len() ==> {
                let c = #[trigger] form_encode(bytes)[i];
                c != '/' && c != '?' && c != '&' && c != '#'
            },
    decreases bytes.len(),
{
    if bytes.len() > 0 {
        form_encoding_stays_one_segment(bytes.drop_last());
        let b = bytes.last();
        let init = form_encode(bytes.drop_last());
        let tail = form_byte(b);
        assert(form_encode(bytes) == init + tail);
        assert forall|i: int| 0 <= i < tail.len() implies {
            let c = #[trigger] tail[i];
            c != '/' && c != '?' && c != '&' && c != '#'
        } by {
            if form_unchanged(b) {
                assert(b != 0x2f && b != 0x3f && b != 0x26 && b != 0x23);
            } else if b != 0x20 {
                assert(b / 16 < 16 && b % 16 < 16);
            }
        }
        assert forall|i: int| 0 <= i < form_encode(bytes).len() implies {
            let c = #[trigger] form_encode(bytes)[i];
            c != '/' && c != '?' && c != '&' && c != '#'
        } by {
            if i < init.len() {
                assert(form_encode(bytes)[i] == init[i]);
            } else {
                assert(form_encode(bytes)[i] == tail[i - init.len()]);
            }
        }
    }
}

} // verus!

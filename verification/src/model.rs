//! The site record and the rules for what a user may store as an address.

use vstd::prelude::*;

use crate::text::{
    chars_of, find, find_first, find_from, is_white_space, lead_end, occurs_at, trail_end, trim,
    trim_view,
};

verus! {

/// Lowest interval we will ever schedule. Guardrail against hammering an endpoint.
pub const MIN_INTERVAL_SECS: u64 = 10;

/// The only method we ever persist. HEAD is the default and needs no override;
/// this is written only once a server has told us HEAD is unwelcome.
#[derive(Debug, Clone, Copy, PartialEq, Eq, Structural)]
pub enum Method {
    Get,
}

/// One site the user asked us to watch.
#[derive(Debug, PartialEq, Eq)]
pub struct Site {
    pub id: String,
    pub url: String,
    pub label: Option<String>,
    pub interval_secs: u64,
    pub method_override: Option<Method>,
}

/// A copy of an optional string, equal to the original.
fn clone_opt_string(s: &Option<String>) -> (res: Option<String>)
    ensures
        res == *s,
{
    match s {
        Some(v) => Some(v.clone()),
        None => None,
    }
}

impl Clone for Site {
    fn clone(&self) -> (res: Self)
        ensures
            res == *self,
    {
        Site {
            id: self.id.clone(),
            url: self.url.clone(),
            label: clone_opt_string(&self.label),
            interval_secs: self.interval_secs,
            method_override: self.method_override,
        }
    }
}

/// Emitted state. There is deliberately no `Pending`: that is a UI-only state
/// meaning "no event received yet this session".
#[derive(Debug, Clone, Copy, PartialEq, Eq, Structural)]
pub enum CheckState {
    Up,
    Down,
}

/// Payload of the `site-status` event.
#[derive(Debug, PartialEq, Eq)]
pub struct StatusEvent {
    pub id: String,
    pub state: CheckState,
    /// Epoch milliseconds, taken when the check completed.
    pub checked_at: u64,
    pub reason: Option<String>,
}

/// The view of a `Result` of strings.
pub open spec fn result_view(r: Result<String, String>) -> Result<Seq<char>, Seq<char>> {
    match r {
        Ok(s) => Ok(s@),
        Err(e) => Err(e@),
    }
}

/// The view of an optional string.
pub open spec fn opt_view(o: Option<String>) -> Option<Seq<char>> {
    match o {
        Some(s) => Some(s@),
        None => None,
    }
}

// ---------------------------------------------------------------------------
// Interval floor

/// The interval actually scheduled for a requested one.
pub open spec fn clamped(secs: u64) -> u64 {
    if secs < MIN_INTERVAL_SECS { MIN_INTERVAL_SECS } else { secs }
}

/// Raise anything below the floor up to it. Never lowers a value.
pub fn clamp_interval(secs: u64) -> (res: u64)
    ensures
        res == clamped(secs),
        res >= MIN_INTERVAL_SECS,
        res >= secs,
        secs >= MIN_INTERVAL_SECS ==> res == secs,
{
    if secs < MIN_INTERVAL_SECS {
        MIN_INTERVAL_SECS
    } else {
        secs
    }
}

/// Clamping twice is clamping once: a scheduled interval is never moved again.
pub proof fn law_clamp_is_idempotent(secs: u64)
    ensures
        clamped(clamped(secs)) == clamped(secs),
{
}

// ---------------------------------------------------------------------------
// Schemes

/// `char::is_ascii_alphanumeric`.
pub open spec fn is_ascii_alphanumeric(c: char) -> bool {
    let u = c as u32;
    ||| 0x30 <= u <= 0x39
    ||| 0x41 <= u <= 0x5a
    ||| 0x61 <= u <= 0x7a
}

/// A character that may appear in a leading scheme.
pub open spec fn is_scheme_char(c: char) -> bool {
    is_ascii_alphanumeric(c) || c == '+' || c == '-' || c == '.'
}

/// Index of the `://` that ends a leading scheme of `s`, if there is one: the
/// first `://` in `s`, provided it is not at the very start and every character
/// before it is a scheme character.
pub open spec fn scheme_end(s: Seq<char>) -> Option<nat> {
    match find_first(s, "://"@) {
        Some(i) => if i > 0 && forall|k: int| 0 <= k < i ==> #[trigger] is_scheme_char(s[k]) {
            Some(i)
        } else {
            None
        },
        None => None,
    }
}

/// `char::to_ascii_lowercase`.
pub open spec fn ascii_lower(c: char) -> char {
    let u = c as u32;
    if 0x41 <= u <= 0x5a {
        (u + 32) as char
    } else {
        c
    }
}

/// `str::to_ascii_lowercase` on a sequence of characters.
pub open spec fn lower_ascii(s: Seq<char>) -> Seq<char> {
    s.map_values(|c: char| ascii_lower(c))
}

/// `str::to_ascii_lowercase`: each ASCII letter `A`-`Z` mapped to `a`-`z`,
/// every other character unchanged (as std documents it).
#[verifier::external_body]
fn to_ascii_lowercase(s: &str) -> (res: String)
    ensures
        res@ == lower_ascii(s@),
{
    s.to_ascii_lowercase()
}

fn is_scheme_character(c: char) -> (res: bool)
    ensures
        res == is_scheme_char(c),
{
    let u = c as u32;
    (0x30 <= u && u <= 0x39) || (0x41 <= u && u <= 0x5a) || (0x61 <= u && u <= 0x7a) || c == '+'
        || c == '-' || c == '.'
}

/// Index of the `://` ending a leading scheme, or `None` if there isn't one.
/// A scheme counts only at the very start and only when every character before
/// the `://` is ASCII alphanumeric or one of `+`, `-`, `.`; a `://` inside a
/// query string does not give a scheme-less address one.
///
/// The index counts characters; since everything before it is ASCII it is
/// also the byte index.
fn leading_scheme_end(s: &Vec<char>) -> (res: Option<usize>)
    ensures
        opt_nat(res) == scheme_end(s@),
{
    let sep = chars_of("://");
    match find(s, &sep) {
        None => None,
        Some(i) => {
            proof {
                crate::text::lemma_find_from(s@, sep@, 0);
            }
            if i == 0 {
                return None;
            }
            let mut k: usize = 0;
            while k < i
                invariant
                    0 < i <= s@.len(),
                    find_first(s@, "://"@) == Some(i as nat),
                    k <= i,
                    forall|j: int| 0 <= j < k ==> #[trigger] is_scheme_char(s@[j]),
                decreases i - k,
            {
                if !is_scheme_character(s[k]) {
                    assert(!is_scheme_char(s@[k as int]));
                    return None;
                }
                k = k + 1;
            }
            Some(i)
        },
    }
}

/// An optional index as a natural number.
pub open spec fn opt_nat(o: Option<usize>) -> Option<nat> {
    match o {
        Some(i) => Some(i as nat),
        None => None,
    }
}

// ---------------------------------------------------------------------------
// Parsing through the url crate

/// What `url::Url::parse` makes of `input`: `None` when it refuses it, else the
/// parsed URL's scheme and its host, if it has one.
pub uninterp spec fn url_parse(input: Seq<char>) -> Option<(Seq<char>, Option<Seq<char>>)>;

/// The two parts of a parsed URL that the address rules read.
struct ParsedUrl {
    scheme: String,
    host: Option<String>,
}

/// `s` has its first `:` at index `i`, nothing before it is a tab or a line
/// break, and it does not start with a C0 control or a space: the text the url
/// parser reads as the scheme is then exactly `s[..i]`.
pub open spec fn plain_scheme_prefix(s: Seq<char>, i: int) -> bool {
    &&& 0 < i < s.len()
    &&& s[i] == ':'
    &&& (s[0] as u32) > 0x20
    &&& forall|k: int|
        0 <= k < i ==> #[trigger] s[k] != ':' && s[k] != '\t' && s[k] != '\n' && s[k] != '\r'
}

/// `url::Url::parse`, then `Url::scheme` and `Url::host_str` on the result.
/// Claims that the outcome is the one `url_parse` names for this input (the
/// same text always parses the same way) and, as the crate documents and its
/// scheme state does, that the scheme of a parsed URL is the text before the
/// first `:` lower-cased, when nothing before it is trimmed or skipped.
#[verifier::external_body]
fn parse_url(input: &str) -> (res: Option<ParsedUrl>)
    ensures
        match res {
            Some(p) => url_parse(input@) == Some((p.scheme@, opt_view(p.host))),
            None => url_parse(input@) is None,
        },
        res matches Some(p) ==> forall|i: int|
            #[trigger] plain_scheme_prefix(input@, i) ==> p.scheme@ == lower_ascii(
                input@.take(i),
            ),
{
    match url::Url::parse(input) {
        Ok(u) => Some(
            ParsedUrl { scheme: u.scheme().to_string(), host: u.host_str().map(|h| h.to_string()) },
        ),
        Err(_) => None,
    }
}

/// Whether a parsed scheme is one this app works with.
pub open spec fn is_web_scheme(scheme: Seq<char>) -> bool {
    scheme == "http"@ || scheme == "https"@
}

/// Whether a parsed host is present and non-empty.
pub open spec fn has_host(host: Option<Seq<char>>) -> bool {
    host is Some && host.unwrap().len() > 0
}

fn web_scheme(scheme: &String) -> (res: bool)
    ensures
        res == is_web_scheme(scheme@),
{
    let http = String::from_str("http");
    let https = String::from_str("https");
    *scheme == http || *scheme == https
}

fn present_host(host: &Option<String>) -> (res: bool)
    ensures
        res == has_host(opt_view(*host)),
{
    match host {
        Some(h) => !h.as_str().is_empty(),
        None => false,
    }
}

// ---------------------------------------------------------------------------
// normalize_url

/// The text `normalize_url` submits to the parser for trimmed input `t`: the
/// leading scheme lower-cased, or `https://` put in front when there is none.
pub open spec fn with_scheme(t: Seq<char>) -> Seq<char> {
    match scheme_end(t) {
        Some(i) => lower_ascii(t.take(i as int)) + t.skip(i as int),
        None => "https://"@ + t,
    }
}

/// What `normalize_url` answers for `input`.
pub open spec fn normalized(input: Seq<char>) -> Result<Seq<char>, Seq<char>> {
    let t = trim_view(input);
    if t.len() == 0 {
        Err("Enter a URL"@)
    } else {
        let candidate = with_scheme(t);
        match url_parse(candidate) {
            None => Err("Not a valid URL"@),
            Some((scheme, host)) => if !is_web_scheme(scheme) {
                Err("Only http and https URLs are supported"@)
            } else if !has_host(host) {
                Err("URL is missing a host"@)
            } else {
                Ok(candidate)
            },
        }
    }
}

/// Validate user input, add a scheme if one is missing, and lowercase the
/// scheme if one is present.
///
/// Returns the user's own text (trimmed, scheme-prefixed) rather than the
/// parser's rendering, so `example.com` yields `https://example.com` and not
/// `https://example.com/`. Only the scheme is touched: hosts, paths and query
/// values keep their case.
pub fn normalize_url(input: &str) -> (res: Result<String, String>)
    ensures
        result_view(res) == normalized(input@),
        res matches Ok(u) ==> has_prefix(u@, "http://"@) || has_prefix(u@, "https://"@),
        res is Ok <==> (trim_view(input@).len() > 0 && (url_parse(with_scheme(trim_view(input@))) matches Some((scheme, host)) && (scheme == "http"@ || scheme == "https"@) && (host matches Some(h) && h.len() > 0))),
        res matches Ok(u) ==> u@ == with_scheme(trim_view(input@)),
{
    let trimmed = trim(input);
    let tc = chars_of(trimmed);
    if tc.len() == 0 {
        return Err(String::from_str("Enter a URL"));
    }
    let candidate = match leading_scheme_end(&tc) {
        Some(i) => {
            proof {
                crate::text::lemma_find_from(tc@, "://"@, 0);
            }
            let scheme = to_ascii_lowercase(trimmed.substring_char(0, i));
            let candidate = scheme.concat(trimmed.substring_char(i, tc.len()));
            assert(candidate@ =~= with_scheme(trimmed@));
            proof {
                lemma_plain_prefix(trimmed@, i as int);
            }
            candidate
        },
        None => {
            let candidate = String::from_str("https://").concat(trimmed);
            proof {
                reveal_strlit("https://");
                assert(candidate@.take(8) =~= "https://"@);
            }
            candidate
        },
    };
    match parse_url(candidate.as_str()) {
        None => Err(String::from_str("Not a valid URL")),
        Some(parsed) => {
            if !web_scheme(&parsed.scheme) {
                Err(String::from_str("Only http and https URLs are supported"))
            } else if !present_host(&parsed.host) {
                Err(String::from_str("URL is missing a host"))
            } else {
                proof {
                    if let Some(i) = scheme_end(trim_view(input@)) {
                        lemma_plain_prefix(trim_view(input@), i as int);
                        lemma_web_prefix(candidate@, i as int);
                    }
                }
                Ok(candidate)
            }
        },
    }
}

/// An address is accepted exactly when its scheme-completed text parses with
/// an http or https scheme and a non-empty host, and the answer is then that
/// text; acceptance depends on nothing else (not on what the host holds).
pub proof fn law_accepted_exactly_on_web_scheme_and_host(input: Seq<char>)
    ensures
        normalized(input) is Ok <==> (trim_view(input).len() > 0 && (url_parse(with_scheme(trim_view(input))) matches Some((scheme, host)) && (scheme == "http"@ || scheme == "https"@) && (host matches Some(h) && h.len() > 0))),
        (trim_view(input).len() > 0 && (url_parse(with_scheme(trim_view(input))) matches Some((scheme, host)) && (scheme == "http"@ || scheme == "https"@) && (host matches Some(h) && h.len() > 0))) ==> normalized(input) == Ok::<Seq<char>, Seq<char>>(
            with_scheme(trim_view(input)),
        ),
{
}

/// Whether `s` starts with `p`.
pub open spec fn has_prefix(s: Seq<char>, p: Seq<char>) -> bool {
    p.len() <= s.len() && s.take(p.len() as int) == p
}

/// With a leading scheme ending at `i`, the text `normalize_url` submits has
/// its first `:` at `i`, preceded by the lower-cased scheme and nothing the
/// parser would trim or skip.
proof fn lemma_plain_prefix(t: Seq<char>, i: int)
    requires
        0 <= i,
        scheme_end(t) == Some(i as nat),
    ensures
        plain_scheme_prefix(with_scheme(t), i),
        lower_ascii(with_scheme(t).take(i)) == with_scheme(t).take(i),
        occurs_at(with_scheme(t), "://"@, i),
{
    reveal_strlit("://");
    crate::text::lemma_find_from(t, "://"@, 0);
    let c = with_scheme(t);
    let head = lower_ascii(t.take(i));
    assert(c == head + t.skip(i));
    assert(c.subrange(i, i + 3) =~= t.subrange(i, i + 3));
    assert(t.subrange(i, i + 3)[0] == t[i]);
    assert forall|k: int| 0 <= k < i implies #[trigger] c[k] != ':' && c[k] != '\t' && c[k]
        != '\n' && c[k] != '\r' by {
        assert(is_scheme_char(t[k]));
        lemma_scheme_char_is_not_white_space(t[k]);
        assert(c[k] == ascii_lower(t[k]));
        let u = ascii_lower(t[k]) as u32;
        assert(is_scheme_char(ascii_lower(t[k])));
    }
    assert(is_scheme_char(t[0]));
    lemma_scheme_char_is_not_white_space(t[0]);
    assert(c[0] == ascii_lower(t[0]));
    assert forall|k: int| 0 <= k < i implies #[trigger] lower_ascii(c.take(i))[k] == c.take(i)[k] by {
        assert(is_scheme_char(t[k]));
        lemma_scheme_char_is_not_white_space(t[k]);
    }
    assert(lower_ascii(c.take(i)) =~= c.take(i));
}

/// A URL whose scheme text is `http` or `https` and is followed by `://`
/// starts with `http://` or `https://`.
proof fn lemma_web_prefix(c: Seq<char>, i: int)
    requires
        is_web_scheme(c.take(i)),
        occurs_at(c, "://"@, i),
    ensures
        has_prefix(c, "http://"@) || has_prefix(c, "https://"@),
{
    reveal_strlit("://");
    reveal_strlit("http");
    reveal_strlit("https");
    reveal_strlit("http://");
    reveal_strlit("https://");
    let sep = c.subrange(i, i + 3);
    assert(sep == "://"@);
    if c.take(i) == "http"@ {
        assert("http"@.len() == 4);
        assert(c.take(i).len() == i);
        assert(i == 4);
        assert forall|k: int| 0 <= k < 7 implies #[trigger] c.take(7)[k] == "http://"@[k] by {
            if k < 4 {
                assert(c.take(i)[k] == c[k]);
            } else {
                assert(sep[k - 4] == c[k]);
            }
        }
        assert(c.take(7) =~= "http://"@);
    } else {
        assert(c.take(i) == "https"@);
        assert("https"@.len() == 5);
        assert(c.take(i).len() == i);
        assert(i == 5);
        assert forall|k: int| 0 <= k < 8 implies #[trigger] c.take(8)[k] == "https://"@[k] by {
            if k < 5 {
                assert(c.take(i)[k] == c[k]);
            } else {
                assert(sep[k - 5] == c[k]);
            }
        }
        assert(c.take(8) =~= "https://"@);
    }
}

// ---------------------------------------------------------------------------
// openable_url

/// What `openable_url` answers for `input`.
pub open spec fn openable(input: Seq<char>) -> Result<Seq<char>, Seq<char>> {
    let t = trim_view(input);
    if t.len() == 0 {
        Err("This site has no address, so there is nothing to open."@)
    } else {
        match url_parse(t) {
            None => Err(
                "\""@ + t
                    + "\" is not a complete web address, so it cannot be opened. Edit the site to give it an http:// or https:// address."@,
            ),
            Some((scheme, host)) => if !is_web_scheme(scheme) {
                Err(
                    "Only http and https addresses can be opened, and this one uses \""@ + scheme
                        + "\". Nothing was opened."@,
                )
            } else if !has_host(host) {
                Err("\""@ + t + "\" has no host, so there is nothing to open."@)
            } else {
                Ok(input)
            },
        }
    }
}

/// Decide whether an address already in the site list may be handed to the
/// operating system to open, returning it byte-identical when it may.
///
/// Unlike `normalize_url` this repairs nothing: `example.com` is refused here,
/// because prepending a scheme to a stored value would turn an address the
/// user never approved into one this app opens.
pub fn openable_url(input: &str) -> (res: Result<String, String>)
    ensures
        result_view(res) == openable(input@),
        res is Ok ==> res->Ok_0@ == input@,
{
    let trimmed = trim(input);
    let tc = chars_of(trimmed);
    if tc.len() == 0 {
        return Err(String::from_str("This site has no address, so there is nothing to open."));
    }
    match parse_url(trimmed) {
        None => {
            let msg = String::from_str("\"").concat(trimmed).concat(
                "\" is not a complete web address, so it cannot be opened. Edit the site to give it an http:// or https:// address.",
            );
            Err(msg)
        },
        Some(parsed) => {
            if !web_scheme(&parsed.scheme) {
                let msg = String::from_str(
                    "Only http and https addresses can be opened, and this one uses \"",
                ).concat(parsed.scheme.as_str()).concat("\". Nothing was opened.");
                Err(msg)
            } else if !present_host(&parsed.host) {
                let msg = String::from_str("\"").concat(trimmed).concat(
                    "\" has no host, so there is nothing to open.",
                );
                Err(msg)
            } else {
                Ok(String::from_str(input))
            }
        },
    }
}

// ---------------------------------------------------------------------------
// Laws of the address rules

proof fn lemma_lead_end(s: Seq<char>, i: nat)
    requires
        i <= s.len(),
    ensures
        i <= lead_end(s, i) <= s.len(),
        lead_end(s, i) < s.len() ==> !is_white_space(s[lead_end(s, i) as int]),
    decreases s.len() - i,
{
    if i < s.len() && is_white_space(s[i as int]) {
        lemma_lead_end(s, i + 1);
    }
}

proof fn lemma_trail_end(s: Seq<char>, lo: nat, j: nat)
    requires
        lo <= j <= s.len(),
    ensures
        lo <= trail_end(s, lo, j) <= j,
        trail_end(s, lo, j) > lo ==> !is_white_space(s[trail_end(s, lo, j) - 1]),
    decreases j,
{
    if j > lo && is_white_space(s[j - 1]) {
        lemma_trail_end(s, lo, (j - 1) as nat);
    }
}

/// A trimmed text that is not empty starts and ends with a non-whitespace
/// character.
proof fn lemma_trim_ends(s: Seq<char>)
    ensures
        trim_view(s).len() > 0 ==> !is_white_space(trim_view(s)[0]) && !is_white_space(
            trim_view(s).last(),
        ),
{
    lemma_lead_end(s, 0);
    let lo = lead_end(s, 0);
    lemma_trail_end(s, lo, s.len());
}

/// Text that starts and ends with a non-whitespace character is its own trim.
proof fn lemma_trim_fixed(t: Seq<char>)
    requires
        t.len() > 0,
        !is_white_space(t[0]),
        !is_white_space(t.last()),
    ensures
        trim_view(t) == t,
{
    assert(lead_end(t, 0) == 0);
    assert(trail_end(t, 0, t.len()) == t.len());
    assert(t.subrange(0, t.len() as int) =~= t);
}

proof fn lemma_scheme_char_is_not_white_space(c: char)
    requires
        is_scheme_char(c),
    ensures
        !is_white_space(c),
        c != ':',
        is_scheme_char(ascii_lower(c)),
        ascii_lower(ascii_lower(c)) == ascii_lower(c),
{
    let u = c as u32;
    if 0x41 <= u <= 0x5a {
        let l = (u + 32) as char;
        assert(l as u32 == u + 32);
    }
}

/// The first occurrence of `pat` is at `k` when it occurs there and nowhere
/// before.
proof fn lemma_first_occurrence(s: Seq<char>, pat: Seq<char>, k: int)
    requires
        occurs_at(s, pat, k),
        forall|j: int| 0 <= j < k ==> !#[trigger] occurs_at(s, pat, j),
    ensures
        find_first(s, pat) == Some(k as nat),
{
    crate::text::lemma_find_from(s, pat, 0);
    match find_from(s, pat, 0) {
        Some(f) => {
            if f > k {
                assert(!occurs_at(s, pat, k));
            }
        },
        None => {
            assert(!occurs_at(s, pat, k));
        },
    }
}

/// The text `normalize_url` submits starts and ends with what the trimmed
/// input gave it, so it is its own trim, and it names its scheme as leading.
proof fn lemma_with_scheme(t: Seq<char>)
    requires
        t.len() > 0,
        !is_white_space(t[0]),
        !is_white_space(t.last()),
    ensures
        with_scheme(t).len() >= t.len(),
        trim_view(with_scheme(t)) == with_scheme(t),
        with_scheme(with_scheme(t)) == with_scheme(t),
{
    reveal_strlit("://");
    reveal_strlit("https://");
    reveal_strlit("https");
    let pat = "://"@;
    let c = with_scheme(t);
    match scheme_end(t) {
        Some(i) => {
            crate::text::lemma_find_from(t, pat, 0);
            let i = i as int;
            lemma_scheme_char_is_not_white_space(t[0]);
            let head = lower_ascii(t.take(i));
            assert(c == head + t.skip(i));
            assert(c.len() == t.len());
            assert(c[0] == ascii_lower(t[0]));
            assert(c.last() == t.last());
            lemma_trim_fixed(c);
            // The first `://` is still at `i`, with scheme characters before it.
            assert(c.subrange(i, i + 3) =~= t.subrange(i, i + 3));
            assert forall|j: int| 0 <= j < i implies #[trigger] is_scheme_char(c[j]) by {
                assert(is_scheme_char(t[j]));
                lemma_scheme_char_is_not_white_space(t[j]);
            }
            assert forall|j: int| 0 <= j < i implies !#[trigger] occurs_at(c, pat, j) by {
                lemma_scheme_char_is_not_white_space(t[j]);
                assert(c.subrange(j, j + 3)[0] == c[j]);
            }
            lemma_first_occurrence(c, pat, i);
            assert(scheme_end(c) == Some(i as nat));
            assert forall|j: int| 0 <= j < i implies #[trigger] lower_ascii(c.take(i))[j] == head[j] by {
                lemma_scheme_char_is_not_white_space(t[j]);
            }
            assert(lower_ascii(c.take(i)) =~= head);
            assert(c.skip(i) =~= t.skip(i));
        },
        None => {
            assert(c == "https://"@ + t);
            assert(c[0] == 'h');
            assert(c.last() == t.last());
            lemma_trim_fixed(c);
            assert(c.subrange(5, 8) =~= pat);
            assert forall|j: int| 0 <= j < 5 implies #[trigger] is_scheme_char(c[j]) by {}
            assert forall|j: int| 0 <= j < 5 implies !#[trigger] occurs_at(c, pat, j) by {
                assert(c.subrange(j, j + 3)[0] == c[j]);
            }
            lemma_first_occurrence(c, pat, 5);
            assert(scheme_end(c) == Some(5nat));
            assert(lower_ascii(c.take(5)) =~= "https"@);
            assert("https"@ + c.skip(5) =~= c);
        },
    }
}

/// Every address `normalize_url` accepts, `openable_url` accepts too and hands
/// back unchanged: what the add/edit form stores is always openable.
pub proof fn law_normalized_urls_are_openable(input: Seq<char>)
    requires
        normalized(input) is Ok,
    ensures
        openable(normalized(input)->Ok_0) == normalized(input),
{
    let t = trim_view(input);
    lemma_trim_ends(input);
    lemma_with_scheme(t);
    let c = with_scheme(t);
    assert(trim_view(c) == c);
    assert(normalized(input) == Ok::<Seq<char>, Seq<char>>(c));
}

/// Normalizing an address that is already normalized changes nothing, so
/// re-saving a stored address unchanged never counts as a change of address.
pub proof fn law_normalize_is_idempotent(input: Seq<char>)
    requires
        normalized(input) is Ok,
    ensures
        normalized(normalized(input)->Ok_0) == normalized(input),
{
    let t = trim_view(input);
    lemma_trim_ends(input);
    lemma_with_scheme(t);
    let c = with_scheme(t);
    assert(trim_view(c) == c);
    assert(normalized(input) == Ok::<Seq<char>, Seq<char>>(c));
}

} // verus!

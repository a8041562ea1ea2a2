//! Shaping what the window submits into site records, and the startup banner.

use vstd::prelude::*;

use crate::model::{clamp_interval, clamped, normalize_url, normalized, opt_view, Site};
use crate::store::{position, Store};
use crate::text::{chars_of, trim, trim_view};

verus! {

/// The label stored for what the user typed: trimmed, and absent when nothing
/// is left.
pub open spec fn label_of(label: Option<String>) -> Option<Seq<char>> {
    match label {
        Some(l) => if trim_view(l@).len() == 0 {
            None
        } else {
            Some(trim_view(l@))
        },
        None => None,
    }
}

/// Trim a label, and treat a blank one as no label at all.
pub fn empty_to_none(label: Option<String>) -> (res: Option<String>)
    ensures
        opt_view(res) == label_of(label),
{
    match label {
        Some(l) => {
            let t = trim(l.as_str());
            if chars_of(t).len() == 0 {
                None
            } else {
                Some(String::from_str(t))
            }
        },
        None => None,
    }
}

/// A lower-case hexadecimal digit.
pub open spec fn is_lower_hex(c: char) -> bool {
    let u = c as u32;
    (0x30 <= u <= 0x39) || (0x61 <= u <= 0x66)
}

/// The hyphenated lower-case rendering of a version-4 (random) UUID: 36
/// characters, hyphens at 8, 13, 18 and 23, lower-case hex digits everywhere
/// else, the version digit `4` at 14 and the variant digit (8, 9, a or b) at 19.
pub open spec fn is_v4_uuid(s: Seq<char>) -> bool {
    &&& s.len() == 36
    &&& forall|i: int|
        0 <= i < 36 ==> if i == 8 || i == 13 || i == 18 || i == 23 {
            #[trigger] s[i] == '-'
        } else {
            is_lower_hex(s[i])
        }
    &&& s[14] == '4'
    &&& (s[19] == '8' || s[19] == '9' || s[19] == 'a' || s[19] == 'b')
}

/// `uuid::Uuid::new_v4` rendered with `to_string`: a fresh random id in the
/// crate's hyphenated lower-case form, with the version and variant bits that
/// `new_v4` sets. Which id comes back is left open.
#[verifier::external_body]
fn new_site_id() -> (res: String)
    ensures
        is_v4_uuid(res@),
{
    uuid::Uuid::new_v4().to_string()
}

/// The site to add for what the user submitted: a fresh id, the normalized
/// address, the trimmed label and the interval raised to the floor. A bad
/// address is rejected outright with the reason to show.
pub fn new_site(url: &str, label: Option<String>, interval_secs: u64) -> (res: Result<Site, String>)
    ensures
        match normalized(url@) {
            Err(e) => res matches Err(msg) && msg@ == e,
            Ok(u) => res matches Ok(site) && {
                &&& is_v4_uuid(site.id@)
                &&& site.url@ == u
                &&& opt_view(site.label) == label_of(label)
                &&& site.interval_secs == clamped(interval_secs)
                &&& site.method_override is None
            },
        },
{
    let url = match normalize_url(url) {
        Ok(u) => u,
        Err(e) => return Err(e),
    };
    Ok(
        Site {
            id: new_site_id(),
            url,
            label: empty_to_none(label),
            interval_secs: clamp_interval(interval_secs),
            method_override: None,
        },
    )
}

/// Apply what the edit form submitted to the entry with this id: normalize
/// the address, trim the label, raise the interval to the floor, and let
/// `Store::replace` decide the learned request method from the entry as it
/// stands and write the result, all under the one `&mut` borrow of the list.
/// A bad address is rejected before the list is touched; an entry that is
/// gone cannot be edited, and nothing is written.
pub fn edit_site(
    store: &mut Store,
    id: &str,
    url: &str,
    label: Option<String>,
    interval_secs: u64,
) -> (res: Result<Site, String>)
    ensures
        match normalized(url@) {
            Err(e) => (res matches Err(msg) && msg@ == e) && final(store)@ == old(store)@,
            Ok(u) => match position(old(store)@, id@) {
                None => (res matches Err(msg) && msg@ == "That site no longer exists"@)
                    && final(store)@ == old(store)@,
                Some(i) => res matches Ok(site) && {
                    &&& site.id@ == id@
                    &&& site.url@ == u
                    &&& opt_view(site.label) == label_of(label)
                    &&& site.interval_secs == clamped(interval_secs)
                    &&& site.method_override == (if old(store)@[i as int].url@ == u {
                        old(store)@[i as int].method_override
                    } else {
                        None
                    })
                    &&& final(store)@ == old(store)@.update(i as int, site)
                },
            },
        },
{
    let url = match normalize_url(url) {
        Ok(u) => u,
        Err(e) => return Err(e),
    };
    match store.replace(id, url, empty_to_none(label), clamp_interval(interval_secs)) {
        Some(site) => Ok(site),
        None => Err(String::from_str("That site no longer exists")),
    }
}

/// The banner to show at startup: a problem with the saved list takes
/// precedence; otherwise a failure to turn on launch-at-login on first run.
pub open spec fn startup_banner(load_warning: Option<String>, autostart_error: Option<String>) -> Option<
    Seq<char>,
> {
    match load_warning {
        Some(w) => Some(w@),
        None => match autostart_error {
            Some(e) => Some(
                "Could not turn on Launch at login ("@ + e@
                    + "). Tick the box below to try again."@,
            ),
            None => None,
        },
    }
}

/// The startup banner: the store-load warning if there is one, else the
/// launch-at-login failure, worded so the user knows the checkbox fixes it.
pub fn startup_warning(load_warning: Option<String>, autostart_error: Option<String>) -> (res: Option<
    String,
>)
    ensures
        opt_view(res) == startup_banner(load_warning, autostart_error),
{
    match load_warning {
        Some(w) => Some(w),
        None => match autostart_error {
            Some(e) => Some(
                String::from_str("Could not turn on Launch at login (").concat(e.as_str()).concat(
                    "). Tick the box below to try again.",
                ),
            ),
            None => None,
        },
    }
}

} // verus!

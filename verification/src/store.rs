//! The site list: one entry per id, in the order the user added them.
//!
//! Writing the list to disk is the caller's part; every operation here says
//! exactly what it did to the list, so the caller knows what to persist.

use vstd::prelude::*;

use crate::model::{clamp_interval, clamped, Method, Site, MIN_INTERVAL_SECS};
use crate::text::{decimal, decimal_string, str_equal};

verus! {

// ---------------------------------------------------------------------------
// The model

/// No two entries share an id.
pub open spec fn distinct_ids(s: Seq<Site>) -> bool {
    forall|i: int, j: int|
        0 <= i < s.len() && 0 <= j < s.len() && i != j ==> #[trigger] s[i].id@ != #[trigger] s[j].id@
}

/// The first index at or after `i` whose entry has this id.
pub open spec fn position_from(s: Seq<Site>, id: Seq<char>, i: nat) -> Option<nat>
    decreases s.len() - i,
{
    if i >= s.len() {
        None
    } else if s[i as int].id@ == id {
        Some(i)
    } else {
        position_from(s, id, i + 1)
    }
}

/// The index of the entry with this id, if there is one.
pub open spec fn position(s: Seq<Site>, id: Seq<char>) -> Option<nat> {
    position_from(s, id, 0)
}

/// The entry with this id, if there is one.
pub open spec fn lookup(s: Seq<Site>, id: Seq<char>) -> Option<Site> {
    match position(s, id) {
        Some(i) => Some(s[i as int]),
        None => None,
    }
}

/// The first entry for each id, in order: what a reader going down the list
/// top-down would have seen.
pub open spec fn keep_first(s: Seq<Site>) -> Seq<Site>
    decreases s.len(),
{
    if s.len() == 0 {
        s
    } else {
        let kept = keep_first(s.drop_last());
        if position(kept, s.last().id@) is Some {
            kept
        } else {
            kept.push(s.last())
        }
    }
}

/// `site` with its interval raised to the floor.
pub open spec fn with_floor(site: Site) -> Site {
    Site { interval_secs: clamped(site.interval_secs), ..site }
}

/// Every entry with its interval raised to the floor.
pub open spec fn clamp_all(s: Seq<Site>) -> Seq<Site> {
    s.map_values(|site: Site| with_floor(site))
}

/// How many entries have an interval below the floor.
pub open spec fn count_below(s: Seq<Site>) -> nat
    decreases s.len(),
{
    if s.len() == 0 {
        0
    } else {
        count_below(s.drop_last()) + if s.last().interval_secs < MIN_INTERVAL_SECS {
            1nat
        } else {
            0nat
        }
    }
}

/// The entry an edit leaves behind: the new address, label and interval, and
/// the learned request method kept only when the address did not change.
pub open spec fn is_edit_of(
    new: Site,
    prev: Site,
    id: Seq<char>,
    url: String,
    label: Option<String>,
    interval_secs: u64,
) -> bool {
    &&& new.id@ == id
    &&& new.url == url
    &&& new.label == label
    &&& new.interval_secs == interval_secs
    &&& new.method_override == (if prev.url@ == url@ {
        prev.method_override
    } else {
        None
    })
}

// ---------------------------------------------------------------------------
// Lemmas about the model

/// With distinct ids, the position of an id is the one index that holds it.
pub proof fn lemma_position(s: Seq<Site>, id: Seq<char>, i: nat)
    requires
        i <= s.len(),
    ensures
        match position_from(s, id, i) {
            Some(k) => i <= k < s.len() && s[k as int].id@ == id && forall|j: int|
                i <= j < k ==> s[j].id@ != id,
            None => forall|j: int| i <= j < s.len() ==> s[j].id@ != id,
        },
    decreases s.len() - i,
{
    if i < s.len() && s[i as int].id@ != id {
        lemma_position(s, id, i + 1);
    }
}

/// With distinct ids, any index holding the id is its position.
pub proof fn lemma_position_unique(s: Seq<Site>, id: Seq<char>, k: int)
    requires
        distinct_ids(s),
        0 <= k < s.len(),
        s[k].id@ == id,
    ensures
        position(s, id) == Some(k as nat),
{
    lemma_position(s, id, 0);
    match position(s, id) {
        Some(p) => {
            if p != k {
                assert(s[p as int].id@ != s[k].id@);
            }
        },
        None => {},
    }
}

proof fn lemma_keep_first_distinct(s: Seq<Site>)
    ensures
        distinct_ids(keep_first(s)),
        forall|k: int| 0 <= k < keep_first(s).len() ==> s.contains(#[trigger] keep_first(s)[k]),
    decreases s.len(),
{
    if s.len() > 0 {
        let kept = keep_first(s.drop_last());
        lemma_keep_first_distinct(s.drop_last());
        assert forall|k: int| 0 <= k < kept.len() implies s.contains(#[trigger] kept[k]) by {
            let j = choose|j: int| 0 <= j < s.drop_last().len() && s.drop_last()[j] == kept[k];
            assert(s[j] == kept[k]);
        }
        if position(kept, s.last().id@) is None {
            lemma_position(kept, s.last().id@, 0);
            let pushed = kept.push(s.last());
            assert forall|i: int, j: int|
                0 <= i < pushed.len() && 0 <= j < pushed.len() && i != j implies #[trigger] pushed[i].id@
                != #[trigger] pushed[j].id@ by {
                if i < kept.len() && j < kept.len() {
                    assert(kept[i].id@ != kept[j].id@);
                }
            }
            assert forall|k: int| 0 <= k < pushed.len() implies s.contains(#[trigger] pushed[k]) by {
                if k == kept.len() {
                    assert(s[s.len() - 1] == pushed[k]);
                } else {
                    assert(s.contains(kept[k]));
                }
            }
        }
    }
}

proof fn lemma_clamp_all_distinct(s: Seq<Site>)
    requires
        distinct_ids(s),
    ensures
        distinct_ids(clamp_all(s)),
{
    let c = clamp_all(s);
    assert forall|i: int, j: int|
        0 <= i < c.len() && 0 <= j < c.len() && i != j implies #[trigger] c[i].id@
        != #[trigger] c[j].id@ by {
        assert(s[i].id@ != s[j].id@);
    }
}

/// Keeping the first entry of each id never lengthens a list.
proof fn lemma_keep_first_len(s: Seq<Site>)
    ensures
        keep_first(s).len() <= s.len(),
    decreases s.len(),
{
    if s.len() > 0 {
        lemma_keep_first_len(s.drop_last());
    }
}

// ---------------------------------------------------------------------------
// The store

/// Why an `add` did not happen.
///
/// Two variants rather than one string because they carry opposite promises to
/// the caller: one keeps the user's row and warns, the other must not show a
/// row at all.
#[derive(Debug)]
pub enum AddError {
    /// The list already holds this id. Nothing was applied, in memory or on
    /// disk. The payload names the clashing id.
    DuplicateId(String),
    /// The site is in the in-memory list; the save failed. The payload is the
    /// message the banner shows.
    Write(String),
}

/// What an edit hands back when there was an entry to edit.
pub struct Replaced {
    /// The entry as it now stands, after the request-method rule was applied.
    pub site: Site,
    /// Whether the save that followed succeeded. `Err` keeps the in-memory
    /// change standing; the caller shows a banner.
    pub write: Result<(), String>,
}

/// The site list, one entry per id.
pub struct Store {
    sites: Vec<Site>,
}

/// What loading a list hands back.
pub struct LoadOutcome {
    pub store: Store,
    /// Set when the list had to be adjusted (or, in the shell, could not be
    /// read). The caller surfaces this as a non-fatal banner.
    pub warning: Option<String>,
}

impl View for Store {
    type V = Seq<Site>;

    closed spec fn view(&self) -> Seq<Site> {
        self.sites@
    }
}

impl Store {
    #[verifier::type_invariant]
    spec fn ids_are_unique(self) -> bool {
        distinct_ids(self.sites@)
    }

    /// Index of the entry with this id.
    fn index_of(&self, id: &str) -> (res: Option<usize>)
        ensures
            opt_index(res) == position(self@, id@),
    {
        let n = self.sites.len();
        let mut i: usize = 0;
        while i < n
            invariant
                n == self.sites@.len(),
                i <= n,
                position(self.sites@, id@) == position_from(self.sites@, id@, i as nat),
            decreases n - i,
        {
            if str_equal(self.sites[i].id.as_str(), id) {
                return Some(i);
            }
            i = i + 1;
        }
        None
    }

    /// Every entry, in order.
    pub fn list(&self) -> (res: Vec<Site>)
        ensures
            res@ == self@,
            distinct_ids(self@),
    {
        proof {
            use_type_invariant(self);
        }
        let mut res: Vec<Site> = Vec::new();
        let n = self.sites.len();
        let mut i: usize = 0;
        while i < n
            invariant
                n == self.sites@.len(),
                i <= n,
                res@ == self.sites@.take(i as int),
            decreases n - i,
        {
            res.push(self.sites[i].clone());
            i = i + 1;
            assert(res@ =~= self.sites@.take(i as int));
        }
        assert(self.sites@.take(n as int) =~= self.sites@);
        res
    }

    /// The entry with this id, if there is one.
    pub fn get(&self, id: &str) -> (res: Option<Site>)
        ensures
            res == lookup(self@, id@),
            distinct_ids(self@),
    {
        proof {
            use_type_invariant(self);
        }
        match self.index_of(id) {
            Some(i) => {
                proof {
                    lemma_position(self.sites@, id@, 0);
                }
                Some(self.sites[i].clone())
            },
            None => None,
        }
    }

    /// Append a site. An id already in the list is refused before anything is
    /// changed, so a refusal leaves the list exactly as it was.
    pub fn add(&mut self, site: Site) -> (res: Result<(), AddError>)
        ensures
            position(old(self)@, site.id@) is Some ==> {
                &&& final(self)@ == old(self)@
                &&& res matches Err(AddError::DuplicateId(msg))
                &&& msg@ == "A site with id "@ + site.id@ + " already exists"@
            },
            position(old(self)@, site.id@) is None ==> {
                &&& final(self)@ == old(self)@.push(site)
                &&& res is Ok
            },
            distinct_ids(final(self)@),
    {
        proof {
            use_type_invariant(&*self);
        }
        match self.index_of(site.id.as_str()) {
            Some(_) => {
                let msg = String::from_str("A site with id ").concat(site.id.as_str()).concat(
                    " already exists",
                );
                Err(AddError::DuplicateId(msg))
            },
            None => {
                proof {
                    lemma_position(self.sites@, site.id@, 0);
                    let pushed = self.sites@.push(site);
                    assert forall|i: int, j: int|
                        0 <= i < pushed.len() && 0 <= j < pushed.len() && i != j implies #[trigger] pushed[i].id@
                        != #[trigger] pushed[j].id@ by {
                        if i < self.sites@.len() && j < self.sites@.len() {
                            assert(self.sites@[i].id@ != self.sites@[j].id@);
                        }
                    }
                }
                let mut sites: Vec<Site> = Vec::new();
                std::mem::swap(&mut sites, &mut self.sites);
                sites.push(site);
                self.sites = sites;
                Ok(())
            },
        }
    }

    /// Apply an edit: find the entry, decide the learned request method from
    /// it, and write the result, all under one `&mut self` borrow, so no other
    /// edit can slip between the read and the write.
    ///
    /// A changed address drops what was learned about HEAD support. An absent
    /// id changes nothing and is reported as `None`.
    pub fn replace(
        &mut self,
        id: &str,
        url: String,
        label: Option<String>,
        interval_secs: u64,
    ) -> (res: Option<Site>)
        ensures
            match position(old(self)@, id@) {
                None => res is None && final(self)@ == old(self)@,
                Some(i) => res matches Some(site) && is_edit_of(
                    site,
                    old(self)@[i as int],
                    id@,
                    url,
                    label,
                    interval_secs,
                ) && final(self)@ == old(self)@.update(i as int, site),
            },
            distinct_ids(final(self)@),
    {
        proof {
            use_type_invariant(&*self);
        }
        match self.index_of(id) {
            None => None,
            Some(i) => {
                proof {
                    lemma_position(self.sites@, id@, 0);
                }
                let method_override = if self.sites[i].url == url {
                    self.sites[i].method_override
                } else {
                    None
                };
                let site = Site {
                    id: String::from_str(id),
                    url,
                    label,
                    interval_secs,
                    method_override,
                };
                let result = site.clone();
                proof {
                    let updated = self.sites@.update(i as int, site);
                    assert forall|a: int, b: int|
                        0 <= a < updated.len() && 0 <= b < updated.len() && a != b implies #[trigger] updated[a].id@
                        != #[trigger] updated[b].id@ by {
                        assert(self.sites@[a].id@ != self.sites@[b].id@);
                    }
                }
                let mut sites: Vec<Site> = Vec::new();
                std::mem::swap(&mut sites, &mut self.sites);
                sites.set(i, site);
                self.sites = sites;
                Some(result)
            },
        }
    }

    /// Replace the site with a matching id, preserving list order. A site that
    /// is not present is a no-op.
    pub fn update(&mut self, site: Site)
        ensures
            match position(old(self)@, site.id@) {
                Some(i) => final(self)@ == old(self)@.update(i as int, site),
                None => final(self)@ == old(self)@,
            },
            distinct_ids(final(self)@),
    {
        proof {
            use_type_invariant(&*self);
        }
        match self.index_of(site.id.as_str()) {
            Some(i) => {
                proof {
                    lemma_position(self.sites@, site.id@, 0);
                    let updated = self.sites@.update(i as int, site);
                    assert forall|a: int, b: int|
                        0 <= a < updated.len() && 0 <= b < updated.len() && a != b implies #[trigger] updated[a].id@
                        != #[trigger] updated[b].id@ by {
                        assert(self.sites@[a].id@ != self.sites@[b].id@);
                    }
                }
                let mut sites: Vec<Site> = Vec::new();
                std::mem::swap(&mut sites, &mut self.sites);
                sites.set(i, site);
                self.sites = sites;
            },
            None => {},
        }
    }

    /// Remove the site with this id; every other entry stays, in order.
    pub fn delete(&mut self, id: &str)
        ensures
            match position(old(self)@, id@) {
                Some(i) => final(self)@ == old(self)@.remove(i as int),
                None => final(self)@ == old(self)@,
            },
            distinct_ids(final(self)@),
    {
        proof {
            use_type_invariant(&*self);
        }
        match self.index_of(id) {
            Some(i) => {
                proof {
                    lemma_position(self.sites@, id@, 0);
                    let removed = self.sites@.remove(i as int);
                    assert forall|a: int, b: int|
                        0 <= a < removed.len() && 0 <= b < removed.len() && a != b implies #[trigger] removed[a].id@
                        != #[trigger] removed[b].id@ by {
                        let a0 = if a < i { a } else { a + 1 };
                        let b0 = if b < i { b } else { b + 1 };
                        assert(removed[a] == self.sites@[a0]);
                        assert(removed[b] == self.sites@[b0]);
                        assert(self.sites@[a0].id@ != self.sites@[b0].id@);
                    }
                }
                let mut sites: Vec<Site> = Vec::new();
                std::mem::swap(&mut sites, &mut self.sites);
                sites.remove(i);
                self.sites = sites;
            },
            None => {},
        }
    }
}

/// An optional index as a natural number.
pub open spec fn opt_index(o: Option<usize>) -> Option<nat> {
    match o {
        Some(i) => Some(i as nat),
        None => None,
    }
}

// ---------------------------------------------------------------------------
// Loading

/// Index of the entry with this id in a plain list.
fn index_in(sites: &Vec<Site>, id: &str) -> (res: Option<usize>)
    ensures
        opt_index(res) == position(sites@, id@),
{
    let n = sites.len();
    let mut i: usize = 0;
    while i < n
        invariant
            n == sites@.len(),
            i <= n,
            position(sites@, id@) == position_from(sites@, id@, i as nat),
        decreases n - i,
    {
        if str_equal(sites[i].id.as_str(), id) {
            return Some(i);
        }
        i = i + 1;
    }
    None
}

/// Keep the first entry for each id, and report how many later ones were
/// dropped. The later entry loses, so the result is what a reader going down
/// the file top-down would have seen.
fn drop_duplicate_ids(sites: Vec<Site>) -> (res: (Vec<Site>, usize))
    ensures
        res.0@ == keep_first(sites@),
        res.1 == sites@.len() - keep_first(sites@).len(),
{
    let n = sites.len();
    let mut kept: Vec<Site> = Vec::new();
    let mut i: usize = 0;
    while i < n
        invariant
            n == sites@.len(),
            i <= n,
            kept@ == keep_first(sites@.take(i as int)),
        decreases n - i,
    {
        proof {
            assert(sites@.take(i + 1).drop_last() =~= sites@.take(i as int));
            assert(sites@.take(i + 1).last() == sites@[i as int]);
        }
        if index_in(&kept, sites[i].id.as_str()).is_none() {
            kept.push(sites[i].clone());
        }
        i = i + 1;
    }
    assert(sites@.take(n as int) =~= sites@);
    proof {
        lemma_keep_first_len(sites@);
    }
    let dropped = n - kept.len();
    (kept, dropped)
}

/// Raise every site whose interval is below the floor up to it, and report how
/// many were adjusted.
fn clamp_intervals(sites: Vec<Site>) -> (res: (Vec<Site>, usize))
    ensures
        res.0@ == clamp_all(sites@),
        res.1 == count_below(sites@),
{
    let n = sites.len();
    let mut out: Vec<Site> = Vec::new();
    let mut clamped_count: usize = 0;
    let mut i: usize = 0;
    while i < n
        invariant
            n == sites@.len(),
            i <= n,
            out@ == clamp_all(sites@.take(i as int)),
            clamped_count == count_below(sites@.take(i as int)),
            clamped_count <= i,
        decreases n - i,
    {
        proof {
            assert(sites@.take(i + 1).drop_last() =~= sites@.take(i as int));
            assert(sites@.take(i + 1).last() == sites@[i as int]);
        }
        let mut s = sites[i].clone();
        let floored = clamp_interval(s.interval_secs);
        if floored != s.interval_secs {
            s.interval_secs = floored;
            clamped_count = clamped_count + 1;
        }
        out.push(s);
        i = i + 1;
        assert(out@ =~= clamp_all(sites@.take(i as int)));
    }
    assert(sites@.take(n as int) =~= sites@);
    (out, clamped_count)
}

/// `entry` or `entries`.
pub open spec fn entries_word(n: nat) -> Seq<char> {
    if n == 1 { "entry"@ } else { "entries"@ }
}

/// The banner text for entries dropped as duplicates.
pub open spec fn duplicates_warning(n: nat) -> Seq<char> {
    "sites.json held "@ + decimal(n) + " "@ + entries_word(n)
        + " sharing an id with an earlier one. The first of each was kept and the rest ignored; the existing file has been left alone."@
}

/// The banner text for intervals raised to the floor.
pub open spec fn floor_warning(n: nat) -> Seq<char> {
    decimal(n) + " "@ + entries_word(n)
        + " in sites.json had an interval_secs below the minimum ("@ + decimal(
        MIN_INTERVAL_SECS as nat,
    ) + "s) and "@ + (if n == 1 { "has"@ } else { "have"@ }) + " been raised to the floor."@
}

/// The banner for a list that lost `dropped` duplicates and had `clamped`
/// intervals raised, or `None` when nothing was adjusted.
pub open spec fn load_warning(dropped: nat, clamped: nat) -> Option<Seq<char>> {
    if dropped > 0 && clamped > 0 {
        Some(duplicates_warning(dropped) + " "@ + floor_warning(clamped))
    } else if dropped > 0 {
        Some(duplicates_warning(dropped))
    } else if clamped > 0 {
        Some(floor_warning(clamped))
    } else {
        None
    }
}

fn entries_text(n: usize) -> (res: &'static str)
    ensures
        res@ == entries_word(n as nat),
{
    if n == 1 { "entry" } else { "entries" }
}

/// Turn a freshly read list into a store: keep the first entry for each id,
/// raise every interval to the floor, and say what was adjusted.
///
/// `Store::add` refuses an id the list already holds, but a hand-edited,
/// restored or imported file bypasses that; enforcing both rules here means
/// they hold for every store, however the list arrived.
pub fn load_sites(sites: Vec<Site>) -> (res: LoadOutcome)
    ensures
        res.store@ == clamp_all(keep_first(sites@)),
        crate::model::opt_view(res.warning) == load_warning(
            (sites@.len() - keep_first(sites@).len()) as nat,
            count_below(keep_first(sites@)),
        ),
        distinct_ids(res.store@),
        forall|k: int|
            0 <= k < res.store@.len() ==> #[trigger] res.store@[k].interval_secs
                >= MIN_INTERVAL_SECS,
{
    let ghost original = sites@;
    let (sites, dropped) = drop_duplicate_ids(sites);
    let (sites, clamped_count) = clamp_intervals(sites);
    proof {
        lemma_keep_first_distinct(original);
        lemma_clamp_all_distinct(keep_first(original));
    }
    let mut warning: Option<String> = None;
    if dropped > 0 {
        let w = String::from_str("sites.json held ").concat(decimal_string(dropped as u64).as_str()).concat(
            " ",
        ).concat(entries_text(dropped)).concat(
            " sharing an id with an earlier one. The first of each was kept and the rest ignored; the existing file has been left alone.",
        );
        warning = Some(w);
    }
    if clamped_count > 0 {
        let verb = if clamped_count == 1 { "has" } else { "have" };
        let w = decimal_string(clamped_count as u64).concat(" ").concat(entries_text(clamped_count)).concat(
            " in sites.json had an interval_secs below the minimum (",
        ).concat(decimal_string(MIN_INTERVAL_SECS).as_str()).concat("s) and ").concat(verb).concat(
            " been raised to the floor.",
        );
        warning = match warning {
            Some(first) => Some(first.concat(" ").concat(w.as_str())),
            None => Some(w),
        };
    }
    LoadOutcome { store: Store { sites }, warning }
}

/// Record that this site needs GET, so later checks skip the HEAD probe. A site
/// that is no longer in the list is left absent. Returns whether an entry was
/// changed (and so whether there is anything to save).
pub fn persist_get_fallback(store: &mut Store, id: &str) -> (res: bool)
    ensures
        match lookup(old(store)@, id@) {
            Some(site) => res && final(store)@ == old(store)@.update(
                position(old(store)@, id@).unwrap() as int,
                Site { method_override: Some(Method::Get), ..site },
            ),
            None => !res && final(store)@ == old(store)@,
        },
{
    match store.get(id) {
        Some(mut site) => {
            site.method_override = Some(Method::Get);
            proof {
                lemma_position(old(store)@, id@, 0);
            }
            store.update(site);
            true
        },
        None => false,
    }
}

// ---------------------------------------------------------------------------
// Laws of the site list

proof fn lemma_push_distinct(s: Seq<Site>, site: Site)
    requires
        distinct_ids(s),
        position(s, site.id@) is None,
    ensures
        distinct_ids(s.push(site)),
{
    lemma_position(s, site.id@, 0);
    let pushed = s.push(site);
    assert forall|i: int, j: int|
        0 <= i < pushed.len() && 0 <= j < pushed.len() && i != j implies #[trigger] pushed[i].id@
        != #[trigger] pushed[j].id@ by {
        if i < s.len() && j < s.len() {
            assert(s[i].id@ != s[j].id@);
        }
    }
}

/// Reading an id back from a list where no entry holds it gives nothing, and
/// reading it from a list where entry `k` holds it gives entry `k`.
proof fn lemma_lookup(s: Seq<Site>, id: Seq<char>)
    requires
        distinct_ids(s),
    ensures
        (forall|k: int| 0 <= k < s.len() ==> s[k].id@ != id) ==> lookup(s, id) is None,
        forall|k: int| 0 <= k < s.len() && s[k].id@ == id ==> lookup(s, id) == Some(s[k]),
{
    lemma_position(s, id, 0);
    assert forall|k: int| 0 <= k < s.len() && s[k].id@ == id implies lookup(s, id) == Some(
        s[k],
    ) by {
        lemma_position_unique(s, id, k);
    }
}

/// After a successful add, reading the new id gives the site that was added,
/// and reading any other id gives what it gave before.
pub proof fn law_get_after_add(s: Seq<Site>, site: Site, other: Seq<char>)
    requires
        distinct_ids(s),
        position(s, site.id@) is None,
    ensures
        lookup(s.push(site), site.id@) == Some(site),
        other != site.id@ ==> lookup(s.push(site), other) == lookup(s, other),
{
    lemma_push_distinct(s, site);
    let pushed = s.push(site);
    lemma_lookup(pushed, site.id@);
    assert(pushed[s.len() as int] == site);
    lemma_lookup(pushed, other);
    lemma_lookup(s, other);
    if other != site.id@ {
        if exists|k: int| 0 <= k < s.len() && s[k].id@ == other {
            let k = choose|k: int| 0 <= k < s.len() && s[k].id@ == other;
            assert(pushed[k] == s[k]);
        } else {
            assert forall|k: int| 0 <= k < pushed.len() implies pushed[k].id@ != other by {
                if k < s.len() {
                    assert(pushed[k] == s[k]);
                }
            }
        }
    }
}

/// After an edit or an update of entry `i`, reading its id gives the new
/// entry, and reading any other id gives what it gave before.
pub proof fn law_get_after_edit(s: Seq<Site>, i: int, new: Site, other: Seq<char>)
    requires
        distinct_ids(s),
        0 <= i < s.len(),
        new.id@ == s[i].id@,
    ensures
        distinct_ids(s.update(i, new)),
        lookup(s.update(i, new), new.id@) == Some(new),
        other != new.id@ ==> lookup(s.update(i, new), other) == lookup(s, other),
{
    let u = s.update(i, new);
    assert forall|a: int, b: int|
        0 <= a < u.len() && 0 <= b < u.len() && a != b implies #[trigger] u[a].id@
        != #[trigger] u[b].id@ by {
        assert(s[a].id@ != s[b].id@);
    }
    lemma_lookup(u, new.id@);
    assert(u[i] == new);
    lemma_lookup(u, other);
    lemma_lookup(s, other);
    if other != new.id@ {
        if exists|k: int| 0 <= k < s.len() && s[k].id@ == other {
            let k = choose|k: int| 0 <= k < s.len() && s[k].id@ == other;
            assert(u[k] == s[k]);
        } else {
            assert forall|k: int| 0 <= k < u.len() implies u[k].id@ != other by {
                if k != i {
                    assert(u[k] == s[k]);
                }
            }
        }
    }
}

/// After a delete, the id reads back as absent, and every other id reads back
/// as it did before.
pub proof fn law_get_after_delete(s: Seq<Site>, i: int, other: Seq<char>)
    requires
        distinct_ids(s),
        0 <= i < s.len(),
    ensures
        lookup(s.remove(i), s[i].id@) is None,
        other != s[i].id@ ==> lookup(s.remove(i), other) == lookup(s, other),
{
    let r = s.remove(i);
    assert forall|a: int, b: int|
        0 <= a < r.len() && 0 <= b < r.len() && a != b implies #[trigger] r[a].id@
        != #[trigger] r[b].id@ by {
        let a0 = if a < i { a } else { a + 1 };
        let b0 = if b < i { b } else { b + 1 };
        assert(r[a] == s[a0]);
        assert(r[b] == s[b0]);
        assert(s[a0].id@ != s[b0].id@);
    }
    lemma_lookup(r, s[i].id@);
    assert forall|k: int| 0 <= k < r.len() implies r[k].id@ != s[i].id@ by {
        let k0 = if k < i { k } else { k + 1 };
        assert(r[k] == s[k0]);
        assert(s[k0].id@ != s[i].id@);
    }
    lemma_lookup(r, other);
    lemma_lookup(s, other);
    if other != s[i].id@ {
        if exists|k: int| 0 <= k < s.len() && s[k].id@ == other {
            let k = choose|k: int| 0 <= k < s.len() && s[k].id@ == other;
            let k1 = if k < i { k } else { k - 1 };
            assert(r[k1] == s[k]);
        } else {
            assert forall|k: int| 0 <= k < r.len() implies r[k].id@ != other by {
                let k0 = if k < i { k } else { k + 1 };
                assert(r[k] == s[k0]);
            }
        }
    }
}

/// Loading a list that already has one entry per id and no interval below the
/// floor changes nothing and warns about nothing.
pub proof fn law_load_keeps_a_clean_list(s: Seq<Site>)
    requires
        distinct_ids(s),
        forall|k: int| 0 <= k < s.len() ==> #[trigger] s[k].interval_secs >= MIN_INTERVAL_SECS,
    ensures
        keep_first(s) == s,
        clamp_all(keep_first(s)) == s,
        s.len() - keep_first(s).len() == 0,
        load_warning((s.len() - keep_first(s).len()) as nat, count_below(keep_first(s))) is None,
    decreases s.len(),
{
    if s.len() > 0 {
        let p = s.drop_last();
        assert forall|a: int, b: int|
            0 <= a < p.len() && 0 <= b < p.len() && a != b implies #[trigger] p[a].id@
            != #[trigger] p[b].id@ by {
            assert(s[a].id@ != s[b].id@);
        }
        assert forall|k: int| 0 <= k < p.len() implies #[trigger] p[k].interval_secs
            >= MIN_INTERVAL_SECS by {
            assert(p[k] == s[k]);
        }
        law_load_keeps_a_clean_list(p);
        lemma_lookup(p, s.last().id@);
        lemma_position(p, s.last().id@, 0);
        assert forall|k: int| 0 <= k < p.len() implies p[k].id@ != s.last().id@ by {
            assert(s[k].id@ != s[s.len() - 1].id@);
        }
        assert(position(p, s.last().id@) is None);
        assert(keep_first(s) == keep_first(p).push(s.last()));
        assert(p.push(s.last()) =~= s);
    }
    lemma_count_below_zero(s);
    assert(clamp_all(keep_first(s)) =~= s);
}

proof fn lemma_count_below_zero(s: Seq<Site>)
    requires
        forall|k: int| 0 <= k < s.len() ==> #[trigger] s[k].interval_secs >= MIN_INTERVAL_SECS,
    ensures
        count_below(s) == 0,
    decreases s.len(),
{
    if s.len() > 0 {
        let p = s.drop_last();
        assert forall|k: int| 0 <= k < p.len() implies #[trigger] p[k].interval_secs
            >= MIN_INTERVAL_SECS by {
            assert(p[k] == s[k]);
        }
        lemma_count_below_zero(p);
        assert(s[s.len() - 1].interval_secs >= MIN_INTERVAL_SECS);
    }
}

} // verus!

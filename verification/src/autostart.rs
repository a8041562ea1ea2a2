//! The login item: which executable path to record, reading back the one that
//! is recorded, and whether it needs rewriting. Reading and writing the plist
//! file is the shell's part.

use vstd::prelude::*;

use crate::model::opt_view;
use crate::text::{chars_of, split_once, split_once_view, str_equal, trim, trim_view};

verus! {

// ---------------------------------------------------------------------------
// Paths, through std::path

/// The components of `path` as `std::path::Path::components` yields them,
/// each rendered as text (the root as `/`).
pub uninterp spec fn path_components(path: Seq<char>) -> Seq<Seq<char>>;

/// The path `std::path::PathBuf` builds by pushing each of `parts` in turn,
/// rendered as text.
pub uninterp spec fn path_from_components(parts: Seq<Seq<char>>) -> Seq<char>;

/// The texts of a list of strings.
pub open spec fn texts(v: Seq<String>) -> Seq<Seq<char>> {
    v.map_values(|s: String| s@)
}

/// `std::path::Path::components`, each component rendered with
/// `to_string_lossy`. Claims that the result is the one `path_components`
/// names for this text.
#[verifier::external_body]
fn components(path: &str) -> (res: Vec<String>)
    ensures
        texts(res@) == path_components(path@),
{
    std::path::Path::new(path).components().map(
        |c| c.as_os_str().to_string_lossy().into_owned(),
    ).collect()
}

/// `std::path::PathBuf::extend` over `parts`, rendered with
/// `to_string_lossy`. Claims that the result is the one
/// `path_from_components` names for these parts.
#[verifier::external_body]
fn join_components(parts: &Vec<String>) -> (res: String)
    ensures
        res@ == path_from_components(texts(parts@)),
{
    let mut out = std::path::PathBuf::new();
    out.extend(parts.iter());
    out.to_string_lossy().into_owned()
}

/// The deepest index below `j` holding a `Cellar` component with at least
/// three components after it (formula, version, and a non-empty remainder).
pub open spec fn deepest_cellar_below(parts: Seq<Seq<char>>, j: nat) -> Option<nat>
    decreases j,
{
    if j == 0 {
        None
    } else {
        let i = (j - 1) as nat;
        if parts[i as int] == "Cellar"@ && i + 3 < parts.len() {
            Some(i)
        } else {
            deepest_cellar_below(parts, i)
        }
    }
}

/// The Homebrew keg path `parts`, rewritten to the version-independent `opt`
/// path: everything up to `Cellar`, then `opt`, the formula, and everything
/// after the version.
pub open spec fn opt_parts(parts: Seq<Seq<char>>) -> Option<Seq<Seq<char>>> {
    match deepest_cellar_below(parts, parts.len()) {
        Some(i) => Some(
            parts.take(i as int) + seq!["opt"@, parts[(i + 1) as int]] + parts.skip((i + 3) as int),
        ),
        None => None,
    }
}

/// What `stable_path` proposes for the executable at `running`.
pub open spec fn stable(running: Seq<char>) -> Option<Seq<char>> {
    match opt_parts(path_components(running)) {
        Some(p) => Some(path_from_components(p)),
        None => None,
    }
}

proof fn lemma_deepest_cellar(parts: Seq<Seq<char>>, j: nat)
    requires
        j <= parts.len(),
    ensures
        deepest_cellar_below(parts, j) matches Some(i) ==> i < j && parts[i as int] == "Cellar"@ && i
            + 3 < parts.len(),
    decreases j,
{
    if j > 0 {
        lemma_deepest_cellar(parts, (j - 1) as nat);
    }
}

/// Rewrite a Homebrew keg path to the version-independent `opt/` path that
/// Homebrew relinks on every upgrade.
///
/// Anchored on the deepest `Cellar` component rather than a fixed prefix, so
/// every Homebrew prefix works and a directory a user happened to name
/// `Cellar` higher up cannot capture a keg path below it. `None` means this
/// install has no version-independent form. Pure: this proposes a path, it
/// never checks whether one is there.
pub fn stable_path(running: &str) -> (res: Option<String>)
    ensures
        opt_view(res) == stable(running@),
{
    let parts = components(running);
    let n = parts.len();
    let ghost ps = texts(parts@);
    let mut j: usize = n;
    let mut found: Option<usize> = None;
    let cellar = String::from_str("Cellar");
    while j > 0
        invariant_except_break
            n == parts@.len(),
            ps == texts(parts@),
            ps.len() == n,
            cellar@ == "Cellar"@,
            j <= n,
            found is None,
            deepest_cellar_below(ps, n as nat) == deepest_cellar_below(ps, j as nat),
        ensures
            match found {
                Some(i) => deepest_cellar_below(ps, n as nat) == Some(i as nat),
                None => deepest_cellar_below(ps, n as nat) is None,
            },
        decreases j,
    {
        let i = j - 1;
        assert(ps[i as int] == parts@[i as int]@);
        let is_cellar = parts[i] == cellar;
        assert(is_cellar == (ps[i as int] == "Cellar"@));
        if is_cellar && 3 < n && i < n - 3 {
            found = Some(i);
            break;
        }
        j = i;
    }
    let i = match found {
        Some(i) => i,
        None => return None,
    };
    proof {
        lemma_deepest_cellar(ps, n as nat);
    }
    let mut out: Vec<String> = Vec::new();
    let mut k: usize = 0;
    while k < i
        invariant
            n == parts@.len(),
            ps == texts(parts@),
            ps.len() == n,
            i + 3 < n,
            k <= i,
            out@.len() == k,
            texts(out@) == ps.take(k as int),
        decreases i - k,
    {
        let c = parts[k].clone();
        let ghost before = out@;
        out.push(c);
        assert(texts(out@)[k as int] == c@);
        k = k + 1;
        assert(texts(out@) =~= ps.take(k as int));
    }
    out.push(String::from_str("opt"));
    out.push(parts[i + 1].clone());
    let mut k: usize = i + 3;
    let ghost head = ps.take(i as int) + seq!["opt"@, ps[i + 1]];
    assert(texts(out@) =~= head);
    while k < n
        invariant
            n == parts@.len(),
            ps == texts(parts@),
            ps.len() == n,
            i + 3 <= k <= n,
            out@.len() == i + 2 + (k - (i + 3)),
            head.len() == i + 2,
            texts(out@) == head + ps.subrange(i + 3, k as int),
        decreases n - k,
    {
        let c = parts[k].clone();
        let ghost before = out@;
        out.push(c);
        assert(out@ == before.push(c));
        assert(texts(out@)[out@.len() - 1] == ps[k as int]);
        assert forall|m: int| 0 <= m < before.len() implies texts(out@)[m] == texts(before)[m] by {
            assert(out@[m] == before[m]);
        }
        k = k + 1;
        let ghost rhs = head + ps.subrange(i + 3, k as int);
        assert(texts(out@).len() == rhs.len());
        assert forall|m: int| 0 <= m < rhs.len() implies texts(out@)[m] == rhs[m] by {
            if m < before.len() {
                assert(texts(before)[m] == (head + ps.subrange(i + 3, k - 1))[m]);
            }
        }
        assert(texts(out@) =~= head + ps.subrange(i + 3, k as int));
    }
    assert(ps.subrange(i + 3, n as int) =~= ps.skip(i + 3));
    Some(join_components(&out))
}

/// Whether two paths name the same place component by component, as
/// `std::path::Path`'s equality compares them.
pub open spec fn same_path(a: Seq<char>, b: Seq<char>) -> bool {
    path_components(a) == path_components(b)
}

fn same_components(a: &str, b: &str) -> (res: bool)
    ensures
        res == same_path(a@, b@),
{
    let ca = components(a);
    let cb = components(b);
    assert(texts(ca@).len() == ca@.len() && texts(cb@).len() == cb@.len());
    if ca.len() != cb.len() {
        return false;
    }
    let mut k: usize = 0;
    while k < ca.len()
        invariant
            ca@.len() == cb@.len(),
            texts(ca@) == path_components(a@),
            texts(cb@) == path_components(b@),
            k <= ca@.len(),
            forall|m: int| 0 <= m < k ==> ca@[m]@ == cb@[m]@,
        decreases ca@.len() - k,
    {
        if !str_equal(ca[k].as_str(), cb[k].as_str()) {
            assert(texts(ca@)[k as int] != texts(cb@)[k as int]);
            return false;
        }
        k = k + 1;
    }
    assert(texts(ca@) =~= texts(cb@));
    true
}

/// The path to record in the login item: the derived `opt/` path only if it
/// exists and resolves back to the very copy that is running (`resolved` is
/// what the shell got canonicalising `stable`); the running path otherwise.
/// That second condition is what makes `stable_path` safe to state loosely: a
/// coincidental `Cellar` component yields a path that is either not there or
/// not this application, and both fall back.
pub fn desired_path(running: &str, stable: Option<String>, resolved: Option<String>) -> (res: String)
    ensures
        res@ == (match (stable, resolved) {
            (Some(s), Some(r)) => if same_path(r@, running@) {
                s@
            } else {
                running@
            },
            _ => running@,
        }),
{
    match (stable, resolved) {
        (Some(s), Some(r)) => {
            if same_components(r.as_str(), running) {
                s
            } else {
                String::from_str(running)
            }
        },
        _ => String::from_str(running),
    }
}

// ---------------------------------------------------------------------------
// Reading the recorded path back

/// The executable path recorded in a login item's XML: the first `<string>`
/// inside the `<array>` that follows the `ProgramArguments` key, trimmed.
/// Anything not of that shape records nothing.
pub open spec fn recorded(plist: Seq<char>) -> Option<Seq<char>> {
    match split_once_view(plist, "<key>ProgramArguments</key>"@) {
        None => None,
        Some((_, after_key)) => match split_once_view(after_key, "<array>"@) {
            None => None,
            Some((_, rest)) => {
                let array = match split_once_view(rest, "</array>"@) {
                    Some((body, _)) => body,
                    None => rest,
                };
                match split_once_view(array, "<string>"@) {
                    None => None,
                    Some((_, from_value)) => match split_once_view(from_value, "</string>"@) {
                        None => None,
                        Some((value, _)) => if trim_view(value).len() == 0 {
                            None
                        } else {
                            Some(trim_view(value))
                        },
                    },
                }
            },
        },
    }
}

/// Pull the recorded executable path out of a login item's XML.
///
/// The search starts after the `ProgramArguments` key, so the `Label` string
/// earlier in the file is never mistaken for the program path, and it is
/// bounded by `</array>`, so a string belonging to a later key is not read as
/// the program either.
pub fn recorded_path(plist: &str) -> (res: Option<String>)
    ensures
        opt_view(res) == recorded(plist@),
{
    let after_key = match split_once(plist, "<key>ProgramArguments</key>") {
        Some((_, a)) => a,
        None => return None,
    };
    let rest = match split_once(after_key, "<array>") {
        Some((_, a)) => a,
        None => return None,
    };
    let array = match split_once(rest, "</array>") {
        Some((body, _)) => body,
        None => rest,
    };
    let from_value = match split_once(array, "<string>") {
        Some((_, a)) => a,
        None => return None,
    };
    let value = match split_once(from_value, "</string>") {
        Some((v, _)) => v,
        None => return None,
    };
    let value = trim(value);
    if chars_of(value).len() == 0 {
        None
    } else {
        Some(String::from_str(value))
    }
}

/// Whether the registration on disk names another path than the one we want.
pub open spec fn repair_needed(plist: Option<Seq<char>>, desired: Seq<char>) -> bool {
    match plist {
        Some(p) => match recorded(p) {
            Some(r) => r != desired,
            None => false,
        },
        None => false,
    }
}

/// Whether the registration on disk should be rewritten: only when a path was
/// read from it and differs from the one we want. Exact text equality, not a
/// canonicalised comparison: canonicalising a path to a deleted binary fails,
/// and treating that failure as "equal" would hide the very breakage this
/// exists to repair. An absent or unreadable registration is never repaired.
pub fn needs_repair(plist: Option<&str>, desired: &str) -> (res: bool)
    ensures
        res == repair_needed(
            match plist {
                Some(p) => Some(p@),
                None => None,
            },
            desired@,
        ),
        res <==> (plist matches Some(p) && (recorded(p@) matches Some(r) && r != desired@)),
{
    match plist {
        Some(p) => match recorded_path(p) {
            Some(r) => !str_equal(r.as_str(), desired),
            None => false,
        },
        None => false,
    }
}

/// Whenever a path is read from the registration, it is rewritten exactly when
/// that path differs, as text, from the wanted one, whatever the paths hold;
/// when none can be read, it never is.
pub proof fn law_repair_exactly_when_the_recorded_path_differs(plist: Seq<char>, desired: Seq<char>)
    ensures
        recorded(plist) matches Some(r) ==> (repair_needed(Some(plist), desired) <==> r
            != desired),
        recorded(plist) is None ==> !repair_needed(Some(plist), desired),
{
}

/// Repair never creates a registration: with nothing on disk there is
/// nothing to rewrite, whatever path is wanted.
pub proof fn law_absent_registration_is_never_repaired(desired: Seq<char>)
    ensures
        !repair_needed(None, desired),
{
}

/// A registration that already names the wanted path is left alone.
pub proof fn law_current_registration_is_left_alone(plist: Seq<char>)
    requires
        recorded(plist) is Some,
    ensures
        !repair_needed(Some(plist), recorded(plist).unwrap()),
{
}

} // verus!

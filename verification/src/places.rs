//! Where the file panes start, decided from what the system reports.
//!
//! Reading the environment and probing the disk stay with the caller; which
//! answer wins is decided here.

use vstd::prelude::*;
use vstd::string::StringExecFns;
use crate::release::Platform;
use crate::text::{char_from_ascii, chars_of, lower_all, lowered, push_char, same_chars};
use crate::version::opt_view;

verus! {

pub open spec fn text_of(v: Option<&str>) -> Option<Seq<char>> {
    match v {
        Some(s) => Some(s@),
        None => None,
    }
}

/// A variable that is set to something.
pub open spec fn filled(v: Option<Seq<char>>) -> bool {
    v matches Some(s) && s.len() > 0
}

/// The home folder, from the variables that may name it.
///
/// `HOME` is a Unix variable. Windows does not set it and uses
/// `USERPROFILE`, so each platform asks its own first and the other second.
/// Where neither is set, Windows splits it in two, drive and path.
pub open spec fn home_spec(
    platform: Platform,
    home: Option<Seq<char>>,
    userprofile: Option<Seq<char>>,
    drive: Option<Seq<char>>,
    path: Option<Seq<char>>,
) -> Option<Seq<char>> {
    let (first, second) = if platform == Platform::Windows {
        (userprofile, home)
    } else {
        (home, userprofile)
    };
    if filled(first) {
        first
    } else if filled(second) {
        second
    } else {
        match (drive, path) {
            (Some(d), Some(p)) => Some(d + p),
            _ => None,
        }
    }
}

fn owned(v: Option<&str>) -> (r: Option<String>)
    ensures
        opt_view(r) == text_of(v),
{
    match v {
        Some(s) => Some(String::from_str(s)),
        None => None,
    }
}

fn is_filled(v: Option<&str>) -> (r: bool)
    ensures
        r == filled(text_of(v)),
{
    match v {
        Some(s) => s.unicode_len() > 0,
        None => false,
    }
}

/// The home folder, from the values of `HOME`, `USERPROFILE`, `HOMEDRIVE`
/// and `HOMEPATH` on `platform`, or nothing when none of them says.
pub fn home_from(
    platform: Platform,
    home: Option<&str>,
    userprofile: Option<&str>,
    drive: Option<&str>,
    path: Option<&str>,
) -> (r: Option<String>)
    ensures
        opt_view(r) == home_spec(
            platform,
            text_of(home),
            text_of(userprofile),
            text_of(drive),
            text_of(path),
        ),
{
    let (first, second) = match platform {
        Platform::Windows => (userprofile, home),
        _ => (home, userprofile),
    };
    if is_filled(first) {
        return owned(first);
    }
    if is_filled(second) {
        return owned(second);
    }
    match (drive, path) {
        (Some(d), Some(p)) => {
            let mut r = String::from_str(d);
            r.append(p);
            Some(r)
        },
        _ => None,
    }
}

/// The root of drive number `i`, counting `A:\` as the first.
pub open spec fn drive_root(i: int) -> Seq<char> {
    seq![(65 + i) as char, ':', '\\']
}

/// The places a file browser can start from besides the one root above
/// everything: on Windows each drive, `A:\` to `Z:\`, to be offered where it
/// is there; elsewhere nothing, since one root holds everything.
pub open spec fn root_candidates(platform: Platform) -> Seq<Seq<char>> {
    if platform == Platform::Windows {
        Seq::new(26, |i: int| drive_root(i))
    } else {
        Seq::empty()
    }
}

pub open spec fn strings_view(v: Seq<String>) -> Seq<Seq<char>> {
    v.map_values(|s: String| s@)
}

/// Each root a file browser on `platform` may offer, in order, for the
/// caller to look for.
pub fn root_candidates_of(platform: Platform) -> (r: Vec<String>)
    ensures
        strings_view(r@) == root_candidates(platform),
{
    let mut r: Vec<String> = Vec::new();
    match platform {
        Platform::Windows => {},
        _ => {
            proof {
                assert(strings_view(r@) =~= root_candidates(platform));
            }
            return r;
        },
    }
    let mut i: u32 = 0;
    while i < 26
        invariant
            i <= 26,
            platform == Platform::Windows,
            r.len() == i,
            forall|k: int| 0 <= k < i ==> #[trigger] r@[k]@ == drive_root(k),
        decreases 26 - i,
    {
        let mut root = String::new();
        push_char(&mut root, char_from_ascii(65 + i));
        push_char(&mut root, ':');
        push_char(&mut root, '\\');
        proof {
            assert(root@ =~= drive_root(i as int));
        }
        r.push(root);
        i = i + 1;
    }
    proof {
        assert(strings_view(r@) =~= root_candidates(platform));
    }
    r
}

/// The candidates that are there, in order: candidate `i` is kept when
/// `present` has an entry for it and that entry is true.
pub open spec fn kept_roots(candidates: Seq<Seq<char>>, present: Seq<bool>) -> Seq<Seq<char>>
    decreases candidates.len(),
{
    if candidates.len() == 0 {
        Seq::empty()
    } else {
        let i = candidates.len() - 1;
        let before = kept_roots(candidates.drop_last(), present);
        if i < present.len() && present[i] {
            before.push(candidates.last())
        } else {
            before
        }
    }
}

/// The places a file browser on `platform` starts from when there is nowhere
/// above the current folder: the drives that are there, in letter order,
/// given whether each candidate of [`root_candidates_of`] exists. On every
/// other platform one root holds everything, so there are none.
pub fn browser_roots(platform: Platform, present: &Vec<bool>) -> (r: Vec<String>)
    ensures
        strings_view(r@) == kept_roots(root_candidates(platform), present@),
{
    let candidates = root_candidates_of(platform);
    let ghost all = strings_view(candidates@);
    let mut r: Vec<String> = Vec::new();
    let mut i: usize = 0;
    while i < candidates.len()
        invariant
            i <= candidates.len(),
            all == strings_view(candidates@),
            strings_view(r@) == kept_roots(all.take(i as int), present@),
        decreases candidates.len() - i,
    {
        proof {
            assert(all.take(i + 1).drop_last() =~= all.take(i as int));
            assert(all.take(i + 1).last() == candidates@[i as int]@);
        }
        if i < present.len() && present[i] {
            let ghost had = r@;
            r.push(candidates[i].clone());
            proof {
                assert(strings_view(r@) =~= strings_view(had).push(candidates@[i as int]@));
            }
        }
        i = i + 1;
    }
    proof {
        assert(all.take(candidates.len() as int) =~= all);
    }
    r
}

/// Whether two extensions are the same one, whatever case their ASCII
/// letters are in.
pub open spec fn same_extension(a: Seq<char>, b: Seq<char>) -> bool {
    lowered(a) == lowered(b)
}

/// Whether a file browser offers a file with this extension: the plan
/// format always, and what can be imported unless the browser is saving,
/// since Save As writes the plan format alone.
pub open spec fn offered_spec(
    extension: Option<Seq<char>>,
    saving: bool,
    plan: Seq<char>,
    imported: Seq<Seq<char>>,
) -> bool {
    match extension {
        None => false,
        Some(e) => same_extension(e, plan) || (!saving && exists|i: int|
            0 <= i < imported.len() && same_extension(e, #[trigger] imported[i])),
    }
}

pub open spec fn strs_view(v: Seq<&str>) -> Seq<Seq<char>> {
    v.map_values(|s: &str| s@)
}

fn same_ext(a: &str, b: &str) -> (r: bool)
    ensures
        r == same_extension(a@, b@),
{
    let x = lower_all(&chars_of(a));
    let y = lower_all(&chars_of(b));
    same_chars(&x, &y)
}

/// Whether a file browser should offer a file whose extension is
/// `extension`, given the plan format's extension and those that import.
///
/// One answer for every browser: a file the application can read but will
/// not show is indistinguishable from one it cannot read.
pub fn offered_in_browser(extension: Option<&str>, saving: bool, plan: &str, imported: &Vec<&str>) -> (r:
    bool)
    ensures
        r == offered_spec(text_of(extension), saving, plan@, strs_view(imported@)),
{
    let e = match extension {
        Some(e) => e,
        None => {
            return false;
        },
    };
    if same_ext(e, plan) {
        return true;
    }
    if saving {
        return false;
    }
    let mut i: usize = 0;
    while i < imported.len()
        invariant
            i <= imported.len(),
            extension == Some(e),
            !saving,
            forall|k: int| 0 <= k < i ==> !same_extension(e@, #[trigger] strs_view(imported@)[k]),
        decreases imported.len() - i,
    {
        if same_ext(e, imported[i]) {
            proof {
                assert(strs_view(imported@)[i as int] == imported@[i as int]@);
            }
            return true;
        }
        i = i + 1;
    }
    false
}

} // verus!

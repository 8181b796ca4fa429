//! Executable lookup order and capture-file naming: the pure decisions
//! behind resolving a binary on the search path and composing the output
//! file name.

use vstd::prelude::*;

use crate::config::CaptureMode;
use crate::text::{delim_end, lemma_delim_end_le, split_on, split_str};

verus! {

/// The candidate paths searched for an executable name: every directory of
/// the search-path variable, in order, joined with the name.
pub open spec fn candidate_paths(path_var: Seq<char>, binary: Seq<char>) -> Seq<Seq<char>> {
    split_on(path_var, ':').map_values(|p: Seq<char>| p + "/"@ + binary)
}

/// Compose the candidate paths for `binary` from the search-path variable.
pub fn which_candidates(path_var: &str, binary: &str) -> (r: Vec<String>)
    ensures
        r.deep_view() == candidate_paths(path_var@, binary@),
{
    let prefixes = split_str(path_var, ':');
    let n = prefixes.len();
    let mut out: Vec<String> = Vec::new();
    let mut i: usize = 0;
    while i < n
        invariant
            i <= n,
            n == prefixes@.len(),
            n == split_on(path_var@, ':').len(),
            forall|j: int| 0 <= j < n ==> #[trigger] prefixes@[j]@ == split_on(path_var@, ':')[j],
            out@.len() == i,
            forall|j: int|
                0 <= j < i ==> #[trigger] out@[j]@ == split_on(path_var@, ':')[j] + "/"@
                    + binary@,
        decreases n - i,
    {
        out.push(prefixes[i].clone().concat("/").concat(binary));
        i += 1;
    }
    proof {
        assert(out.deep_view() =~= candidate_paths(path_var@, binary@));
    }
    out
}

/// The first candidate marked present, in candidate order.
pub open spec fn first_present_spec(cands: Seq<Seq<char>>, present: Seq<bool>, from: int) -> Option<
    Seq<char>,
>
    decreases cands.len() - from,
{
    if from < 0 || from >= cands.len() {
        None
    } else if present[from] {
        Some(cands[from])
    } else {
        first_present_spec(cands, present, from + 1)
    }
}

/// Pick the first candidate whose presence flag is set, honoring candidate
/// order; the flags report, per candidate, whether the path exists.
pub fn first_present(candidates: &Vec<String>, present: &Vec<bool>) -> (r: Option<String>)
    requires
        candidates@.len() == present@.len(),
    ensures
        (match r {
            Some(s) => first_present_spec(candidates.deep_view(), present@, 0) == Some(s@),
            None => first_present_spec(candidates.deep_view(), present@, 0) is None,
        }),
{
    let n = candidates.len();
    let ghost dv = candidates.deep_view();
    let mut i: usize = 0;
    while i < n
        invariant
            i <= n,
            n == candidates@.len(),
            n == present@.len(),
            dv == candidates.deep_view(),
            dv.len() == n,
            first_present_spec(dv, present@, 0) == first_present_spec(dv, present@, i as int),
        decreases n - i,
    {
        if present[i] {
            proof {
                assert(dv[i as int] == candidates@[i as int]@);
            }
            return Some(candidates[i].clone());
        }
        i += 1;
    }
    None
}

/// The capture file path: under the home directory, a mode-specific media
/// directory, then a screenshot directory, then a name composed of the
/// host name's first dot-separated segment, the timestamp, and the
/// mode-specific extension.
pub open spec fn filename_spec(
    home: Seq<char>,
    host: Seq<char>,
    stamp: Seq<char>,
    mode: CaptureMode,
) -> Seq<char> {
    let short = host.subrange(0, delim_end(host, '.') as int);
    let subdir = if mode is Video {
        "Videos"@
    } else {
        "Pictures"@
    };
    let ext = if mode is Video {
        "mkv"@
    } else {
        "png"@
    };
    home + "/"@ + subdir + "/Screenshot/"@ + short + "."@ + stamp + "."@ + ext
}

/// Compose the capture file path from the home directory, host name,
/// timestamp and capture mode.
pub fn capture_filename(home: &str, host: &str, stamp: &str, mode: CaptureMode) -> (r: String)
    ensures
        r@ == filename_spec(home@, host@, stamp@, mode),
{
    let k = crate::text::delim_len(host, '.');
    proof {
        lemma_delim_end_le(host@, '.');
    }
    let short = host.substring_char(0, k);
    let is_video = match mode {
        CaptureMode::Video(_) => true,
        CaptureMode::Image => false,
    };
    let subdir = if is_video {
        "Videos"
    } else {
        "Pictures"
    };
    let ext = if is_video {
        "mkv"
    } else {
        "png"
    };
    home.to_owned().concat("/").concat(subdir).concat("/Screenshot/").concat(short).concat(
        ".",
    ).concat(stamp).concat(".").concat(ext)
}

} // verus!

//! The pure decisions of the repository scanner: recognizing a hosting
//! platform URL and decomposing it into owner and repository name,
//! building the metadata and raw-content endpoint URLs, reading the
//! default branch out of a metadata response, recognizing the platform's
//! "not found" sentinel, and picking the winning probe by candidate order.
//!
//! The network fetches themselves happen outside the library; callers
//! hand the fetched bodies back to these functions.
use vstd::prelude::*;
use vstd::string::StrSliceExecFns;

use crate::text::{chars_of, spec_split, split_vec, str_eq, string_from_range};
use crate::ScannedFile;

verus! {

/// The first index in `segs`, from `i` on, whose segment equals `target`.
pub open spec fn find_segment(segs: Seq<Seq<char>>, target: Seq<char>, i: int) -> Option<int>
    decreases segs.len() - i,
{
    if i < 0 || i >= segs.len() {
        None
    } else if segs[i] == target {
        Some(i)
    } else {
        find_segment(segs, target, i + 1)
    }
}

/// `s` without a final `".git"`, if it ends in one.
pub open spec fn strip_git(s: Seq<char>) -> Seq<char> {
    if s.len() >= 4 && s.subrange(s.len() - 4, s.len() as int) == ".git"@ {
        s.take(s.len() - 4)
    } else {
        s
    }
}

/// The owner and repository name of a recognized GitHub repository URL.
///
/// A URL is recognized when, split at `/`, it holds a `github.com`
/// segment followed by exactly a non-empty owner segment and a non-empty
/// repository segment (a single trailing slash is allowed, and a final
/// `".git"` is dropped from the repository name).
pub open spec fn spec_parse_repo_url(u: Seq<char>) -> Option<(Seq<char>, Seq<char>)> {
    let segs = spec_split(u, '/');
    match find_segment(segs, "github.com"@, 0) {
        None => None,
        Some(k) => {
            if k + 2 < segs.len() && (segs.len() == k + 3 || (segs.len() == k + 4 && segs[k
                + 3].len() == 0)) && segs[k + 1].len() > 0 && segs[k + 2].len() > 0 && strip_git(
                segs[k + 2],
            ).len() > 0 {
                Some((segs[k + 1], strip_git(segs[k + 2])))
            } else {
                None
            }
        },
    }
}

fn chars_eq_str(a: &Vec<char>, s: &str) -> (r: bool)
    ensures
        r == (a@ == s@),
{
    let n = s.unicode_len();
    if n != a.len() {
        return false;
    }
    let mut i: usize = 0;
    while i < n
        invariant
            n == s@.len(),
            n == a@.len(),
            i <= n,
            forall|j: int| 0 <= j < i ==> a@[j] == s@[j],
        decreases n - i,
    {
        if a[i] != s.get_char(i) {
            return false;
        }
        i = i + 1;
    }
    proof {
        assert(a@ =~= s@);
    }
    true
}

/// The owner and repository name of a recognized GitHub repository URL,
/// or `None` when the URL does not have that shape.
pub fn parse_repo_url(url: &str) -> (r: Option<(String, String)>)
    ensures
        match r {
            Some((owner, name)) => spec_parse_repo_url(url@) == Some((owner@, name@)),
            None => spec_parse_repo_url(url@) is None,
        },
{
    let cs = chars_of(url);
    let segs = split_vec(&cs, '/');
    let ghost sv = segs.deep_view();
    let mut k: usize = 0;
    let found: bool;
    loop
        invariant
            k <= sv.len(),
            sv == segs.deep_view(),
            sv.len() == segs@.len(),
            forall|j: int| 0 <= j < k ==> sv[j] != "github.com"@,
            find_segment(sv, "github.com"@, 0) == find_segment(sv, "github.com"@, k as int),
        ensures
            found ==> k < sv.len() && sv[k as int] == "github.com"@ && find_segment(
                sv,
                "github.com"@,
                0,
            ) == Some(k as int),
            !found ==> find_segment(sv, "github.com"@, 0) is None,
        decreases sv.len() - k,
    {
        if k == segs.len() {
            found = false;
            break ;
        }
        proof {
            assert(sv[k as int] == segs@[k as int]@);
        }
        if chars_eq_str(&segs[k], "github.com") {
            found = true;
            break ;
        }
        k = k + 1;
    }
    if !found {
        return None;
    }
    let d = segs.len() - k;
    proof {
        if k + 3 < sv.len() {
            assert(sv[k + 3] == segs@[k + 3]@);
        }
    }
    if !(d == 3 || (d == 4 && segs[k + 3].len() == 0)) {
        return None;
    }
    proof {
        assert(sv[k + 1] == segs@[k + 1]@);
        assert(sv[k + 2] == segs@[k + 2]@);
        if k + 3 < sv.len() {
            assert(sv[k + 3] == segs@[k + 3]@);
        }
    }
    let owner_cs = &segs[k + 1];
    let repo_cs = &segs[k + 2];
    if owner_cs.len() == 0 || repo_cs.len() == 0 {
        return None;
    }
    let mut repo_end: usize = repo_cs.len();
    if repo_cs.len() >= 4 {
        let dot = repo_cs.len() - 4;
        if repo_cs[dot] == '.' && repo_cs[dot + 1] == 'g' && repo_cs[dot + 2] == 'i' && repo_cs[dot
            + 3] == 't' {
            proof {
                reveal_strlit(".git");
                assert(repo_cs@.subrange(repo_cs@.len() - 4, repo_cs@.len() as int) =~= ".git"@);
            }
            repo_end = dot;
        } else {
            proof {
                reveal_strlit(".git");
                let sub = repo_cs@.subrange(repo_cs@.len() - 4, repo_cs@.len() as int);
                assert(sub[0] == repo_cs@[repo_cs@.len() - 4]);
                assert(sub[1] == repo_cs@[repo_cs@.len() - 3]);
                assert(sub[2] == repo_cs@[repo_cs@.len() - 2]);
                assert(sub[3] == repo_cs@[repo_cs@.len() - 1]);
                assert(sub != ".git"@);
            }
        }
    }
    if repo_end == 0 {
        return None;
    }
    let owner = string_from_range(owner_cs, 0, owner_cs.len());
    let name = string_from_range(repo_cs, 0, repo_end);
    proof {
        assert(owner@ =~= sv[k + 1]);
        assert(name@ =~= strip_git(sv[k + 2]));
    }
    Some((owner, name))
}

/// The GitHub repository-metadata endpoint for an owner and repository.
pub open spec fn spec_metadata_url(owner: Seq<char>, name: Seq<char>) -> Seq<char> {
    "https://api.github.com/repos/"@ + owner + "/"@ + name
}

/// The URL of the GitHub repository-metadata endpoint, which answers with
/// the repository's default branch.
pub fn metadata_url(owner: &str, name: &str) -> (r: String)
    ensures
        r@ == spec_metadata_url(owner@, name@),
{
    let mut u = String::new();
    u.append("https://api.github.com/repos/");
    u.append(owner);
    u.append("/");
    u.append(name);
    proof {
        assert(u@ =~= spec_metadata_url(owner@, name@));
    }
    u
}

/// The raw-content endpoint for one file on one branch.
pub open spec fn spec_raw_file_url(
    owner: Seq<char>,
    name: Seq<char>,
    branch: Seq<char>,
    filename: Seq<char>,
) -> Seq<char> {
    "https://raw.githubusercontent.com/"@ + owner + "/"@ + name + "/"@ + branch + "/"@ + filename
}

/// The URL under which GitHub serves the raw content of `filename` on
/// `branch`.
pub fn raw_file_url(owner: &str, name: &str, branch: &str, filename: &str) -> (r: String)
    ensures
        r@ == spec_raw_file_url(owner@, name@, branch@, filename@),
{
    let mut u = String::new();
    u.append("https://raw.githubusercontent.com/");
    u.append(owner);
    u.append("/");
    u.append(name);
    u.append("/");
    u.append(branch);
    u.append("/");
    u.append(filename);
    proof {
        assert(u@ =~= spec_raw_file_url(owner@, name@, branch@, filename@));
    }
    u
}

/// True when `pat` occurs in `s` at position `i`.
pub open spec fn occurs_at(s: Seq<char>, pat: Seq<char>, i: int) -> bool {
    0 <= i && i + pat.len() <= s.len() && s.subrange(i, i + pat.len()) == pat
}

/// The first position at or after `i` where `pat` occurs in `s`.
pub open spec fn find_from(s: Seq<char>, pat: Seq<char>, i: int) -> Option<int>
    decreases s.len() - i + 1,
{
    if i < 0 || i + pat.len() > s.len() {
        None
    } else if occurs_at(s, pat, i) {
        Some(i)
    } else {
        find_from(s, pat, i + 1)
    }
}

fn range_eq_vec(cs: &Vec<char>, from: usize, pat: &Vec<char>) -> (r: bool)
    requires
        from + pat@.len() <= cs@.len(),
    ensures
        r == (cs@.subrange(from as int, from + pat@.len()) == pat@),
{
    let cn = cs.len();
    let mut i: usize = 0;
    while i < pat.len()
        invariant
            cn == cs@.len(),
            from + pat@.len() <= cs@.len(),
            i <= pat@.len(),
            forall|j: int| 0 <= j < i ==> cs@[from + j] == pat@[j],
        decreases pat@.len() - i,
    {
        proof {
            assert(from + i < cs@.len());
        }
        if cs[from + i] != pat[i] {
            return false;
        }
        i = i + 1;
    }
    proof {
        assert(cs@.subrange(from as int, from + pat@.len()) =~= pat@);
    }
    true
}

fn find_from_exec(cs: &Vec<char>, pat: &Vec<char>, i: usize) -> (r: Option<usize>)
    requires
        i <= cs@.len(),
        pat@.len() > 0,
    ensures
        match r {
            Some(j) => find_from(cs@, pat@, i as int) == Some(j as int) && i <= j && j + pat@.len()
                <= cs@.len(),
            None => find_from(cs@, pat@, i as int) is None,
        },
    decreases cs@.len() - i + 1,
{
    if pat.len() > cs.len() - i {
        None
    } else if range_eq_vec(cs, i, pat) {
        Some(i)
    } else {
        find_from_exec(cs, pat, i + 1)
    }
}

/// The marker that precedes the default branch name in the metadata
/// endpoint's response.
pub open spec fn branch_marker() -> Seq<char> {
    "\"default_branch\":\""@
}

/// The default branch named in a metadata response: the text between the
/// first `"default_branch":"` and the next quote, when both exist.
pub open spec fn spec_default_branch(s: Seq<char>) -> Option<Seq<char>> {
    match find_from(s, branch_marker(), 0) {
        None => None,
        Some(k) => {
            let start = k + branch_marker().len();
            match find_from(s, "\""@, start) {
                None => None,
                Some(j) => Some(s.subrange(start, j)),
            }
        },
    }
}

/// Reads the default branch name out of the body answered by the
/// repository-metadata endpoint, or `None` when the body does not carry
/// one.
pub fn extract_default_branch(body: &str) -> (r: Option<String>)
    ensures
        match r {
            Some(b) => spec_default_branch(body@) == Some(b@),
            None => spec_default_branch(body@) is None,
        },
{
    let cs = chars_of(body);
    let marker = chars_of("\"default_branch\":\"");
    let quote = chars_of("\"");
    proof {
        reveal_strlit("\"default_branch\":\"");
        reveal_strlit("\"");
        assert(marker@.len() > 0);
        assert(quote@.len() > 0);
    }
    let n = cs.len();
    if marker.len() > n {
        return None;
    }
    match find_from_exec(&cs, &marker, 0) {
        None => None,
        Some(k) => {
            proof {
                assert(k + marker@.len() <= n);
            }
            let start = k + marker.len();
            match find_from_exec(&cs, &quote, start) {
                None => None,
                Some(j) => {
                    proof {
                        assert(find_from(cs@, quote@, start as int) == Some(j as int));
                    }
                    Some(string_from_range(&cs, start, j))
                },
            }
        },
    }
}

/// The body with which GitHub's raw-content endpoint signals a missing
/// file.
pub open spec fn not_found_sentinel() -> Seq<char> {
    "404: Not Found"@
}

/// True when a raw-content response body is GitHub's "missing file"
/// sentinel rather than file content.
pub fn is_not_found_sentinel(body: &str) -> (r: bool)
    ensures
        r == (body@ == not_found_sentinel()),
{
    str_eq(body, "404: Not Found")
}

/// Among the probe outcomes of the candidate files, in the caller's
/// order, the index of the first file that was found: probes may have run
/// concurrently, but the winner is decided by candidate order, never by
/// arrival order.
pub fn first_found_index(results: &Vec<Option<String>>) -> (r: Option<usize>)
    ensures
        match r {
            Some(i) => i < results@.len() && results@[i as int] is Some && forall|j: int|
                0 <= j < i ==> results@[j] is None,
            None => forall|j: int| 0 <= j < results@.len() ==> results@[j] is None,
        },
{
    let mut i: usize = 0;
    while i < results.len()
        invariant
            i <= results@.len(),
            forall|j: int| 0 <= j < i ==> results@[j] is None,
        decreases results@.len() - i,
    {
        if results[i].is_some() {
            return Some(i);
        }
        i = i + 1;
    }
    None
}

/// The raw-content URLs to probe for the candidate filenames, in the
/// caller's order, all on the same resolved branch.
pub fn probe_urls(owner: &str, name: &str, branch: &str, filenames: &Vec<String>) -> (r: Vec<
    String,
>)
    ensures
        r@.len() == filenames@.len(),
        forall|i: int|
            0 <= i < r@.len() ==> (#[trigger] r@[i])@ == spec_raw_file_url(
                owner@,
                name@,
                branch@,
                filenames@[i]@,
            ),
{
    let mut r: Vec<String> = Vec::new();
    let mut i: usize = 0;
    while i < filenames.len()
        invariant
            i <= filenames@.len(),
            r@.len() == i,
            forall|j: int|
                0 <= j < i ==> (#[trigger] r@[j])@ == spec_raw_file_url(
                    owner@,
                    name@,
                    branch@,
                    filenames@[j]@,
                ),
        decreases filenames@.len() - i,
    {
        let u = raw_file_url(owner, name, branch, filenames[i].as_str());
        r.push(u);
        i = i + 1;
    }
    r
}

/// The winning probe, as the scanned file: the first candidate in the
/// caller's order whose probe came back with content. Probes may have
/// run concurrently; the winner is still the earliest candidate, never
/// the earliest arrival.
pub fn pick_scanned(filenames: &Vec<String>, outcomes: Vec<Option<String>>) -> (r: Option<
    ScannedFile,
>)
    requires
        filenames@.len() == outcomes@.len(),
    ensures
        match r {
            Some(f) => exists|i: int|
                {
                    &&& 0 <= i < outcomes@.len()
                    &&& (#[trigger] outcomes@[i]) matches Some(c) && f.content == c
                    &&& f.filename@ == filenames@[i]@
                    &&& forall|j: int| 0 <= j < i ==> outcomes@[j] is None
                },
            None => forall|j: int| 0 <= j < outcomes@.len() ==> outcomes@[j] is None,
        },
{
    let ghost outcomes0 = outcomes@;
    match first_found_index(&outcomes) {
        None => None,
        Some(i) => {
            let filename = filenames[i].clone();
            let mut rest = outcomes;
            let got = rest.remove(i);
            match got {
                Some(content) => {
                    let f = ScannedFile { filename, content };
                    proof {
                        assert(outcomes0[i as int] matches Some(c) && f.content == c);
                    }
                    Some(f)
                },
                None => None,
            }
        },
    }
}

/// True when the filename names a CFF citation file: it ends in `".cff"`.
pub open spec fn spec_is_cff_filename(name: Seq<char>) -> bool {
    name.len() >= 4 && name.subrange(name.len() - 4, name.len() as int) == ".cff"@
}

/// True when the filename names a CFF citation file rather than a plain
/// bibliography.
pub fn is_cff_filename(name: &str) -> (r: bool)
    ensures
        r == spec_is_cff_filename(name@),
{
    let cs = chars_of(name);
    if cs.len() < 4 {
        return false;
    }
    let dot = cs.len() - 4;
    let r = cs[dot] == '.' && cs[dot + 1] == 'c' && cs[dot + 2] == 'f' && cs[dot + 3] == 'f';
    proof {
        reveal_strlit(".cff");
        let sub = cs@.subrange(cs@.len() - 4, cs@.len() as int);
        assert(sub[0] == cs@[cs@.len() - 4]);
        assert(sub[1] == cs@[cs@.len() - 3]);
        assert(sub[2] == cs@[cs@.len() - 2]);
        assert(sub[3] == cs@[cs@.len() - 1]);
        if r {
            assert(sub =~= ".cff"@);
        } else {
            assert(sub != ".cff"@);
        }
    }
    r
}

} // verus!

//! Paths and URLs as the user interface shows them: repository names taken
//! from clone URLs, home-relative paths, and the window title candidates.
//!
//! Paths are Unix paths: components are separated by `/`, and empty
//! components (repeated or trailing separators) are ignored, as
//! `std::path::Path::components` ignores them.
use vstd::prelude::*;
use vstd::string::*;

use crate::text::{first_index_of, is_char, lemma_first_index_where, lemma_first_index_where_shape, opt_text, chars_of, components, join_from, joined, split_components, str_eq, string_of_range};

verus! {

// ---------------------------------------------------------------------------
// Repository names
// ---------------------------------------------------------------------------

/// `s` without its trailing `/` characters.
pub open spec fn strip_trailing_slashes(s: Seq<char>) -> Seq<char>
    decreases s.len(),
{
    if s.len() > 0 && s.last() == '/' {
        strip_trailing_slashes(s.drop_last())
    } else {
        s
    }
}

/// The part of `s` after its last `/` (all of `s` when it has none).
pub open spec fn last_segment(s: Seq<char>) -> Seq<char>
    decreases s.len(),
{
    if s.len() == 0 {
        s
    } else if s.last() == '/' {
        seq![]
    } else {
        last_segment(s.drop_last()).push(s.last())
    }
}

/// `s` without the suffix `suffix`, if it ends with it.
pub open spec fn strip_suffix(s: Seq<char>, suffix: Seq<char>) -> Seq<char> {
    if s.len() >= suffix.len() && s.subrange(s.len() - suffix.len(), s.len() as int) == suffix {
        s.subrange(0, s.len() - suffix.len())
    } else {
        s
    }
}

/// The repository name a clone URL or path suggests: its last `/`-separated
/// segment (trailing slashes ignored) without a `.git` suffix.
pub open spec fn repo_name_spec(url: Seq<char>) -> Seq<char> {
    strip_suffix(last_segment(strip_trailing_slashes(url)), ".git"@)
}

/// Whether `s` ends with `suffix`.
pub fn ends_with(s: &str, suffix: &str) -> (r: bool)
    ensures
        r == (s@.len() >= suffix@.len() && s@.subrange(s@.len() - suffix@.len(), s@.len() as int)
            == suffix@),
{
    let n = s.unicode_len();
    let m = suffix.unicode_len();
    if n < m {
        return false;
    }
    String::from_str(s.substring_char(n - m, n)) == String::from_str(suffix)
}

/// Whether `s` starts with `prefix`.
pub fn starts_with(s: &str, prefix: &str) -> (r: bool)
    ensures
        r == (s@.len() >= prefix@.len() && s@.subrange(0, prefix@.len() as int) == prefix@),
{
    let n = s.unicode_len();
    let m = prefix.unicode_len();
    if n < m {
        return false;
    }
    String::from_str(s.substring_char(0, m)) == String::from_str(prefix)
}

/// The repository name for a clone URL or path:
/// `https://github.com/user/repo.git`, `git@github.com:user/repo.git`,
/// `/path/to/repo` and `/path/to/repo.git` all give `repo`.
pub fn extract_repo_name(url: &str) -> (r: String)
    ensures
        r@ == repo_name_spec(url@),
{
    let v = chars_of(url);
    let mut end = v.len();
    assert(v@.subrange(0, v.len() as int) == url@);
    while end > 0 && v[end - 1] == '/'
        invariant
            end <= v.len(),
            strip_trailing_slashes(v@.subrange(0, end as int)) == strip_trailing_slashes(url@),
            v@ == url@,
        decreases end,
    {
        assert(v@.subrange(0, end as int).drop_last() == v@.subrange(0, end - 1));
        end = end - 1;
    }
    assert(v@.subrange(0, v.len() as int) == url@);
    let ghost trimmed = v@.subrange(0, end as int);
    assert(strip_trailing_slashes(trimmed) == trimmed);
    let mut start = end;
    while start > 0 && v[start - 1] != '/'
        invariant
            start <= end <= v.len(),
            trimmed == v@.subrange(0, end as int),
            last_segment(trimmed) == last_segment(v@.subrange(0, start as int)) + v@.subrange(
                start as int,
                end as int,
            ),
        decreases start,
    {
        let ghost pre = v@.subrange(0, start as int);
        assert(pre.drop_last() == v@.subrange(0, start - 1));
        assert(last_segment(pre) == last_segment(pre.drop_last()).push(pre.last()));
        assert(last_segment(pre.drop_last()).push(pre.last()) + v@.subrange(start as int, end as int)
            =~= last_segment(v@.subrange(0, start - 1)) + v@.subrange(start - 1, end as int));
        start = start - 1;
    }
    assert(last_segment(v@.subrange(0, start as int)) =~= Seq::<char>::empty());
    assert(Seq::<char>::empty() + v@.subrange(start as int, end as int) =~= v@.subrange(
        start as int,
        end as int,
    ));
    let name = string_of_range(url, start, end);
    if ends_with(name.as_str(), ".git") {
        let len = name.as_str().unicode_len();
        proof {
            reveal_strlit(".git");
        }
        string_of_range(name.as_str(), 0, len - 4)
    } else {
        name
    }
}

// ---------------------------------------------------------------------------
// The home directory
// ---------------------------------------------------------------------------

/// The user's home directory as `etcetera::home_dir` finds it, if it has
/// one that is valid Unicode. It depends on the environment, so nothing is
/// stated of it.
#[verifier::external_body]
fn home_dir_text() -> (r: Option<String>)
{
    etcetera::home_dir().ok().and_then(|p| p.to_str().map(|s| s.to_string()))
}

/// Whether `s` is an absolute path.
pub open spec fn is_absolute(s: Seq<char>) -> bool {
    s.len() > 0 && s[0] == '/'
}

/// `rest` appended to `base` as `Path::join` does on Unix: an absolute
/// `rest` replaces `base`; otherwise a `/` separates them unless `base` is
/// empty or already ends with one.
pub open spec fn path_join(base: Seq<char>, rest: Seq<char>) -> Seq<char> {
    if is_absolute(rest) {
        rest
    } else if base.len() == 0 || base.last() == '/' {
        base + rest
    } else {
        base + seq!['/'] + rest
    }
}

/// Joins two paths.
pub fn join_path(base: &str, rest: &str) -> (r: String)
    ensures
        r@ == path_join(base@, rest@),
{
    let rest_absolute = rest.unicode_len() > 0 && rest.get_char(0) == '/';
    if rest_absolute {
        return String::from_str(rest);
    }
    let n = base.unicode_len();
    let mut out = String::from_str(base);
    if n > 0 && base.get_char(n - 1) != '/' {
        out.append("/");
    }
    out.append(rest);
    proof {
        reveal_strlit("/");
    }
    out
}

/// `path` with a leading `~/` replaced by the home directory `home`, when
/// there is one.
pub open spec fn expand_home_spec(path: Seq<char>, home: Option<Seq<char>>) -> Seq<char> {
    match home {
        Some(h) if path.len() >= 2 && path.subrange(0, 2) == "~/"@ => path_join(
            h,
            path.subrange(2, path.len() as int),
        ),
        _ => path,
    }
}

/// Expands a leading `~/` against the home directory `home`.
pub fn expand_home_with(path: &str, home: Option<&str>) -> (r: String)
    ensures
        r@ == expand_home_spec(path@, match home {
            Some(h) => Some(h@),
            None => None,
        }),
{
    match home {
        Some(h) => {
            if starts_with(path, "~/") {
                proof {
                    reveal_strlit("~/");
                }
                let n = path.unicode_len();
                join_path(h, path.substring_char(2, n))
            } else {
                String::from_str(path)
            }
        },
        None => String::from_str(path),
    }
}

/// Expands a leading `~/` to the user's home directory, when it has one. A
/// path that does not start with `~/` is returned as it is.
pub fn expand_home(path: &str) -> (r: String)
    ensures
        exists|home: Option<Seq<char>>| r@ == #[trigger] expand_home_spec(path@, home),
        !(path@.len() >= 2 && path@.subrange(0, 2) == "~/"@) ==> r@ == path@,
{
    match home_dir_text() {
        Some(h) => expand_home_with(path, Some(h.as_str())),
        None => expand_home_with(path, None),
    }
}

/// The components of `path` below the home directory `home`, when `path` is
/// `home` or lies within it (compared component by component, as
/// `Path::strip_prefix` does).
pub open spec fn below_home(path: Seq<char>, home: Option<Seq<char>>) -> Option<Seq<Seq<char>>> {
    match home {
        Some(h) => {
            let pc = components(path);
            let hc = components(h);
            if is_absolute(path) == is_absolute(h) && hc.len() <= pc.len() && pc.subrange(
                0,
                hc.len() as int,
            ) == hc {
                Some(pc.subrange(hc.len() as int, pc.len() as int))
            } else {
                None
            }
        },
        None => None,
    }
}

/// Whether `prefix` is a prefix of `v`, comparing texts.
fn is_prefix_of(prefix: &Vec<String>, v: &Vec<String>) -> (r: bool)
    ensures
        r == (prefix@.len() <= v@.len() && v@.map_values(|c: String| c@).subrange(
            0,
            prefix@.len() as int,
        ) == prefix@.map_values(|c: String| c@)),
{
    if prefix.len() > v.len() {
        return false;
    }
    let ghost pv = prefix@.map_values(|c: String| c@);
    let ghost vv = v@.map_values(|c: String| c@);
    let mut i: usize = 0;
    while i < prefix.len()
        invariant
            i <= prefix@.len() <= v@.len(),
            pv == prefix@.map_values(|c: String| c@),
            vv == v@.map_values(|c: String| c@),
            forall|j: int| 0 <= j < i ==> vv[j] == pv[j],
        decreases prefix@.len() - i,
    {
        if !str_eq(prefix[i].as_str(), v[i].as_str()) {
            assert(vv.subrange(0, prefix@.len() as int)[i as int] != pv[i as int]);
            return false;
        }
        i = i + 1;
    }
    assert(vv.subrange(0, prefix@.len() as int) =~= pv);
    true
}

/// Where `path` lies below `home`: the index of its first component below it.
fn home_split(path: &str, home: Option<&str>, comps: &Vec<String>) -> (r: Option<usize>)
    requires
        comps@.map_values(|c: String| c@) == components(path@),
    ensures
        match below_home(path@, match home {
            Some(h) => Some(h@),
            None => None,
        }) {
            Some(rel) => (r matches Some(k) && k <= comps@.len() && rel == components(path@).subrange(
                k as int,
                comps@.len() as int,
            )),
            None => r is None,
        },
{
    match home {
        Some(h) => {
            let hc = split_components(h);
            let pa = path.unicode_len() > 0 && path.get_char(0) == '/';
            let ha = h.unicode_len() > 0 && h.get_char(0) == '/';
            if pa == ha && is_prefix_of(&hc, comps) {
                Some(hc.len())
            } else {
                None
            }
        },
        None => None,
    }
}

/// How a path is shown in the list of recent workspaces: `~/` and the part
/// below the home directory when it lies there, else as it is.
pub open spec fn abbreviate_path_spec(path: Seq<char>, home: Option<Seq<char>>) -> Seq<char> {
    match below_home(path, home) {
        Some(rel) => "~/"@ + joined(rel, "/"@),
        None => path,
    }
}

/// Abbreviates a path against the home directory `home`.
pub fn abbreviate_path_with(path: &str, home: Option<&str>) -> (r: String)
    ensures
        r@ == abbreviate_path_spec(path@, match home {
            Some(h) => Some(h@),
            None => None,
        }),
{
    let comps = split_components(path);
    match home_split(path, home, &comps) {
        Some(k) => {
            let mut out = String::from_str("~/");
            let rest = join_from(&comps, k, "/");
            out.append(rest.as_str());
            out
        },
        None => String::from_str(path),
    }
}

/// Abbreviates a path against the user's home directory. A relative path
/// stays as it is when the home directory is absolute.
pub fn abbreviate_path(path: &str) -> (r: String)
    ensures
        exists|home: Option<Seq<char>>| r@ == #[trigger] abbreviate_path_spec(path@, home),
{
    match home_dir_text() {
        Some(h) => abbreviate_path_with(path, Some(h.as_str())),
        None => abbreviate_path_with(path, None),
    }
}

// ---------------------------------------------------------------------------
// Window titles
// ---------------------------------------------------------------------------

/// The window titles to try for a workspace, longest first: the full path;
/// the path below the home directory as `~/...`, if it lies there; the path
/// with more and more leading directories elided as `…/`; and the last
/// component alone, unless that is the whole path. Without a workspace, the
/// application's name.
pub open spec fn title_candidates_spec(workspace: Option<Seq<char>>, home: Option<Seq<char>>) -> Seq<
    Seq<char>,
> {
    match workspace {
        None => seq!["GG - Gui for JJ"@],
        Some(p) => {
            let full = seq!["GG - "@ + p];
            let rel = below_home(p, home);
            let base = match rel {
                Some(rc) => full.push("GG - ~/"@ + joined(rc, "/"@)),
                None => full,
            };
            let c = match rel {
                Some(rc) => rc,
                None => components(p),
            };
            let m = c.len() as int;
            let elided = Seq::new(
                (if m >= 2 { m - 2 } else { 0 }) as nat,
                |k: int| "GG - …/"@ + joined(c.subrange(k + 1, m), "/"@),
            );
            let last = if m >= 1 && c[m - 1] != p {
                seq!["GG - "@ + c[m - 1]]
            } else {
                seq![]
            };
            base + elided + last
        },
    }
}

/// The window titles to try for `workspace`, given the home directory.
pub fn title_candidates_with(workspace: Option<&str>, home: Option<&str>) -> (r: Vec<String>)
    ensures
        r@.map_values(|t: String| t@) == title_candidates_spec(
            match workspace {
                Some(w) => Some(w@),
                None => None,
            },
            match home {
                Some(h) => Some(h@),
                None => None,
            },
        ),
{
    let ghost hv = match home {
        Some(h) => Some(h@),
        None => None,
    };
    let mut out: Vec<String> = Vec::new();
    match workspace {
        None => {
            out.push(String::from_str("GG - Gui for JJ"));
            assert(out@.map_values(|t: String| t@) =~= seq!["GG - Gui for JJ"@]);
            out
        },
        Some(p) => {
            let comps = split_components(p);
            let ghost cv = comps@.map_values(|c: String| c@);
            let mut full = String::from_str("GG - ");
            full.append(p);
            out.push(full);
            let start: usize = match home_split(p, home, &comps) {
                Some(k) => {
                    let mut t = String::from_str("GG - ~/");
                    let rest = join_from(&comps, k, "/");
                    t.append(rest.as_str());
                    out.push(t);
                    k
                },
                None => 0,
            };
            let ghost c = cv.subrange(start as int, cv.len() as int);
            proof {
                match below_home(p@, hv) {
                    Some(rc) => {
                        assert(rc == c);
                    },
                    None => {
                        assert(c =~= components(p@));
                    },
                }
            }
            let ghost base = out@.map_values(|t: String| t@);
            let n = comps.len();
            let m = n - start;
            let count: usize = if m >= 2 { m - 2 } else { 0 };
            let mut k: usize = 0;
            assert(out@.map_values(|t: String| t@) =~= base + Seq::new(
                0 as nat,
                |j: int| "GG - …/"@ + joined(c.subrange(j + 1, m as int), "/"@),
            ));
            while k < count
                invariant
                    n == comps@.len(),
                    start <= n,
                    m == n - start,
                    count == (if m >= 2 { m - 2 } else { 0 }),
                    cv == comps@.map_values(|c: String| c@),
                    c == cv.subrange(start as int, n as int),
                    k <= count,
                    out@.map_values(|t: String| t@) == base + Seq::new(
                        k as nat,
                        |j: int| "GG - …/"@ + joined(c.subrange(j + 1, m as int), "/"@),
                    ),
                decreases count - k,
            {
                let mut t = String::from_str("GG - …/");
                let rest = join_from(&comps, start + k + 1, "/");
                assert(cv.subrange(start + k + 1, n as int) =~= c.subrange(k + 1, m as int));
                t.append(rest.as_str());
                assert(t@ == "GG - …/"@ + joined(c.subrange(k + 1, m as int), "/"@));
                let ghost before = out@;
                out.push(t);
                assert(out@.map_values(|t: String| t@) =~= before.map_values(|t: String| t@).push(
                    t@,
                ));
                assert(out@.map_values(|t: String| t@) =~= base + Seq::new(
                    (k + 1) as nat,
                    |j: int| "GG - …/"@ + joined(c.subrange(j + 1, m as int), "/"@),
                ));
                k = k + 1;
            }
            let ghost elided = Seq::new(
                (if m >= 2 { m - 2 } else { 0 }) as nat,
                |j: int| "GG - …/"@ + joined(c.subrange(j + 1, m as int), "/"@),
            );
            assert(out@.map_values(|t: String| t@) =~= base + elided);
            if m >= 1 && !str_eq(comps[n - 1].as_str(), p) {
                assert(c[m - 1] == cv[n - 1]);
                let mut t = String::from_str("GG - ");
                t.append(comps[n - 1].as_str());
                let ghost before = out@;
                out.push(t);
                assert(out@.map_values(|t: String| t@) =~= before.map_values(|t: String| t@).push(
                    t@,
                ));
                assert(out@.map_values(|t: String| t@) =~= base + elided + seq!["GG - "@ + c[m - 1]]);
            } else {
                if m >= 1 {
                    assert(c[m - 1] == cv[n - 1]);
                }
                assert(out@.map_values(|t: String| t@) =~= base + elided + Seq::<Seq<char>>::empty());
            }
            out
        },
    }
}

/// The window titles to try for `workspace`, longest first.
pub fn title_candidates(workspace: Option<&str>) -> (r: Vec<String>)
    ensures
        exists|home: Option<Seq<char>>| r@.map_values(|t: String| t@) == #[trigger] title_candidates_spec(
            opt_text(workspace),
            home,
        ),
{
    match home_dir_text() {
        Some(h) => title_candidates_with(workspace, Some(h.as_str())),
        None => title_candidates_with(workspace, None),
    }
}

// ---------------------------------------------------------------------------
// Laws
// ---------------------------------------------------------------------------

/// Where `c` first occurs in `a + b`: where it occurs in `a`, else after `a`.
proof fn lemma_first_index_of_concat(a: Seq<char>, b: Seq<char>, c: char)
    ensures
        first_index_of(a + b, c) == (if 0 <= first_index_of(a, c) {
            first_index_of(a, c)
        } else if 0 <= first_index_of(b, c) {
            a.len() + first_index_of(b, c)
        } else {
            -1
        }),
{
    lemma_first_index_where_shape(a, is_char(c));
    lemma_first_index_where_shape(b, is_char(c));
    let ab = a + b;
    let ia = first_index_of(a, c);
    let ib = first_index_of(b, c);
    if ia >= 0 {
        assert forall|j: int| 0 <= j < ia implies !(is_char(c)(#[trigger] ab[j])) by {
            assert(ab[j] == a[j]);
        }
        assert(ab[ia] == a[ia]);
        lemma_first_index_where(ab, is_char(c), ia);
    } else if ib >= 0 {
        assert forall|j: int| 0 <= j < a.len() + ib implies !(is_char(c)(#[trigger] ab[j])) by {
            if j < a.len() {
                assert(ab[j] == a[j]);
            } else {
                assert(ab[j] == b[j - a.len()]);
            }
        }
        assert(ab[a.len() + ib] == b[ib]);
        lemma_first_index_where(ab, is_char(c), a.len() + ib);
    } else {
        assert forall|j: int| 0 <= j < ab.len() implies !(is_char(c)(#[trigger] ab[j])) by {
            if j < a.len() {
                assert(ab[j] == a[j]);
            } else {
                assert(ab[j] == b[j - a.len()]);
            }
        }
        lemma_first_index_where(ab, is_char(c), ab.len() as int);
    }
}

/// The components of `a/b` are those of `a` followed by those of `b`.
proof fn lemma_components_join(a: Seq<char>, b: Seq<char>)
    ensures
        components(a + seq!['/'] + b) == components(a) + components(b),
    decreases a.len(),
{
    let whole = a + seq!['/'] + b;
    assert(whole =~= a + (seq!['/'] + b));
    lemma_first_index_of_concat(a, seq!['/'] + b, '/');
    lemma_first_index_where_shape(a, is_char('/'));
    let i = first_index_of(a, '/');
    assert(first_index_of(seq!['/'] + b, '/') == 0) by {
        lemma_first_index_where(seq!['/'] + b, is_char('/'), 0);
    }
    if i < 0 {
        assert(whole.subrange(0, a.len() as int) =~= a);
        assert(whole.subrange(a.len() + 1int, whole.len() as int) =~= b);
        if a.len() == 0 {
            assert(components(a) =~= Seq::<Seq<char>>::empty());
            assert(components(a) + components(b) =~= components(b));
        }
    } else {
        let rest = a.subrange(i + 1, a.len() as int);
        assert(whole.subrange(0, i) =~= a.subrange(0, i));
        assert(whole.subrange(i + 1, whole.len() as int) =~= rest + seq!['/'] + b);
        lemma_components_join(rest, b);
        if a.subrange(0, i).len() == 0 {
        } else {
            assert(seq![a.subrange(0, i)] + (components(rest) + components(b)) =~= (seq![
                a.subrange(0, i),
            ] + components(rest)) + components(b));
        }
    }
}

/// Abbreviating a path that `~/` expanded gives back `~/` and the rest, for
/// an absolute home directory without a trailing `/` and a relative rest
/// written without empty components (so that joining its components
/// rebuilds it).
pub proof fn law_abbreviate_undoes_expand(home: Seq<char>, rest: Seq<char>)
    requires
        is_absolute(home),
        home.last() != '/',
        !is_absolute(rest),
        joined(components(rest), "/"@) == rest,
    ensures
        abbreviate_path_spec(expand_home_spec("~/"@ + rest, Some(home)), Some(home)) == "~/"@ + rest,
{
    reveal_strlit("~/");
    reveal_strlit("/");
    let p = "~/"@ + rest;
    assert(p.subrange(0, 2) =~= "~/"@);
    assert(p.subrange(2, p.len() as int) =~= rest);
    let full = home + seq!['/'] + rest;
    assert(expand_home_spec(p, Some(home)) == full);
    lemma_components_join(home, rest);
    assert(full[0] == home[0]);
    let pc = components(full);
    let hc = components(home);
    assert(pc.subrange(0, hc.len() as int) =~= hc);
    assert(pc.subrange(hc.len() as int, pc.len() as int) =~= components(rest));
}

}

//! Applying a diff hunk to the file content it was computed against.
//!
//! A hunk computed as the diff between a base file and a changed file is
//! replayed on the base to give the content of a "sibling" file that holds
//! this hunk alone.
use vstd::prelude::*;
use vstd::string::*;
use vstd::utf8::*;

use crate::messages::ChangeHunk;
use crate::text::{
    chars_of, decimal, decimal_string, first_index_of, is_char, lemma_first_index_where_shape,
    lines, lines_of, strip_cr, string_of_range, trim_end, trimmed_end_len,
};

verus! {

/// Why a hunk could not be applied.
#[derive(Clone, Debug)]
pub enum HunkError {
    /// A context or deletion line did not match the base line at `index`
    /// (0-based, so line `index + 1`); `found` is `None` past the end of the base.
    Mismatch { index: usize, expected: String, found: Option<String> },
    /// A hunk line starts with none of ` `, `-`, `+`.
    Malformed { line: String },
}

/// The abstract form of a [`HunkError`].
pub enum HunkErrorView {
    Mismatch { index: int, expected: Seq<char>, found: Option<Seq<char>> },
    Malformed { line: Seq<char> },
}

impl View for HunkError {
    type V = HunkErrorView;

    open spec fn view(&self) -> HunkErrorView {
        match self {
            HunkError::Mismatch { index, expected, found } => HunkErrorView::Mismatch {
                index: *index as int,
                expected: expected@,
                found: match found {
                    Some(f) => Some(f@),
                    None => None,
                },
            },
            HunkError::Malformed { line } => HunkErrorView::Malformed { line: line@ },
        }
    }
}

/// The message that reports a failed hunk application.
pub open spec fn hunk_error_message(e: HunkErrorView) -> Seq<char> {
    match e {
        HunkErrorView::Mismatch { index, expected, found } => "Hunk mismatch at line "@ + decimal(
            (index + 1) as nat,
        ) + ": expected '"@ + expected + "', found '"@ + match found {
            Some(f) => f,
            None => "<EOF>"@,
        } + "'"@,
        HunkErrorView::Malformed { line } => "Malformed diff line: "@ + line,
    }
}

impl HunkError {
    /// The message that reports this error.
    pub fn message(&self) -> (r: String)
        ensures
            r@ == hunk_error_message(self@),
    {
        match self {
            HunkError::Mismatch { index, expected, found } => {
                let mut m = String::from_str("Hunk mismatch at line ");
                m.append(decimal_string(*index as u128 + 1).as_str());
                m.append(": expected '");
                m.append(expected.as_str());
                m.append("', found '");
                match found {
                    Some(f) => m.append(f.as_str()),
                    None => m.append("<EOF>"),
                }
                m.append("'");
                m
            },
            HunkError::Malformed { line } => {
                let mut m = String::from_str("Malformed diff line: ");
                m.append(line.as_str());
                m
            },
        }
    }
}

/// What `String::from_utf8_lossy` makes of `bytes`.
pub uninterp spec fn utf8_lossy(bytes: Seq<u8>) -> Seq<char>;

/// Decodes `bytes` with `String::from_utf8_lossy`, which replaces each
/// invalid sequence with U+FFFD. The contract names the result and states
/// the documented case: valid UTF-8 decodes to the characters it encodes.
#[verifier::external_body]
pub(crate) fn decode_utf8_lossy(bytes: &[u8]) -> (s: String)
    ensures
        s@ == utf8_lossy(bytes@),
        valid_utf8(bytes@) ==> s@ == decode_utf8(bytes@),
{
    String::from_utf8_lossy(bytes).into_owned()
}

/// `s` without its trailing newlines (`trim_end_matches('\n')`).
pub open spec fn strip_newlines(s: Seq<char>) -> Seq<char>
    decreases s.len(),
{
    if s.len() > 0 && s.last() == '\n' {
        strip_newlines(s.drop_last())
    } else {
        s
    }
}

/// Replays `diff` on `base` from line index `idx`: the lines it produces
/// and the index of the first base line after those it consumed.
pub open spec fn replay(base: Seq<Seq<char>>, idx: int, diff: Seq<Seq<char>>) -> Result<
    (Seq<Seq<char>>, int),
    HunkErrorView,
>
    decreases diff.len(),
{
    if diff.len() == 0 {
        Ok((seq![], idx))
    } else {
        let d = diff[0];
        if d.len() > 0 && (d[0] == ' ' || d[0] == '-') {
            let expected = d.drop_first();
            if 0 <= idx < base.len() && trim_end(base[idx]) == trim_end(expected) {
                match replay(base, idx + 1, diff.drop_first()) {
                    Ok((out, end)) => Ok(
                        (if d[0] == ' ' { seq![base[idx]] + out } else { out }, end),
                    ),
                    Err(e) => Err(e),
                }
            } else {
                Err(
                    HunkErrorView::Mismatch {
                        index: idx,
                        expected: trim_end(expected),
                        found: if 0 <= idx < base.len() {
                            Some(trim_end(base[idx]))
                        } else {
                            None
                        },
                    },
                )
            }
        } else if d.len() > 0 && d[0] == '+' {
            match replay(base, idx, diff.drop_first()) {
                Ok((out, end)) => Ok((seq![strip_newlines(d.drop_first())] + out, end)),
                Err(e) => Err(e),
            }
        } else {
            Err(HunkErrorView::Malformed { line: d })
        }
    }
}

/// Replaying never moves back in the base.
proof fn lemma_replay_advances(base: Seq<Seq<char>>, idx: int, diff: Seq<Seq<char>>)
    ensures
        replay(base, idx, diff) matches Ok((out, end)) ==> end >= idx,
    decreases diff.len(),
{
    if diff.len() > 0 {
        lemma_replay_advances(base, idx + 1, diff.drop_first());
        lemma_replay_advances(base, idx, diff.drop_first());
    }
}

/// The lines of the base once the hunk starting at line index `start` is
/// replayed: the lines before it, what it produces, the lines after it.
pub open spec fn applied_lines(base: Seq<Seq<char>>, start: int, diff: Seq<Seq<char>>) -> Result<
    Seq<Seq<char>>,
    HunkErrorView,
> {
    match replay(base, start, diff) {
        Ok((out, end)) => Ok(base.subrange(0, start) + out + base.subrange(end, base.len() as int)),
        Err(e) => Err(e),
    }
}

/// Lines joined with `\n` between them.
pub open spec fn join_lines(lines: Seq<Seq<char>>) -> Seq<char>
    decreases lines.len(),
{
    if lines.len() == 0 {
        seq![]
    } else if lines.len() == 1 {
        lines[0]
    } else {
        join_lines(lines.drop_last()) + seq!['\n'] + lines.last()
    }
}

/// The bytes of `lines` joined with `\n`, each line ended by `\n` when the
/// base ended with one: the last line, empty or not, gets its `\n` back.
pub open spec fn hunk_output(base_ends_with_newline: bool, lines: Seq<Seq<char>>) -> Seq<u8> {
    let bytes = encode_utf8(join_lines(lines));
    if base_ends_with_newline && lines.len() > 0 {
        bytes.push(10u8)
    } else {
        bytes
    }
}

/// Whether `bytes` ends with a newline.
pub open spec fn ends_with_newline(bytes: Seq<u8>) -> bool {
    bytes.len() > 0 && bytes.last() == 10u8
}

/// The 0-based index of the hunk's first base line.
pub open spec fn hunk_start(hunk: ChangeHunk) -> int {
    if hunk.location.from_file.start == 0 {
        0
    } else {
        hunk.location.from_file.start - 1
    }
}

/// The result of applying `hunk` to the base text `base_text`, as bytes or
/// the error met.
pub open spec fn apply_hunk_text_result(base_text: Seq<char>, base_ends_with_newline: bool, hunk: ChangeHunk) -> Result<Seq<u8>, HunkErrorView> {
    match applied_lines(lines_of(base_text), hunk_start(hunk), hunk.lines.line_views()) {
        Ok(lines) => Ok(hunk_output(base_ends_with_newline, lines)),
        Err(e) => Err(e),
    }
}

/// The result of applying `hunk` to the base bytes `base`, decoded as
/// `String::from_utf8_lossy` decodes them.
pub open spec fn apply_hunk_result(base: Seq<u8>, hunk: ChangeHunk) -> Result<Seq<u8>, HunkErrorView> {
    apply_hunk_text_result(utf8_lossy(base), ends_with_newline(base), hunk)
}

/// Whether `hunk` starts within the lines of `base_text`.
pub open spec fn hunk_in_text_bounds(base_text: Seq<char>, hunk: ChangeHunk) -> bool {
    hunk_start(hunk) <= lines_of(base_text).len()
}

/// Whether `hunk` starts within the lines of `base`.
pub open spec fn hunk_in_bounds(base: Seq<u8>, hunk: ChangeHunk) -> bool {
    hunk_in_text_bounds(utf8_lossy(base), hunk)
}

/// Whether `a[..an]` and `b[..bn]` hold the same characters.
pub(crate) fn same_prefix(a: &Vec<char>, an: usize, b: &Vec<char>, bn: usize) -> (r: bool)
    requires
        an <= a.len(),
        bn <= b.len(),
    ensures
        r == (a@.subrange(0, an as int) == b@.subrange(0, bn as int)),
{
    if an != bn {
        assert(a@.subrange(0, an as int).len() != b@.subrange(0, bn as int).len());
        return false;
    }
    let mut i: usize = 0;
    while i < an
        invariant
            an == bn,
            an <= a.len(),
            bn <= b.len(),
            i <= an,
            forall|j: int| 0 <= j < i ==> a@[j] == b@[j],
        decreases an - i,
    {
        if a[i] != b[i] {
            assert(a@.subrange(0, an as int)[i as int] != b@.subrange(0, bn as int)[i as int]);
            return false;
        }
        i = i + 1;
    }
    assert(a@.subrange(0, an as int) =~= b@.subrange(0, bn as int));
    true
}

/// The length of `v[..n]` without its trailing newlines.
fn stripped_newlines_len(v: &Vec<char>, n: usize) -> (r: usize)
    requires
        n <= v.len(),
    ensures
        r <= n,
        strip_newlines(v@.subrange(0, n as int)) == v@.subrange(0, r as int),
    decreases n,
{
    if n > 0 && v[n - 1] == '\n' {
        assert(v@.subrange(0, n as int).drop_last() == v@.subrange(0, n - 1));
        stripped_newlines_len(v, n - 1)
    } else {
        n
    }
}

/// Joining one more line adds a separator unless it is the first line.
proof fn lemma_join_push(acc: Seq<Seq<char>>, x: Seq<char>)
    ensures
        join_lines(acc.push(x)) == (if acc.len() == 0 {
            x
        } else {
            join_lines(acc) + seq!['\n'] + x
        }),
{
    assert(acc.push(x).drop_last() == acc);
}

/// Appends `line` to `out`, which holds the lines `acc` joined.
pub(crate) fn push_line(out: &mut String, nonempty: bool, line: &str, Ghost(acc): Ghost<Seq<Seq<char>>>)
    requires
        old(out)@ == join_lines(acc),
        nonempty == (acc.len() > 0),
    ensures
        final(out)@ == join_lines(acc.push(line@)),
{
    proof {
        lemma_join_push(acc, line@);
    }
    if nonempty {
        let nl = "\n";
        proof {
            reveal_strlit("\n");
        }
        out.append(nl);
    }
    out.append(line);
}

/// Replays the hunk lines `diff[k..]` on `base` from line index `idx`,
/// appending the lines produced to `out`, which holds the lines `acc`.
/// Returns the index of the first base line not consumed.
fn replay_from(
    base: &Vec<String>,
    idx: usize,
    diff: &Vec<String>,
    k: usize,
    out: &mut String,
    nonempty: bool,
    Ghost(acc): Ghost<Seq<Seq<char>>>,
) -> (r: Result<(usize, bool), HunkError>)
    requires
        idx <= base.len(),
        k <= diff.len(),
        old(out)@ == join_lines(acc),
        nonempty == (acc.len() > 0),
    ensures
        ({
            let spec_r = replay(
                base@.map_values(|l: String| l@),
                idx as int,
                diff@.map_values(|l: String| l@).subrange(k as int, diff.len() as int),
            );
            match r {
                Ok((end, ne)) => spec_r matches Ok((lines, e)) && e == end && end <= base.len()
                    && final(out)@ == join_lines(acc + lines) && ne == (acc.len() + lines.len()
                    > 0),
                Err(e) => spec_r == Err::<(Seq<Seq<char>>, int), HunkErrorView>(e@),
            }
        }),
    decreases diff.len() - k,
{
    let ghost bl = base@.map_values(|l: String| l@);
    let ghost dl = diff@.map_values(|l: String| l@).subrange(k as int, diff.len() as int);
    if k == diff.len() {
        assert(dl.len() == 0);
        assert(acc + Seq::<Seq<char>>::empty() =~= acc);
        return Ok((idx, nonempty));
    }
    assert(dl[0] == diff@[k as int]@);
    assert(dl.drop_first() == diff@.map_values(|l: String| l@).subrange(
        k + 1,
        diff.len() as int,
    ));
    let d = &diff[k];
    let dv = chars_of(d.as_str());
    let dn = dv.len();
    if dn > 0 && (dv[0] == ' ' || dv[0] == '-') {
        let is_context = dv[0] == ' ';
        let expected = string_of_range(d.as_str(), 1, dn);
        let ev = chars_of(expected.as_str());
        let en = trimmed_end_len(&ev, ev.len());
        assert(ev@.subrange(0, ev.len() as int) == dv@.drop_first());
        if idx < base.len() {
            let bv = chars_of(base[idx].as_str());
            let bn = trimmed_end_len(&bv, bv.len());
            assert(bv@.subrange(0, bv.len() as int) == bl[idx as int]);
            if same_prefix(&bv, bn, &ev, en) {
                let ghost next = replay(bl, idx + 1, dl.drop_first());
                if is_context {
                    push_line(out, nonempty, base[idx].as_str(), Ghost(acc));
                    let r = replay_from(
                        base,
                        idx + 1,
                        diff,
                        k + 1,
                        out,
                        true,
                        Ghost(acc.push(bl[idx as int])),
                    );
                    proof {
                        if r is Ok {
                            let (lines, e) = next.get_Ok_0();
                            assert(acc.push(bl[idx as int]) + lines =~= acc + (seq![bl[idx as int]]
                                + lines));
                        }
                    }
                    return r;
                } else {
                    return replay_from(base, idx + 1, diff, k + 1, out, nonempty, Ghost(acc));
                }
            }
        }
        let expected_trimmed = string_of_range(expected.as_str(), 0, en);
        let found = if idx < base.len() {
            let bv = chars_of(base[idx].as_str());
            let bn = trimmed_end_len(&bv, bv.len());
            assert(bv@.subrange(0, bv.len() as int) == bl[idx as int]);
            Some(string_of_range(base[idx].as_str(), 0, bn))
        } else {
            None
        };
        return Err(HunkError::Mismatch { index: idx, expected: expected_trimmed, found });
    } else if dn > 0 && dv[0] == '+' {
        let rest = string_of_range(d.as_str(), 1, dn);
        let rv = chars_of(rest.as_str());
        let an = stripped_newlines_len(&rv, rv.len());
        assert(rv@.subrange(0, rv.len() as int) == dv@.drop_first());
        let added = string_of_range(rest.as_str(), 0, an);
        push_line(out, nonempty, added.as_str(), Ghost(acc));
        let r = replay_from(base, idx, diff, k + 1, out, true, Ghost(acc.push(added@)));
        proof {
            if r is Ok {
                let (lines, e) = replay(bl, idx as int, dl.drop_first()).get_Ok_0();
                assert(acc.push(added@) + lines =~= acc + (seq![added@] + lines));
            }
        }
        r
    } else {
        Err(HunkError::Malformed { line: d.clone() })
    }
}

/// Applies `hunk` to `base_content`, the content of the file the hunk was
/// computed against: the lines before the hunk, the lines it produces, the
/// lines after it, joined with `\n` and ending with `\n` when the base did.
/// Context and deletion lines must match the base (ignoring trailing white
/// space) at the hunk's line numbers.
pub fn apply_hunk_to_base(base_content: &[u8], hunk: &ChangeHunk) -> (r: Result<Vec<u8>, HunkError>)
    requires
        hunk_in_bounds(base_content@, *hunk),
    ensures
        match r {
            Ok(bytes) => apply_hunk_result(base_content@, *hunk) == Ok::<Seq<u8>, HunkErrorView>(
                bytes@,
            ),
            Err(e) => apply_hunk_result(base_content@, *hunk) == Err::<Seq<u8>, HunkErrorView>(e@),
        },
        valid_utf8(base_content@) ==> match r {
            Ok(bytes) => apply_hunk_text_result(
                decode_utf8(base_content@),
                ends_with_newline(base_content@),
                *hunk,
            ) == Ok::<Seq<u8>, HunkErrorView>(bytes@),
            Err(e) => apply_hunk_text_result(
                decode_utf8(base_content@),
                ends_with_newline(base_content@),
                *hunk,
            ) == Err::<Seq<u8>, HunkErrorView>(e@),
        },
{
    let base_text = decode_utf8_lossy(base_content);
    let n = base_content.len();
    let base_nl = n > 0 && base_content[n - 1] == 10u8;
    apply_hunk_to_text(base_text.as_str(), base_nl, hunk)
}

/// Applies `hunk` to the decoded base text `base_text`; `base_ends_with_newline`
/// tells whether the base bytes ended with a newline.
pub fn apply_hunk_to_text(base_text: &str, base_ends_with_newline: bool, hunk: &ChangeHunk) -> (r: Result<Vec<u8>, HunkError>)
    requires
        hunk_in_text_bounds(base_text@, *hunk),
    ensures
        match r {
            Ok(bytes) => apply_hunk_text_result(base_text@, base_ends_with_newline, *hunk) == Ok::<Seq<u8>, HunkErrorView>(
                bytes@,
            ),
            Err(e) => apply_hunk_text_result(base_text@, base_ends_with_newline, *hunk) == Err::<Seq<u8>, HunkErrorView>(e@),
        },
{
    let base_lines = lines(base_text);
    let ghost bl = base_lines@.map_values(|l: String| l@);

    let start = if hunk.location.from_file.start == 0 {
        0
    } else {
        hunk.location.from_file.start - 1
    };
    let mut out = String::new();
    let mut i: usize = 0;
    while i < start
        invariant
            start <= base_lines.len(),
            i <= start,
            bl == base_lines@.map_values(|l: String| l@),
            out@ == join_lines(bl.subrange(0, i as int)),
        decreases start - i,
    {
        assert(bl.subrange(0, i + 1) == bl.subrange(0, i as int).push(bl[i as int]));
        push_line(&mut out, i > 0, base_lines[i].as_str(), Ghost(bl.subrange(0, i as int)));
        i = i + 1;
    }
    let diff = &hunk.lines.lines;
    assert(diff@.map_values(|l: String| l@).subrange(0, diff.len() as int) == hunk.lines.line_views());
    let replayed = replay_from(
        &base_lines,
        start,
        diff,
        0,
        &mut out,
        start > 0,
        Ghost(bl.subrange(0, start as int)),
    );
    match replayed {
        Err(e) => Err(e),
        Ok((end, ne)) => {
            let ghost (mid, e) = replay(bl, start as int, hunk.lines.line_views()).get_Ok_0();
            proof {
                lemma_replay_advances(bl, start as int, hunk.lines.line_views());
            }
            let mut j = end;
            let mut nonempty = ne;
            while j < base_lines.len()
                invariant
                    start <= end <= j <= base_lines.len(),
                    bl == base_lines@.map_values(|l: String| l@),
                    nonempty == (start + mid.len() + (j - end) > 0),
                    out@ == join_lines(bl.subrange(0, start as int) + mid + bl.subrange(end as int, j as int)),
                decreases base_lines.len() - j,
            {
                assert(bl.subrange(0, start as int) + mid + bl.subrange(end as int, j + 1) == (bl.subrange(0, start as int) + mid + bl.subrange(end as int, j as int)).push(bl[j as int]));
                push_line(
                    &mut out,
                    nonempty,
                    base_lines[j].as_str(),
                    Ghost(bl.subrange(0, start as int) + mid + bl.subrange(end as int, j as int)),
                );
                j = j + 1;
                nonempty = true;
            }
            let mut bytes = out.as_str().as_bytes_vec();
            if base_ends_with_newline && nonempty {
                bytes.push(10u8);
            }
            Ok(bytes)
        },
    }
}

/// Applies `hunk` to `base_content` when the hunk starts within the base's
/// lines; `None` when it starts past the end.
pub fn apply_hunk_checked(base_content: &[u8], hunk: &ChangeHunk) -> (r: Option<Result<Vec<u8>, HunkError>>)
    ensures
        hunk_in_bounds(base_content@, *hunk) <==> r is Some,
        r matches Some(res) ==> match res {
            Ok(bytes) => apply_hunk_result(base_content@, *hunk) == Ok::<Seq<u8>, HunkErrorView>(
                bytes@,
            ),
            Err(e) => apply_hunk_result(base_content@, *hunk) == Err::<Seq<u8>, HunkErrorView>(e@),
        },
{
    let base_text = decode_utf8_lossy(base_content);
    let base_lines = lines(base_text.as_str());
    let start = if hunk.location.from_file.start == 0 {
        0
    } else {
        hunk.location.from_file.start - 1
    };
    if start <= base_lines.len() {
        Some(apply_hunk_to_base(base_content, hunk))
    } else {
        None
    }
}

/// A hunk of context lines copies the base lines it covers.
proof fn lemma_replay_context(base: Seq<Seq<char>>, idx: int, diff: Seq<Seq<char>>)
    requires
        0 <= idx,
        idx + diff.len() <= base.len(),
        forall|i: int| 0 <= i < diff.len() ==> #[trigger] diff[i] == seq![' '] + base[idx + i],
    ensures
        replay(base, idx, diff) == Ok::<(Seq<Seq<char>>, int), HunkErrorView>(
            (base.subrange(idx, idx + diff.len()), idx + diff.len()),
        ),
    decreases diff.len(),
{
    if diff.len() > 0 {
        assert(diff[0] == seq![' '] + base[idx]);
        assert(diff[0][0] == ' ');
        assert(diff[0].drop_first() =~= base[idx]);
        assert forall|i: int| 0 <= i < diff.drop_first().len() implies #[trigger] diff.drop_first()[i]
            == seq![' '] + base[idx + 1 + i] by {
            assert(diff.drop_first()[i] == diff[i + 1]);
        }
        lemma_replay_context(base, idx + 1, diff.drop_first());
        assert(seq![base[idx]] + base.subrange(idx + 1, idx + diff.len()) =~= base.subrange(
            idx,
            idx + diff.len(),
        ));
    } else {
        assert(base.subrange(idx, idx) =~= Seq::<Seq<char>>::empty());
    }
}

/// Replaying a hunk made only of context lines that match the base leaves
/// the base's lines as they were.
pub proof fn law_context_hunk_keeps_lines(base: Seq<Seq<char>>, start: int, diff: Seq<Seq<char>>)
    requires
        0 <= start,
        start + diff.len() <= base.len(),
        forall|i: int| 0 <= i < diff.len() ==> #[trigger] diff[i] == seq![' '] + base[start + i],
    ensures
        applied_lines(base, start, diff) == Ok::<Seq<Seq<char>>, HunkErrorView>(base),
{
    lemma_replay_context(base, start, diff);
    assert(base.subrange(0, start) + base.subrange(start, start + diff.len()) + base.subrange(
        start + diff.len(),
        base.len() as int,
    ) =~= base);
}

/// Joining a line in front of non-empty lines puts a `\n` between them.
proof fn lemma_join_lines_prepend(x: Seq<char>, ls: Seq<Seq<char>>)
    requires
        ls.len() > 0,
    ensures
        join_lines(seq![x] + ls) == x + seq!['\n'] + join_lines(ls),
    decreases ls.len(),
{
    let all = seq![x] + ls;
    assert(all.last() == ls.last());
    if ls.len() == 1 {
        assert(all.drop_last() =~= seq![x]);
        assert(join_lines(seq![x]) == x);
        assert(join_lines(ls) == ls[0]);
    } else {
        assert(all.drop_last() =~= seq![x] + ls.drop_last());
        lemma_join_lines_prepend(x, ls.drop_last());
        assert(x + seq!['\n'] + join_lines(ls.drop_last()) + seq!['\n'] + ls.last() =~= x + seq![
            '\n',
        ] + (join_lines(ls.drop_last()) + seq!['\n'] + ls.last()));
    }
}

/// The final `\n` of `s`, if it has one.
pub open spec fn final_newline(s: Seq<char>) -> Seq<char> {
    if s.len() > 0 && s.last() == '\n' {
        seq!['\n']
    } else {
        seq![]
    }
}

/// Splitting a text without carriage returns into lines and joining them
/// again gives back the text but for its final `\n`; there are lines
/// exactly when the text is non-empty.
pub proof fn lemma_lines_rejoin(s: Seq<char>)
    requires
        !s.contains('\r'),
    ensures
        join_lines(lines_of(s)) + final_newline(s) == s,
        lines_of(s).len() > 0 <==> s.len() > 0,
    decreases s.len(),
{
    if s.len() == 0 {
        assert(join_lines(lines_of(s)) + final_newline(s) =~= s);
    } else {
        let i = first_index_of(s, '\n');
        lemma_first_index_where_shape(s, is_char('\n'));
        if i < 0 {
            assert(!is_char('\n')(s[s.len() - 1]));
            assert(join_lines(lines_of(s)) + final_newline(s) =~= s);
        } else {
            let pre = s.subrange(0, i);
            let rest = s.subrange(i + 1, s.len() as int);
            if pre.len() > 0 && pre.last() == '\r' {
                assert(s[i - 1] == '\r');
                assert(s.contains('\r'));
            }
            assert(strip_cr(pre) == pre);
            assert(!rest.contains('\r')) by {
                if rest.contains('\r') {
                    let j = choose|j: int| 0 <= j < rest.len() && rest[j] == '\r';
                    assert(s[i + 1 + j] == '\r');
                    assert(s.contains('\r'));
                }
            }
            lemma_lines_rejoin(rest);
            assert(lines_of(s) == seq![pre] + lines_of(rest));
            if rest.len() == 0 {
                assert(seq![pre] + lines_of(rest) =~= seq![pre]);
                assert(i == s.len() - 1);
                assert(join_lines(lines_of(s)) + final_newline(s) =~= s);
            } else {
                lemma_join_lines_prepend(pre, lines_of(rest));
                assert(rest.last() == s.last());
                assert(final_newline(s) == final_newline(rest));
                assert(pre + seq!['\n'] + join_lines(lines_of(rest)) + final_newline(rest) =~= pre
                    + seq!['\n'] + (join_lines(lines_of(rest)) + final_newline(rest)));
                assert(pre + seq!['\n'] + rest =~= s);
            }
        }
    }
}

/// UTF-8 encodes a concatenation piece by piece.
pub proof fn lemma_encode_utf8_add(a: Seq<char>, b: Seq<char>)
    ensures
        encode_utf8(a + b) == encode_utf8(a) + encode_utf8(b),
    decreases a.len(),
{
    if a.len() == 0 {
        assert(a + b =~= b);
        assert(encode_utf8(a) + encode_utf8(b) =~= encode_utf8(b));
    } else {
        assert((a + b).drop_first() =~= a.drop_first() + b);
        assert((a + b)[0] == a[0]);
        lemma_encode_utf8_add(a.drop_first(), b);
        assert(encode_scalar(a[0] as u32) + (encode_utf8(a.drop_first()) + encode_utf8(b))
            =~= encode_scalar(a[0] as u32) + encode_utf8(a.drop_first()) + encode_utf8(b));
    }
}

/// A line feed encodes to the byte 10, and no other character encodes to
/// bytes that end with 10.
pub proof fn lemma_encode_newline(c: char)
    ensures
        encode_utf8(seq![c]).len() > 0,
        encode_utf8(seq![c]).last() == 10u8 <==> c == '\n',
        c == '\n' ==> encode_utf8(seq![c]) == seq![10u8],
{
    let v = c as u32;
    assert(seq![c].drop_first() =~= Seq::<char>::empty());
    assert(encode_utf8(Seq::<char>::empty()) =~= Seq::<u8>::empty());
    assert(seq![c][0] == c);
    assert(encode_utf8(seq![c]) =~= encode_scalar(v) + encode_utf8(seq![c].drop_first()));
    assert(encode_utf8(seq![c]) =~= encode_scalar(v));
    if has_width_1_encoding(v) {
        assert((v & 0x7F) as u8 == 10u8 <==> v == 10u32) by (bit_vector)
            requires
                v <= 0x7F,
        ;
        assert(encode_scalar(v) =~= seq![(v & 0x7F) as u8]);
    } else {
        assert((0x80 | (v & 0x3F) as u8) != 10u8) by (bit_vector);
    }
}

/// Splitting UTF-8 bytes without carriage returns into lines and putting
/// them back as a hunk's output does gives back the bytes.
pub proof fn lemma_output_of_own_lines(base: Seq<u8>)
    requires
        valid_utf8(base),
        !decode_utf8(base).contains('\r'),
    ensures
        hunk_output(ends_with_newline(base), lines_of(decode_utf8(base))) == base,
{
    let t = decode_utf8(base);
    lemma_lines_rejoin(t);
    decode_utf8_encode_utf8(base);
    let j = join_lines(lines_of(t));
    lemma_encode_utf8_add(j, final_newline(t));
    if t.len() > 0 && t.last() == '\n' {
        lemma_encode_newline('\n');
        assert(encode_utf8(j) + seq![10u8] =~= encode_utf8(j).push(10u8));
    } else {
        assert(j + final_newline(t) =~= j);
        if t.len() > 0 {
            assert(t =~= t.drop_last() + seq![t.last()]);
            lemma_encode_utf8_add(t.drop_last(), seq![t.last()]);
            lemma_encode_newline(t.last());
        }
    }
}

/// Applying a hunk made only of context lines that match the base gives
/// back the base byte for byte, for a base in UTF-8 without carriage
/// returns (which line splitting drops).
pub proof fn law_context_hunk_keeps_base(base: Seq<u8>, hunk: ChangeHunk)
    requires
        valid_utf8(base),
        !decode_utf8(base).contains('\r'),
        hunk_start(hunk) + hunk.lines.line_views().len() <= lines_of(decode_utf8(base)).len(),
        forall|i: int|
            0 <= i < hunk.lines.line_views().len() ==> #[trigger] hunk.lines.line_views()[i]
                == seq![' '] + lines_of(decode_utf8(base))[hunk_start(hunk) + i],
    ensures
        apply_hunk_text_result(decode_utf8(base), ends_with_newline(base), hunk) == Ok::<
            Seq<u8>,
            HunkErrorView,
        >(base),
{
    law_context_hunk_keeps_lines(
        lines_of(decode_utf8(base)),
        hunk_start(hunk),
        hunk.lines.line_views(),
    );
    lemma_output_of_own_lines(base);
}

/// A text without `\n` loses nothing to `strip_newlines`.
proof fn lemma_strip_newlines_none(t: Seq<char>)
    requires
        !t.contains('\n'),
    ensures
        strip_newlines(t) == t,
{
    if t.len() > 0 && t.last() == '\n' {
        assert(t[t.len() - 1] == '\n');
        assert(t.contains('\n'));
    }
}

/// Replaying addition lines produces their texts and consumes no base line.
proof fn lemma_replay_additions(base: Seq<Seq<char>>, idx: int, ts: Seq<Seq<char>>, diff: Seq<Seq<char>>)
    requires
        diff.len() == ts.len(),
        forall|i: int| 0 <= i < diff.len() ==> #[trigger] diff[i] == seq!['+'] + ts[i],
        forall|i: int| 0 <= i < ts.len() ==> !(#[trigger] ts[i]).contains('\n'),
    ensures
        replay(base, idx, diff) == Ok::<(Seq<Seq<char>>, int), HunkErrorView>((ts, idx)),
    decreases diff.len(),
{
    if diff.len() == 0 {
        assert(ts =~= Seq::<Seq<char>>::empty());
    } else {
        let d = diff[0];
        assert(d == seq!['+'] + ts[0]);
        assert(d[0] == '+');
        assert(d.drop_first() =~= ts[0]);
        assert(!ts[0].contains('\n'));
        lemma_strip_newlines_none(ts[0]);
        assert forall|i: int| 0 <= i < diff.drop_first().len() implies #[trigger] diff.drop_first()[i]
            == seq!['+'] + ts.drop_first()[i] by {
            assert(diff.drop_first()[i] == diff[i + 1]);
            assert(ts.drop_first()[i] == ts[i + 1]);
        }
        assert forall|i: int| 0 <= i < ts.drop_first().len() implies !(
        #[trigger] ts.drop_first()[i]).contains('\n') by {
            assert(ts.drop_first()[i] == ts[i + 1]);
        }
        lemma_replay_additions(base, idx, ts.drop_first(), diff.drop_first());
        assert(seq![ts[0]] + ts.drop_first() =~= ts);
    }
}

/// A hunk of addition lines `+t` inserts the texts `t` as they are written
/// (each without `\n`) before the base line at `start`, and keeps every
/// base line.
pub proof fn law_additions_inserted(base: Seq<Seq<char>>, start: int, ts: Seq<Seq<char>>, diff: Seq<Seq<char>>)
    requires
        0 <= start <= base.len(),
        diff.len() == ts.len(),
        forall|i: int| 0 <= i < diff.len() ==> #[trigger] diff[i] == seq!['+'] + ts[i],
        forall|i: int| 0 <= i < ts.len() ==> !(#[trigger] ts[i]).contains('\n'),
    ensures
        applied_lines(base, start, diff) == Ok::<Seq<Seq<char>>, HunkErrorView>(
            base.subrange(0, start) + ts + base.subrange(start, base.len() as int),
        ),
{
    lemma_replay_additions(base, start, ts, diff);
}

/// An addition line `+t` adds `t` as it is written, leading white space
/// included: applied at the start of an empty base, a hunk of that one line
/// gives the UTF-8 bytes of `t`.
pub proof fn law_added_line_kept_verbatim(t: Seq<char>, hunk: ChangeHunk)
    requires
        hunk_start(hunk) == 0,
        hunk.lines.line_views() == seq![seq!['+'] + t],
        !t.contains('\n'),
    ensures
        apply_hunk_text_result(Seq::<char>::empty(), false, hunk) == Ok::<Seq<u8>, HunkErrorView>(
            encode_utf8(t),
        ),
{
    let base = lines_of(Seq::<char>::empty());
    assert(base =~= Seq::<Seq<char>>::empty());
    let diff = hunk.lines.line_views();
    assert(diff[0] == seq!['+'] + t);
    law_additions_inserted(base, 0, seq![t], diff);
    assert(base.subrange(0, 0) + seq![t] + base.subrange(0, 0) =~= seq![t]);
    assert(join_lines(seq![t]) == t);
}

/// Replaying deletion lines that match the base consumes those base lines
/// and produces nothing.
proof fn lemma_replay_deletions(base: Seq<Seq<char>>, idx: int, diff: Seq<Seq<char>>)
    requires
        0 <= idx,
        idx + diff.len() <= base.len(),
        forall|i: int| 0 <= i < diff.len() ==> #[trigger] diff[i] == seq!['-'] + base[idx + i],
    ensures
        replay(base, idx, diff) == Ok::<(Seq<Seq<char>>, int), HunkErrorView>(
            (Seq::<Seq<char>>::empty(), idx + diff.len()),
        ),
    decreases diff.len(),
{
    if diff.len() > 0 {
        assert(diff[0] == seq!['-'] + base[idx]);
        assert(diff[0][0] == '-');
        assert(diff[0].drop_first() =~= base[idx]);
        assert forall|i: int| 0 <= i < diff.drop_first().len() implies #[trigger] diff.drop_first()[i]
            == seq!['-'] + base[idx + 1 + i] by {
            assert(diff.drop_first()[i] == diff[i + 1]);
        }
        lemma_replay_deletions(base, idx + 1, diff.drop_first());
    }
}

/// A hunk of deletion lines that match the base removes exactly those base
/// lines and keeps every other one.
pub proof fn law_deletions_removed(base: Seq<Seq<char>>, start: int, diff: Seq<Seq<char>>)
    requires
        0 <= start,
        start + diff.len() <= base.len(),
        forall|i: int| 0 <= i < diff.len() ==> #[trigger] diff[i] == seq!['-'] + base[start + i],
    ensures
        applied_lines(base, start, diff) == Ok::<Seq<Seq<char>>, HunkErrorView>(
            base.subrange(0, start) + base.subrange(start + diff.len(), base.len() as int),
        ),
{
    lemma_replay_deletions(base, start, diff);
    assert(base.subrange(0, start) + Seq::<Seq<char>>::empty() =~= base.subrange(0, start));
}

/// A hunk whose first line is context or deletion that does not match the
/// base line at `start` (trailing white space aside) is refused with a
/// mismatch at that line, naming what was expected and what was found;
/// past the end of the base, nothing is found.
pub proof fn law_first_line_mismatch_reported(
    base: Seq<Seq<char>>,
    start: int,
    marker: char,
    expected: Seq<char>,
    diff: Seq<Seq<char>>,
)
    requires
        0 <= start,
        marker == ' ' || marker == '-',
        diff.len() > 0,
        diff[0] == seq![marker] + expected,
        start < base.len() ==> trim_end(base[start]) != trim_end(expected),
    ensures
        applied_lines(base, start, diff) == Err::<Seq<Seq<char>>, HunkErrorView>(
            HunkErrorView::Mismatch {
                index: start,
                expected: trim_end(expected),
                found: if start < base.len() {
                    Some(trim_end(base[start]))
                } else {
                    None
                },
            },
        ),
{
    assert(diff[0][0] == marker);
    assert(diff[0].drop_first() =~= expected);
}

/// Replaying a hunk whose first line is malformed reports that line.
pub proof fn law_malformed_line_rejected(base: Seq<Seq<char>>, start: int, diff: Seq<Seq<char>>)
    requires
        diff.len() > 0,
        diff[0].len() == 0 || (diff[0][0] != ' ' && diff[0][0] != '-' && diff[0][0] != '+'),
    ensures
        applied_lines(base, start, diff) == Err::<Seq<Seq<char>>, HunkErrorView>(
            HunkErrorView::Malformed { line: diff[0] },
        ),
{
}

}

//! Restoring a hunk: putting back into a destination file the lines that a
//! hunk covers in the source file, after checking that the destination
//! still holds what the hunk says it does.
use vstd::prelude::*;
use vstd::utf8::*;

use crate::hunk::{
    decode_utf8_lossy, ends_with_newline, final_newline, join_lines, lemma_encode_newline,
    lemma_encode_utf8_add, lemma_lines_rejoin, push_line, same_prefix, utf8_lossy,
};
use crate::messages::{ChangeHunk, FileRange};
use crate::text::{
    chars_of, decimal, decimal_string, lines, lines_of, string_of_range, trim_end,
    trimmed_end_len,
};

verus! {

/// Why a hunk could not be restored.
#[derive(Clone, Debug)]
pub enum RestoreError {
    /// The destination file has `lines` lines; the hunk needs lines
    /// `start` (1-based) to `end`.
    DestinationOutOfBounds { lines: usize, start: usize, end: usize },
    /// The hunk says the destination has `expected` lines where its range
    /// holds `found`.
    LineCount { expected: usize, found: usize },
    /// Line `line` (1-based) of the destination is not what the hunk says.
    LineMismatch { line: usize, expected: String, found: String },
    /// The source file has `lines` lines; the hunk needs lines `start`
    /// (1-based) to `end`.
    SourceOutOfBounds { lines: usize, start: usize, end: usize },
}

/// The abstract form of a [`RestoreError`].
pub enum RestoreErrorView {
    DestinationOutOfBounds { lines: int, start: int, end: int },
    LineCount { expected: int, found: int },
    LineMismatch { line: int, expected: Seq<char>, found: Seq<char> },
    SourceOutOfBounds { lines: int, start: int, end: int },
}

impl View for RestoreError {
    type V = RestoreErrorView;

    open spec fn view(&self) -> RestoreErrorView {
        match self {
            RestoreError::DestinationOutOfBounds { lines, start, end } => {
                RestoreErrorView::DestinationOutOfBounds {
                    lines: *lines as int,
                    start: *start as int,
                    end: *end as int,
                }
            },
            RestoreError::LineCount { expected, found } => RestoreErrorView::LineCount {
                expected: *expected as int,
                found: *found as int,
            },
            RestoreError::LineMismatch { line, expected, found } => RestoreErrorView::LineMismatch {
                line: *line as int,
                expected: expected@,
                found: found@,
            },
            RestoreError::SourceOutOfBounds { lines, start, end } => {
                RestoreErrorView::SourceOutOfBounds {
                    lines: *lines as int,
                    start: *start as int,
                    end: *end as int,
                }
            },
        }
    }
}

/// The message that reports a failed restore.
pub open spec fn restore_error_message(e: RestoreErrorView) -> Seq<char> {
    match e {
        RestoreErrorView::DestinationOutOfBounds { lines, start, end } => "Hunk location out of bounds: file has "@
            + decimal(lines as nat) + " lines, hunk requires lines "@ + decimal(start as nat) + "-"@
            + decimal(end as nat),
        RestoreErrorView::LineCount { expected, found } => "Hunk validation failed: expected "@
            + decimal(expected as nat) + " lines, found "@ + decimal(found as nat)
            + " lines at destination"@,
        RestoreErrorView::LineMismatch { line, expected, found } => "Hunk validation failed at line "@
            + decimal(line as nat) + ": expected '"@ + expected + "', found '"@ + found + "'"@,
        RestoreErrorView::SourceOutOfBounds { lines, start, end } => "Source hunk location out of bounds: file has "@
            + decimal(lines as nat) + " lines, hunk requires lines "@ + decimal(start as nat) + "-"@
            + decimal(end as nat),
    }
}

/// The bounds message: `prefix`, then "file has L lines, hunk requires
/// lines S-E".
fn bounds_message(prefix: &str, lines: usize, start: usize, end: usize) -> (r: String)
    ensures
        r@ == prefix@ + "file has "@ + decimal(lines as nat) + " lines, hunk requires lines "@
            + decimal(start as nat) + "-"@ + decimal(end as nat),
{
    let mut m = String::from_str(prefix);
    m.append("file has ");
    m.append(decimal_string(lines as u128).as_str());
    m.append(" lines, hunk requires lines ");
    m.append(decimal_string(start as u128).as_str());
    m.append("-");
    m.append(decimal_string(end as u128).as_str());
    m
}

impl RestoreError {
    /// The message that reports this error.
    pub fn message(&self) -> (r: String)
        ensures
            r@ == restore_error_message(self@),
    {
        proof {
            reveal_strlit("Hunk location out of bounds: ");
            reveal_strlit("Source hunk location out of bounds: ");
            reveal_strlit("Hunk location out of bounds: file has ");
            reveal_strlit("Source hunk location out of bounds: file has ");
            reveal_strlit("file has ");
        }
        match self {
            RestoreError::DestinationOutOfBounds { lines, start, end } => {
                let r = bounds_message("Hunk location out of bounds: ", *lines, *start, *end);
                assert(r@ =~= restore_error_message(self@));
                r
            },
            RestoreError::LineCount { expected, found } => {
                let mut m = String::from_str("Hunk validation failed: expected ");
                m.append(decimal_string(*expected as u128).as_str());
                m.append(" lines, found ");
                m.append(decimal_string(*found as u128).as_str());
                m.append(" lines at destination");
                m
            },
            RestoreError::LineMismatch { line, expected, found } => {
                let mut m = String::from_str("Hunk validation failed at line ");
                m.append(decimal_string(*line as u128).as_str());
                m.append(": expected '");
                m.append(expected.as_str());
                m.append("', found '");
                m.append(found.as_str());
                m.append("'");
                m
            },
            RestoreError::SourceOutOfBounds { lines, start, end } => {
                let r = bounds_message("Source hunk location out of bounds: ", *lines, *start, *end);
                assert(r@ =~= restore_error_message(self@));
                r
            },
        }
    }
}

/// The 0-based index of the first line of a range given 1-based.
pub open spec fn range_start(r: FileRange) -> int {
    if r.start == 0 {
        0
    } else {
        r.start - 1
    }
}

/// The 0-based index just after the range.
pub open spec fn range_end(r: FileRange) -> int {
    range_start(r) + r.len
}

/// The lines a hunk says the destination holds: its context and added
/// lines, without their marker and trailing white space.
pub open spec fn restored_lines(diff: Seq<Seq<char>>) -> Seq<Seq<char>>
    decreases diff.len(),
{
    if diff.len() == 0 {
        seq![]
    } else {
        let rest = restored_lines(diff.drop_last());
        let d = diff.last();
        if d.len() > 0 && (d[0] == ' ' || d[0] == '+') {
            rest.push(trim_end(d.drop_first()))
        } else {
            rest
        }
    }
}

/// The first index where `a` and `b` differ, or -1.
pub open spec fn first_difference(a: Seq<Seq<char>>, b: Seq<Seq<char>>) -> int
    decreases a.len(),
{
    if a.len() == 0 || b.len() == 0 {
        -1
    } else if a[0] != b[0] {
        0
    } else {
        let r = first_difference(a.drop_first(), b.drop_first());
        if r < 0 { -1 } else { r + 1 }
    }
}

/// Characterises `first_difference` by the index it designates.
proof fn lemma_first_difference(a: Seq<Seq<char>>, b: Seq<Seq<char>>, i: int)
    requires
        a.len() == b.len(),
        0 <= i <= a.len(),
        forall|j: int| 0 <= j < i ==> a[j] == b[j],
        i == a.len() || a[i] != b[i],
    ensures
        first_difference(a, b) == (if i == a.len() { -1 } else { i }),
    decreases a.len(),
{
    if a.len() > 0 && i > 0 {
        assert(a[0] == b[0]);
        assert forall|j: int| 0 <= j < i - 1 implies a.drop_first()[j] == b.drop_first()[j] by {
            assert(a.drop_first()[j] == a[j + 1]);
            assert(b.drop_first()[j] == b[j + 1]);
        }
        if i < a.len() {
            assert(a.drop_first()[i - 1] == a[i]);
            assert(b.drop_first()[i - 1] == b[i]);
        }
        lemma_first_difference(a.drop_first(), b.drop_first(), i - 1);
    }
}

/// Each line with its trailing white space removed.
pub open spec fn trimmed(ls: Seq<Seq<char>>) -> Seq<Seq<char>> {
    ls.map_values(|l: Seq<char>| trim_end(l))
}

/// The new destination bytes: `lines` joined with `\n`, with a final `\n`
/// added when the destination ended with one and the joined bytes are
/// non-empty and lack it.
pub open spec fn restored_content(to_ends_with_newline: bool, lines: Seq<Seq<char>>) -> Seq<u8> {
    let bytes = encode_utf8(join_lines(lines));
    if to_ends_with_newline && bytes.len() > 0 && bytes.last() != 10u8 {
        bytes.push(10u8)
    } else {
        bytes
    }
}

/// The result of restoring `hunk` into the destination `to` from the source
/// `from`: the new destination bytes, `None` when nothing changes, or the
/// check that failed. `to_text` and `from_text` are the decoded texts.
pub open spec fn restore_text_result(
    to: Seq<u8>,
    to_text: Seq<char>,
    from_text: Seq<char>,
    hunk: ChangeHunk,
) -> Result<Option<Seq<u8>>, RestoreErrorView> {
    let to_lines = lines_of(to_text);
    let from_lines = lines_of(from_text);
    let ts = range_start(hunk.location.to_file);
    let te = range_end(hunk.location.to_file);
    let fs = range_start(hunk.location.from_file);
    let fe = range_end(hunk.location.from_file);
    let expected = restored_lines(hunk.lines.line_views());
    let actual = trimmed(to_lines.subrange(ts, te));
    let k = first_difference(expected, actual);
    if te > to_lines.len() {
        Err(
            RestoreErrorView::DestinationOutOfBounds {
                lines: to_lines.len() as int,
                start: hunk.location.to_file.start as int,
                end: te,
            },
        )
    } else if expected.len() != actual.len() {
        Err(RestoreErrorView::LineCount { expected: expected.len() as int, found: actual.len() as int })
    } else if k >= 0 {
        Err(RestoreErrorView::LineMismatch { line: ts + k + 1, expected: expected[k], found: actual[k] })
    } else if fe > from_lines.len() {
        Err(
            RestoreErrorView::SourceOutOfBounds {
                lines: from_lines.len() as int,
                start: hunk.location.from_file.start as int,
                end: fe,
            },
        )
    } else {
        let new_lines = to_lines.subrange(0, ts) + from_lines.subrange(fs, fe) + to_lines.subrange(
            te,
            to_lines.len() as int,
        );
        let bytes = restored_content(ends_with_newline(to), new_lines);
        if bytes == to {
            Ok(None)
        } else {
            Ok(Some(bytes))
        }
    }
}

/// The result of restoring `hunk` from `from` into `to`, both decoded as
/// `String::from_utf8_lossy` decodes them.
pub open spec fn restore_result(to: Seq<u8>, from: Seq<u8>, hunk: ChangeHunk) -> Result<
    Option<Seq<u8>>,
    RestoreErrorView,
> {
    restore_text_result(to, utf8_lossy(to), utf8_lossy(from), hunk)
}

/// Whether the ranges of `hunk` can be computed without overflow.
pub open spec fn ranges_fit(hunk: ChangeHunk) -> bool {
    range_end(hunk.location.to_file) <= usize::MAX && range_end(hunk.location.from_file)
        <= usize::MAX
}

/// The 0-based start of a range.
fn start_index(r: &FileRange) -> (i: usize)
    ensures
        i == range_start(*r),
{
    if r.start == 0 {
        0
    } else {
        r.start - 1
    }
}

/// The lines the hunk says the destination holds.
fn expected_lines(diff: &Vec<String>) -> (r: Vec<String>)
    ensures
        r@.map_values(|l: String| l@) == restored_lines(diff@.map_values(|l: String| l@)),
{
    let ghost dl = diff@.map_values(|l: String| l@);
    let mut out: Vec<String> = Vec::new();
    let mut k: usize = 0;
    assert(dl.subrange(0, 0) =~= Seq::<Seq<char>>::empty());
    while k < diff.len()
        invariant
            k <= diff.len(),
            dl == diff@.map_values(|l: String| l@),
            out@.map_values(|l: String| l@) == restored_lines(dl.subrange(0, k as int)),
        decreases diff.len() - k,
    {
        assert(dl.subrange(0, k + 1).drop_last() == dl.subrange(0, k as int));
        assert(dl.subrange(0, k + 1).last() == diff@[k as int]@);
        let d = diff[k].as_str();
        let dv = chars_of(d);
        let n = dv.len();
        if n > 0 && (dv[0] == ' ' || dv[0] == '+') {
            let body = string_of_range(d, 1, n);
            let bv = chars_of(body.as_str());
            let e = trimmed_end_len(&bv, bv.len());
            assert(bv@.subrange(0, bv.len() as int) == dv@.drop_first());
            let line = string_of_range(body.as_str(), 0, e);
            let ghost before = out@;
            out.push(line);
            assert(out@.map_values(|l: String| l@) =~= before.map_values(|l: String| l@).push(
                line@,
            ));
        }
        k = k + 1;
    }
    assert(dl.subrange(0, diff.len() as int) =~= dl);
    out
}

/// Whether two byte sequences are equal.
fn bytes_eq(a: &Vec<u8>, b: &[u8]) -> (r: bool)
    ensures
        r == (a@ == b@),
{
    if a.len() != b.len() {
        return false;
    }
    let mut i: usize = 0;
    while i < a.len()
        invariant
            a@.len() == b@.len(),
            i <= a.len(),
            forall|j: int| 0 <= j < i ==> a@[j] == b@[j],
        decreases a.len() - i,
    {
        if a[i] != b[i] {
            return false;
        }
        i = i + 1;
    }
    assert(a@ =~= b@);
    true
}

/// Appends the lines `ls[from..to]` to `out`, which holds the lines `acc`.
fn push_lines(
    out: &mut String,
    ls: &Vec<String>,
    from: usize,
    to: usize,
    nonempty: bool,
    Ghost(acc): Ghost<Seq<Seq<char>>>,
)
    requires
        from <= to <= ls.len(),
        old(out)@ == join_lines(acc),
        nonempty == (acc.len() > 0),
    ensures
        final(out)@ == join_lines(acc + ls@.map_values(|l: String| l@).subrange(
            from as int,
            to as int,
        )),
{
    let ghost lv = ls@.map_values(|l: String| l@);
    let mut i = from;
    let mut ne = nonempty;
    assert(acc + lv.subrange(from as int, from as int) =~= acc);
    while i < to
        invariant
            from <= i <= to <= ls.len(),
            lv == ls@.map_values(|l: String| l@),
            out@ == join_lines(acc + lv.subrange(from as int, i as int)),
            ne == (acc.len() + (i - from) > 0),
        decreases to - i,
    {
        let ghost pre = acc + lv.subrange(from as int, i as int);
        assert(acc + lv.subrange(from as int, i + 1) =~= pre.push(lv[i as int]));
        push_line(out, ne, ls[i].as_str(), Ghost(pre));
        ne = true;
        i = i + 1;
    }
}

/// Restores `hunk` into the destination whose bytes are `to_content` and
/// whose decoded text is `to_text`, taking the lines from the decoded source
/// text `from_text`.
pub fn restore_hunk_text(
    to_content: &[u8],
    to_text: &str,
    from_text: &str,
    hunk: &ChangeHunk,
) -> (r: Result<Option<Vec<u8>>, RestoreError>)
    requires
        ranges_fit(*hunk),
    ensures
        match (r, restore_text_result(to_content@, to_text@, from_text@, *hunk)) {
            (Ok(Some(a)), Ok(Some(b))) => a@ == b,
            (Ok(None), Ok(None)) => true,
            (Err(a), Err(b)) => a@ == b,
            _ => false,
        },
{
    let to_lines = lines(to_text);
    let from_lines = lines(from_text);
    let ghost tl = to_lines@.map_values(|l: String| l@);
    let ghost fl = from_lines@.map_values(|l: String| l@);
    let ts = start_index(&hunk.location.to_file);
    let te = ts + hunk.location.to_file.len;
    let fs = start_index(&hunk.location.from_file);
    let fe = fs + hunk.location.from_file.len;
    if te > to_lines.len() {
        return Err(
            RestoreError::DestinationOutOfBounds {
                lines: to_lines.len(),
                start: hunk.location.to_file.start,
                end: te,
            },
        );
    }
    let expected = expected_lines(&hunk.lines.lines);
    let ghost ev = expected@.map_values(|l: String| l@);
    assert(hunk.lines.lines@.map_values(|l: String| l@) =~= hunk.lines.line_views());
    assert(ev == restored_lines(hunk.lines.line_views()));
    let ghost av = trimmed(tl.subrange(ts as int, te as int));
    if expected.len() != te - ts {
        return Err(RestoreError::LineCount { expected: expected.len(), found: te - ts });
    }
    let mut i: usize = 0;
    while i < expected.len()
        invariant
            ts <= te <= to_lines.len(),
            expected.len() == te - ts,
            tl == to_lines@.map_values(|l: String| l@),
            tl == lines_of(to_text@),
            ts == range_start(hunk.location.to_file),
            te == range_end(hunk.location.to_file),
            ev == expected@.map_values(|l: String| l@),
            ev == restored_lines(hunk.lines.line_views()),
            av == trimmed(tl.subrange(ts as int, te as int)),
            i <= expected.len(),
            forall|j: int| 0 <= j < i ==> ev[j] == av[j],
        decreases expected.len() - i,
    {
        let xv = chars_of(expected[i].as_str());
        let line = to_lines[ts + i].as_str();
        let lv = chars_of(line);
        let ln = trimmed_end_len(&lv, lv.len());
        assert(lv@.subrange(0, lv.len() as int) == tl[ts + i]);
        assert(xv@.subrange(0, xv.len() as int) == ev[i as int]);
        assert(av[i as int] == trim_end(tl[ts + i]));
        if !same_prefix(&xv, xv.len(), &lv, ln) {
            proof {
                assert(ev[i as int] != av[i as int]);
                lemma_first_difference(ev, av, i as int);
                assert(av.len() == te - ts);
            }
            let found = string_of_range(line, 0, ln);
            return Err(
                RestoreError::LineMismatch {
                    line: ts + i + 1,
                    expected: String::from_str(expected[i].as_str()),
                    found,
                },
            );
        }
        i = i + 1;
    }
    proof {
        lemma_first_difference(ev, av, ev.len() as int);
    }
    if fe > from_lines.len() {
        return Err(
            RestoreError::SourceOutOfBounds {
                lines: from_lines.len(),
                start: hunk.location.from_file.start,
                end: fe,
            },
        );
    }
    let mut out = String::new();
    assert(join_lines(Seq::<Seq<char>>::empty()) == Seq::<char>::empty());
    push_lines(&mut out, &to_lines, 0, ts, false, Ghost(Seq::<Seq<char>>::empty()));
    assert(Seq::<Seq<char>>::empty() + tl.subrange(0, ts as int) =~= tl.subrange(0, ts as int));
    push_lines(&mut out, &from_lines, fs, fe, ts > 0, Ghost(tl.subrange(0, ts as int)));
    push_lines(
        &mut out,
        &to_lines,
        te,
        to_lines.len(),
        ts > 0 || fe > fs,
        Ghost(tl.subrange(0, ts as int) + fl.subrange(fs as int, fe as int)),
    );
    let mut bytes = out.as_str().as_bytes_vec();
    let n = to_content.len();
    let to_nl = n > 0 && to_content[n - 1] == 10u8;
    let bn = bytes.len();
    if to_nl && bn > 0 && bytes[bn - 1] != 10u8 {
        bytes.push(10u8);
    }
    if bytes_eq(&bytes, to_content) {
        Ok(None)
    } else {
        Ok(Some(bytes))
    }
}

/// Restores `hunk` into the destination file `to_content` from the source
/// file `from_content`: checks that the destination's range holds the
/// hunk's context and added lines (ignoring trailing white space), then
/// replaces that range by the source's range. `None` when the destination
/// would not change.
pub fn restore_hunk(to_content: &[u8], from_content: &[u8], hunk: &ChangeHunk) -> (r: Result<
    Option<Vec<u8>>,
    RestoreError,
>)
    requires
        ranges_fit(*hunk),
    ensures
        match (r, restore_result(to_content@, from_content@, *hunk)) {
            (Ok(Some(a)), Ok(Some(b))) => a@ == b,
            (Ok(None), Ok(None)) => true,
            (Err(a), Err(b)) => a@ == b,
            _ => false,
        },
        valid_utf8(to_content@) ==> match (
            r,
            restore_text_result(to_content@, decode_utf8(to_content@), utf8_lossy(from_content@), *hunk),
        ) {
            (Ok(Some(a)), Ok(Some(b))) => a@ == b,
            (Ok(None), Ok(None)) => true,
            (Err(a), Err(b)) => a@ == b,
            _ => false,
        },
{
    let to_text = decode_utf8_lossy(to_content);
    let from_text = decode_utf8_lossy(from_content);
    restore_hunk_text(to_content, to_text.as_str(), from_text.as_str(), hunk)
}

/// Putting back the lines of a destination in UTF-8 without carriage
/// returns gives back its bytes, unless it ends with an empty line (a
/// final `\n\n`, or the text `\n` alone), which line splitting drops.
pub proof fn lemma_restored_own_lines(to: Seq<u8>)
    requires
        valid_utf8(to),
        !decode_utf8(to).contains('\r'),
        !ends_with_empty_line(decode_utf8(to)),
    ensures
        restored_content(ends_with_newline(to), lines_of(decode_utf8(to))) == to,
{
    let t = decode_utf8(to);
    let j = join_lines(lines_of(t));
    lemma_lines_rejoin(t);
    decode_utf8_encode_utf8(to);
    lemma_encode_utf8_add(j, final_newline(t));
    if t.len() > 0 && t.last() == '\n' {
        lemma_encode_newline('\n');
        assert(j =~= t.drop_last());
        assert(j.len() > 0);
        assert(j.last() == t[t.len() - 2]);
        assert(j =~= j.drop_last() + seq![j.last()]);
        lemma_encode_utf8_add(j.drop_last(), seq![j.last()]);
        lemma_encode_newline(j.last());
        assert(encode_utf8(j) + seq![10u8] =~= encode_utf8(j).push(10u8));
    } else {
        assert(j + final_newline(t) =~= j);
        if t.len() > 0 {
            assert(t =~= t.drop_last() + seq![t.last()]);
            lemma_encode_utf8_add(t.drop_last(), seq![t.last()]);
            lemma_encode_newline(t.last());
        }
    }
}

/// Whether `t` ends with an empty line: it is `\n` alone or ends with `\n\n`.
pub open spec fn ends_with_empty_line(t: Seq<char>) -> bool {
    t == seq!['\n'] || (t.len() >= 2 && t.last() == '\n' && t[t.len() - 2] == '\n')
}

/// Restoring a hunk whose source range holds the lines that the
/// destination's range already holds leaves the destination as it is (when
/// the checks pass), for a destination in UTF-8 without carriage returns
/// that does not end with an empty line.
pub proof fn law_restore_same_lines_unchanged(to: Seq<u8>, from_text: Seq<char>, hunk: ChangeHunk)
    requires
        valid_utf8(to),
        !decode_utf8(to).contains('\r'),
        !ends_with_empty_line(decode_utf8(to)),
        restore_text_result(to, decode_utf8(to), from_text, hunk) is Ok,
        lines_of(from_text).subrange(
            range_start(hunk.location.from_file),
            range_end(hunk.location.from_file),
        ) == lines_of(decode_utf8(to)).subrange(
            range_start(hunk.location.to_file),
            range_end(hunk.location.to_file),
        ),
    ensures
        restore_text_result(to, decode_utf8(to), from_text, hunk) == Ok::<
            Option<Seq<u8>>,
            RestoreErrorView,
        >(None),
{
    let tl = lines_of(decode_utf8(to));
    let ts = range_start(hunk.location.to_file);
    let te = range_end(hunk.location.to_file);
    assert(tl.subrange(0, ts) + tl.subrange(ts, te) + tl.subrange(te, tl.len() as int) =~= tl);
    lemma_restored_own_lines(to);
}

}

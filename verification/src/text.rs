//! Character-level helpers shared by the string-processing modules:
//! searching, line splitting and whitespace trimming, each stated over
//! `Seq<char>` and implemented over `Vec<char>` / `String`.
use vstd::prelude::*;
use vstd::string::*;

verus! {

/// The index of the first element of `s` that satisfies `p`, or -1 when
/// there is none.
pub open spec fn first_index_where(s: Seq<char>, p: spec_fn(char) -> bool) -> int
    decreases s.len(),
{
    if s.len() == 0 {
        -1
    } else if p(s[0]) {
        0
    } else {
        let r = first_index_where(s.drop_first(), p);
        if r < 0 { -1 } else { r + 1 }
    }
}

/// The index of the first occurrence of `c` in `s`, or -1.
pub open spec fn first_index_of(s: Seq<char>, c: char) -> int {
    first_index_where(s, is_char(c))
}

/// The predicate that holds of `c` alone.
pub open spec fn is_char(c: char) -> spec_fn(char) -> bool {
    |x: char| x == c
}

/// Characterises `first_index_where` by the position it designates.
pub proof fn lemma_first_index_where(s: Seq<char>, p: spec_fn(char) -> bool, i: int)
    requires
        0 <= i <= s.len(),
        forall|j: int| 0 <= j < i ==> !p(#[trigger] s[j]),
        i == s.len() || p(s[i]),
    ensures
        first_index_where(s, p) == (if i == s.len() { -1 } else { i }),
    decreases s.len(),
{
    if s.len() == 0 {
    } else if i == 0 {
    } else {
        assert(!p(s[0]));
        assert forall|j: int| 0 <= j < i - 1 implies !p(#[trigger] s.drop_first()[j]) by {
            assert(s.drop_first()[j] == s[j + 1]);
        }
        if i < s.len() {
            assert(s.drop_first()[i - 1] == s[i]);
        }
        lemma_first_index_where(s.drop_first(), p, i - 1);
    }
}

/// The result of `first_index_where` is in range and has the designated shape.
pub proof fn lemma_first_index_where_shape(s: Seq<char>, p: spec_fn(char) -> bool)
    ensures
        -1 <= first_index_where(s, p) < s.len(),
        first_index_where(s, p) >= 0 ==> p(s[first_index_where(s, p)]),
        forall|j: int|
            0 <= j < s.len() && (first_index_where(s, p) < 0 || j < first_index_where(s, p))
                ==> !p(#[trigger] s[j]),
    decreases s.len(),
{
    if s.len() > 0 && !p(s[0]) {
        lemma_first_index_where_shape(s.drop_first(), p);
        assert forall|j: int|
            0 <= j < s.len() && (first_index_where(s, p) < 0 || j < first_index_where(s, p))
            implies !p(#[trigger] s[j]) by {
            if j > 0 {
                assert(s[j] == s.drop_first()[j - 1]);
            }
        }
    }
}

/// Copies the characters of `s` into a vector.
pub fn chars_of(s: &str) -> (v: Vec<char>)
    ensures
        v@ == s@,
{
    let mut v: Vec<char> = Vec::new();
    for c in it: s.chars()
        invariant
            v@ == it.seq().subrange(0, it.index() as int),
    {
        v.push(c);
    }
    v
}

/// The first index at or after `from` where `v` holds `c`.
pub fn find_char_from(v: &Vec<char>, from: usize, c: char) -> (r: Option<usize>)
    requires
        from <= v.len(),
    ensures
        first_index_of(v@.subrange(from as int, v.len() as int), c) == (match r {
            Some(i) => i - from,
            None => -1,
        }),
        r matches Some(i) ==> from <= i < v.len(),
{
    let mut i = from;
    while i < v.len()
        invariant
            from <= i <= v.len(),
            forall|j: int| from <= j < i ==> v@[j] != c,
        decreases v.len() - i,
    {
        if v[i] == c {
            proof {
                let s = v@.subrange(from as int, v.len() as int);
                assert forall|j: int| 0 <= j < i - from implies !(is_char(c)(#[trigger] s[j])) by {
                    assert(s[j] == v@[from + j]);
                }
                lemma_first_index_where(s, is_char(c), i - from);
            }
            return Some(i);
        }
        i = i + 1;
    }
    proof {
        let s = v@.subrange(from as int, v.len() as int);
        assert forall|j: int| 0 <= j < s.len() implies !(is_char(c)(#[trigger] s[j])) by {
            assert(s[j] == v@[from + j]);
        }
        lemma_first_index_where(s, is_char(c), s.len() as int);
    }
    None
}

/// Whether `c` is white space in the sense of `char::is_whitespace`
/// (the Unicode `White_Space` property).
pub open spec fn is_white_space(c: char) -> bool {
    let u = c as u32;
    ||| 0x09 <= u <= 0x0d
    ||| u == 0x20
    ||| u == 0x85
    ||| u == 0xa0
    ||| u == 0x1680
    ||| 0x2000 <= u <= 0x200a
    ||| u == 0x2028
    ||| u == 0x2029
    ||| u == 0x202f
    ||| u == 0x205f
    ||| u == 0x3000
}

/// `char::is_whitespace`.
pub fn char_is_white_space(c: char) -> (r: bool)
    ensures
        r == is_white_space(c),
{
    let u = c as u32;
    (0x09 <= u && u <= 0x0d) || u == 0x20 || u == 0x85 || u == 0xa0 || u == 0x1680 || (0x2000 <= u
        && u <= 0x200a) || u == 0x2028 || u == 0x2029 || u == 0x202f || u == 0x205f || u == 0x3000
}

/// `s` without its trailing white space, as `str::trim_end` gives it.
pub open spec fn trim_end(s: Seq<char>) -> Seq<char>
    decreases s.len(),
{
    if s.len() > 0 && is_white_space(s.last()) {
        trim_end(s.drop_last())
    } else {
        s
    }
}

/// `s` without its leading white space, as `str::trim_start` gives it.
pub open spec fn trim_start(s: Seq<char>) -> Seq<char>
    decreases s.len(),
{
    if s.len() > 0 && is_white_space(s[0]) {
        trim_start(s.drop_first())
    } else {
        s
    }
}

/// `s` without white space at either end, as `str::trim` gives it.
pub open spec fn trim(s: Seq<char>) -> Seq<char> {
    trim_end(trim_start(s))
}

/// The length of `trim_end(s.subrange(0, n))`.
pub fn trimmed_end_len(v: &Vec<char>, n: usize) -> (r: usize)
    requires
        n <= v.len(),
    ensures
        r <= n,
        trim_end(v@.subrange(0, n as int)) == v@.subrange(0, r as int),
    decreases n,
{
    if n > 0 && char_is_white_space(v[n - 1]) {
        assert(v@.subrange(0, n as int).drop_last() == v@.subrange(0, n - 1));
        trimmed_end_len(v, n - 1)
    } else {
        n
    }
}

/// The start of `trim_start(s.subrange(from, v.len()))` within `v`.
pub fn trimmed_start_index(v: &Vec<char>, from: usize) -> (r: usize)
    requires
        from <= v.len(),
    ensures
        from <= r <= v.len(),
        trim_start(v@.subrange(from as int, v.len() as int)) == v@.subrange(
            r as int,
            v.len() as int,
        ),
    decreases v.len() - from,
{
    if from < v.len() && char_is_white_space(v[from]) {
        assert(v@.subrange(from as int, v.len() as int).drop_first() == v@.subrange(
            from + 1,
            v.len() as int,
        ));
        trimmed_start_index(v, from + 1)
    } else {
        from
    }
}

/// `s` with one trailing carriage return removed, if it has one.
pub open spec fn strip_cr(s: Seq<char>) -> Seq<char> {
    if s.len() > 0 && s.last() == '\r' {
        s.drop_last()
    } else {
        s
    }
}

/// The lines of `s` as `str::lines` yields them: split after each `\n`,
/// that `\n` and one `\r` before it removed, no empty line after a final `\n`.
pub open spec fn lines_of(s: Seq<char>) -> Seq<Seq<char>>
    decreases s.len(),
{
    if s.len() == 0 {
        seq![]
    } else {
        let i = first_index_of(s, '\n');
        if i < 0 || i >= s.len() {
            seq![s]
        } else {
            seq![strip_cr(s.subrange(0, i))] + lines_of(s.subrange(i + 1, s.len() as int))
        }
    }
}

/// Copies `v[from..to]` into a new string.
pub fn string_of_range(s: &str, from: usize, to: usize) -> (r: String)
    requires
        from <= to <= s@.len(),
    ensures
        r@ == s@.subrange(from as int, to as int),
{
    String::from_str(s.substring_char(from, to))
}

/// Splits `s` into its lines, as `str::lines` does.
pub fn lines(s: &str) -> (r: Vec<String>)
    ensures
        r@.map_values(|l: String| l@) == lines_of(s@),
{
    let v = chars_of(s);
    let n = v.len();
    let mut out: Vec<String> = Vec::new();
    let mut start: usize = 0;
    assert(v@.subrange(0, n as int) == s@);
    assert(Seq::<String>::empty().map_values(|l: String| l@) + lines_of(s@) =~= lines_of(s@));
    while start < n
        invariant
            n == v.len(),
            v@ == s@,
            start <= n,
            out@.map_values(|l: String| l@) + lines_of(v@.subrange(start as int, n as int))
                == lines_of(s@),
        decreases n - start,
    {
        let ghost rest = v@.subrange(start as int, n as int);
        let found = find_char_from(&v, start, '\n');
        match found {
            Some(i) => {
                let end = if i > start && v[i - 1] == '\r' {
                    i - 1
                } else {
                    i
                };
                let line = string_of_range(s, start, end);
                proof {
                    lemma_first_index_where_shape(rest, is_char('\n'));
                    assert(rest.subrange(0, i - start) == v@.subrange(start as int, i as int));
                    assert(strip_cr(rest.subrange(0, i - start)) == v@.subrange(
                        start as int,
                        end as int,
                    ));
                    assert(rest.subrange(i - start + 1, rest.len() as int) == v@.subrange(
                        i + 1,
                        n as int,
                    ));
                }
                let ghost before = out@.map_values(|l: String| l@);
                out.push(line);
                assert(out@.map_values(|l: String| l@) == before.push(line@));
                assert(lines_of(rest) == seq![line@] + lines_of(v@.subrange(i + 1, n as int)));
                assert(before + lines_of(rest) == before.push(line@) + lines_of(
                    v@.subrange(i + 1, n as int),
                ));
                start = i + 1;
            },
            None => {
                let line = string_of_range(s, start, n);
                let ghost before = out@.map_values(|l: String| l@);
                out.push(line);
                assert(out@.map_values(|l: String| l@) == before.push(line@));
                assert(lines_of(rest) == seq![rest]);
                assert(lines_of(v@.subrange(n as int, n as int)) =~= Seq::<Seq<char>>::empty());
                assert(before + lines_of(rest) == before.push(line@) + lines_of(
                    v@.subrange(n as int, n as int),
                ));
                start = n;
            },
        }
    }
    assert(lines_of(v@.subrange(n as int, n as int)) =~= Seq::<Seq<char>>::empty());
    assert(out@.map_values(|l: String| l@) + Seq::<Seq<char>>::empty() =~= out@.map_values(
        |l: String| l@,
    ));
    out
}

/// The strings `parts` joined with `sep` between them.
pub open spec fn joined(parts: Seq<Seq<char>>, sep: Seq<char>) -> Seq<char>
    decreases parts.len(),
{
    if parts.len() == 0 {
        seq![]
    } else if parts.len() == 1 {
        parts[0]
    } else {
        joined(parts.drop_last(), sep) + sep + parts.last()
    }
}

/// Joins `parts[from..]` with `sep` between them.
pub fn join_from(parts: &Vec<String>, from: usize, sep: &str) -> (r: String)
    requires
        from <= parts.len(),
    ensures
        r@ == joined(parts@.map_values(|p: String| p@).subrange(from as int, parts.len() as int), sep@),
{
    let ghost all = parts@.map_values(|p: String| p@);
    let mut out = String::new();
    let mut i = from;
    assert(all.subrange(from as int, from as int) =~= Seq::<Seq<char>>::empty());
    while i < parts.len()
        invariant
            from <= i <= parts.len(),
            all == parts@.map_values(|p: String| p@),
            out@ == joined(all.subrange(from as int, i as int), sep@),
        decreases parts.len() - i,
    {
        let ghost pre = all.subrange(from as int, i + 1);
        assert(pre.drop_last() == all.subrange(from as int, i as int));
        assert(pre.last() == parts@[i as int]@);
        if i > from {
            out.append(sep);
        } else {
            assert(pre.len() == 1);
        }
        out.append(parts[i].as_str());
        i = i + 1;
    }
    out
}

/// The `/`-separated components of `s`, empty ones left out.
pub open spec fn components(s: Seq<char>) -> Seq<Seq<char>>
    decreases s.len(),
{
    let i = first_index_of(s, '/');
    if i < 0 || i >= s.len() {
        if s.len() == 0 {
            seq![]
        } else {
            seq![s]
        }
    } else {
        let head = s.subrange(0, i);
        let tail = components(s.subrange(i + 1, s.len() as int));
        if head.len() == 0 {
            tail
        } else {
            seq![head] + tail
        }
    }
}

/// Splits `s` into its `/`-separated components, leaving out empty ones.
pub fn split_components(s: &str) -> (r: Vec<String>)
    ensures
        r@.map_values(|c: String| c@) == components(s@),
{
    let v = chars_of(s);
    let n = v.len();
    let mut out: Vec<String> = Vec::new();
    let mut start: usize = 0;
    assert(v@.subrange(0, n as int) == s@);
    assert(Seq::<String>::empty().map_values(|c: String| c@) + components(s@) =~= components(s@));
    while start < n
        invariant
            n == v.len(),
            v@ == s@,
            start <= n,
            out@.map_values(|c: String| c@) + components(v@.subrange(start as int, n as int))
                == components(s@),
        decreases n - start,
    {
        let ghost rest = v@.subrange(start as int, n as int);
        let ghost before = out@.map_values(|c: String| c@);
        match find_char_from(&v, start, '/') {
            Some(i) => {
                proof {
                    lemma_first_index_where_shape(rest, is_char('/'));
                    assert(rest.subrange(0, i - start) == v@.subrange(start as int, i as int));
                    assert(rest.subrange(i - start + 1, rest.len() as int) == v@.subrange(
                        i + 1,
                        n as int,
                    ));
                }
                if i > start {
                    let part = string_of_range(s, start, i);
                    out.push(part);
                    assert(out@.map_values(|c: String| c@) == before.push(part@));
                    assert(before + components(rest) == before.push(part@) + components(
                        v@.subrange(i + 1, n as int),
                    ));
                } else {
                    assert(v@.subrange(start as int, i as int).len() == 0);
                }
                start = i + 1;
            },
            None => {
                let part = string_of_range(s, start, n);
                out.push(part);
                assert(out@.map_values(|c: String| c@) == before.push(part@));
                assert(components(rest) == seq![rest]);
                assert(components(v@.subrange(n as int, n as int)) =~= Seq::<Seq<char>>::empty());
                assert(before + components(rest) == before.push(part@) + components(
                    v@.subrange(n as int, n as int),
                ));
                start = n;
            },
        }
    }
    assert(components(v@.subrange(n as int, n as int)) =~= Seq::<Seq<char>>::empty());
    assert(out@.map_values(|c: String| c@) + Seq::<Seq<char>>::empty() =~= out@.map_values(
        |c: String| c@,
    ));
    out
}


/// The pieces of `s` between occurrences of `c`, as `str::split` yields them:
/// always at least one piece, empty pieces kept.
pub open spec fn split_char(s: Seq<char>, c: char) -> Seq<Seq<char>>
    decreases s.len(),
{
    let i = first_index_of(s, c);
    if i < 0 || i >= s.len() {
        seq![s]
    } else {
        seq![s.subrange(0, i)] + split_char(s.subrange(i + 1, s.len() as int), c)
    }
}

/// Splits `s` at each occurrence of `c`, as `str::split` does.
pub fn split_on(s: &str, c: char) -> (r: Vec<String>)
    ensures
        r@.map_values(|p: String| p@) == split_char(s@, c),
{
    let v = chars_of(s);
    let n = v.len();
    let mut out: Vec<String> = Vec::new();
    let mut start: usize = 0;
    let mut done = false;
    assert(v@.subrange(0, n as int) == s@);
    assert(Seq::<String>::empty().map_values(|p: String| p@) + split_char(s@, c) =~= split_char(
        s@,
        c,
    ));
    while !done
        invariant
            n == v.len(),
            v@ == s@,
            start <= n,
            !done ==> out@.map_values(|p: String| p@) + split_char(
                v@.subrange(start as int, n as int),
                c,
            ) == split_char(s@, c),
            done ==> out@.map_values(|p: String| p@) == split_char(s@, c),
        decreases n - start + (if done { 0int } else { 1int }),
    {
        let ghost rest = v@.subrange(start as int, n as int);
        let ghost before = out@.map_values(|p: String| p@);
        match find_char_from(&v, start, c) {
            Some(i) => {
                proof {
                    lemma_first_index_where_shape(rest, is_char(c));
                    assert(rest.subrange(0, i - start) == v@.subrange(start as int, i as int));
                    assert(rest.subrange(i - start + 1, rest.len() as int) == v@.subrange(
                        i + 1,
                        n as int,
                    ));
                }
                let part = string_of_range(s, start, i);
                out.push(part);
                assert(out@.map_values(|p: String| p@) == before.push(part@));
                assert(before + split_char(rest, c) == before.push(part@) + split_char(
                    v@.subrange(i + 1, n as int),
                    c,
                ));
                start = i + 1;
            },
            None => {
                let part = string_of_range(s, start, n);
                out.push(part);
                assert(out@.map_values(|p: String| p@) == before.push(part@));
                assert(split_char(rest, c) == seq![rest]);
                assert(before + split_char(rest, c) == before.push(part@));
                done = true;
            },
        }
    }
    out
}

/// Whether two strings hold the same characters.
pub fn str_eq(a: &str, b: &str) -> (r: bool)
    ensures
        r == (a@ == b@),
{
    String::from_str(a) == String::from_str(b)
}

/// The end of `trim_end(v[from..n])` within `v`.
pub fn trimmed_end_from(v: &Vec<char>, from: usize, n: usize) -> (r: usize)
    requires
        from <= n <= v.len(),
    ensures
        from <= r <= n,
        trim_end(v@.subrange(from as int, n as int)) == v@.subrange(from as int, r as int),
    decreases n,
{
    if n > from && char_is_white_space(v[n - 1]) {
        assert(v@.subrange(from as int, n as int).drop_last() == v@.subrange(
            from as int,
            n - 1,
        ));
        trimmed_end_from(v, from, n - 1)
    } else {
        n
    }
}

/// `str::trim`: `s` without white space at either end.
pub fn trim_str(s: &str) -> (r: String)
    ensures
        r@ == trim(s@),
{
    let v = chars_of(s);
    let n = v.len();
    let a = trimmed_start_index(&v, 0);
    assert(v@.subrange(0, n as int) == s@);
    let b = trimmed_end_from(&v, a, n);
    string_of_range(s, a, b)
}

/// Trimming the end never lengthens a text.
pub proof fn lemma_trim_end_len(s: Seq<char>)
    ensures
        trim_end(s).len() <= s.len(),
    decreases s.len(),
{
    if s.len() > 0 && is_white_space(s.last()) {
        lemma_trim_end_len(s.drop_last());
    }
}

/// The text of an optional string slice.
pub open spec fn opt_text(o: Option<&str>) -> Option<Seq<char>> {
    match o {
        Some(s) => Some(s@),
        None => None,
    }
}

/// A text that trimming leaves alone starts with no white space.
pub proof fn lemma_trim_start_of_trimmed(s: Seq<char>)
    requires
        trim(s) == s,
    ensures
        trim_start(s) == s,
{
    lemma_trim_end_len(trim_start(s));
    lemma_trim_start_len(s);
    if s.len() > 0 && is_white_space(s[0]) {
        lemma_trim_start_len(s.drop_first());
    }
}

/// Trimming the start never lengthens a text.
pub proof fn lemma_trim_start_len(s: Seq<char>)
    ensures
        trim_start(s).len() <= s.len(),
    decreases s.len(),
{
    if s.len() > 0 && is_white_space(s[0]) {
        lemma_trim_start_len(s.drop_first());
    }
}

/// White space at the start of `a` is all that trimming the start of
/// `a + b` removes, when `a` has a character that is not white space.
pub proof fn lemma_trim_start_append(a: Seq<char>, b: Seq<char>)
    requires
        trim_start(a).len() > 0,
    ensures
        trim_start(a + b) == trim_start(a) + b,
    decreases a.len(),
{
    if a.len() > 0 && is_white_space(a[0]) {
        assert((a + b).drop_first() =~= a.drop_first() + b);
        assert((a + b)[0] == a[0]);
        lemma_trim_start_append(a.drop_first(), b);
    } else {
        if a.len() > 0 {
            assert((a + b)[0] == a[0]);
        }
    }
}

/// Joining `x` in front of a non-empty list puts `x` and the separator first.
proof fn lemma_joined_prepend(x: Seq<char>, rest: Seq<Seq<char>>, sep: Seq<char>)
    requires
        rest.len() > 0,
    ensures
        joined(seq![x] + rest, sep) == x + sep + joined(rest, sep),
    decreases rest.len(),
{
    let all = seq![x] + rest;
    if rest.len() == 1 {
        assert(all.drop_last() =~= seq![x]);
        assert(all.last() == rest[0]);
        assert(joined(seq![x], sep) == x);
    } else {
        assert(all.drop_last() =~= seq![x] + rest.drop_last());
        assert(all.last() == rest.last());
        lemma_joined_prepend(x, rest.drop_last(), sep);
        assert(x + sep + joined(rest.drop_last(), sep) + sep + rest.last() =~= x + sep + (joined(
            rest.drop_last(),
            sep,
        ) + sep + rest.last()));
    }
}

/// Splitting a text at a character and joining the pieces with that
/// character gives the text back.
pub proof fn law_split_join_round_trip(s: Seq<char>, c: char)
    ensures
        joined(split_char(s, c), seq![c]) == s,
    decreases s.len(),
{
    lemma_first_index_where_shape(s, is_char(c));
    let i = first_index_of(s, c);
    if i < 0 || i >= s.len() {
        assert(joined(seq![s], seq![c]) == s);
    } else {
        let rest = s.subrange(i + 1, s.len() as int);
        law_split_join_round_trip(rest, c);
        let pieces = split_char(rest, c);
        lemma_split_char_non_empty(rest, c);
        lemma_joined_prepend(s.subrange(0, i), pieces, seq![c]);
        assert(s.subrange(0, i) + seq![c] + rest =~= s);
    }
}

/// Splitting always yields at least one piece.
proof fn lemma_split_char_non_empty(s: Seq<char>, c: char)
    ensures
        split_char(s, c).len() > 0,
    decreases s.len(),
{
    lemma_first_index_where_shape(s, is_char(c));
}

/// Whether `part` occurs in `s`.
pub open spec fn contains_text(s: Seq<char>, part: Seq<char>) -> bool {
    exists|k: int| 0 <= k && k + part.len() <= s.len() && #[trigger] s.subrange(k, k + part.len()) == part
}

/// Each part occurs in the parts joined, at the returned position.
pub proof fn lemma_joined_contains(parts: Seq<Seq<char>>, sep: Seq<char>, i: int) -> (k: int)
    requires
        0 <= i < parts.len(),
    ensures
        0 <= k,
        k + parts[i].len() <= joined(parts, sep).len(),
        joined(parts, sep).subrange(k, k + parts[i].len()) == parts[i],
    decreases parts.len(),
{
    let j = joined(parts, sep);
    if parts.len() == 1 {
        assert(j.subrange(0, parts[i].len() as int) =~= parts[i]);
        0
    } else {
        let front = joined(parts.drop_last(), sep);
        assert(j == front + sep + parts.last());
        if i == parts.len() - 1 {
            let k: int = (front.len() + sep.len()) as int;
            assert(j.subrange(k, k + parts[i].len()) =~= parts[i]);
            k
        } else {
            let k = lemma_joined_contains(parts.drop_last(), sep, i);
            assert(parts.drop_last()[i] == parts[i]);
            assert(j.subrange(k, k + parts[i].len()) =~= front.subrange(k, k + parts[i].len()));
            k
        }
    }
}

/// The character of the decimal digit `d`.
pub open spec fn digit_char(d: nat) -> char {
    if d == 0 {
        '0'
    } else if d == 1 {
        '1'
    } else if d == 2 {
        '2'
    } else if d == 3 {
        '3'
    } else if d == 4 {
        '4'
    } else if d == 5 {
        '5'
    } else if d == 6 {
        '6'
    } else if d == 7 {
        '7'
    } else if d == 8 {
        '8'
    } else {
        '9'
    }
}

/// `n` written in decimal, without leading zeros.
pub open spec fn decimal(n: nat) -> Seq<char>
    decreases n,
{
    if n < 10 {
        seq![digit_char(n)]
    } else {
        decimal(n / 10).push(digit_char(n % 10))
    }
}

/// The decimal digit `d` as a string.
fn digit_str(d: usize) -> (r: &'static str)
    requires
        d < 10,
    ensures
        r@ == seq![digit_char(d as nat)],
{
    proof {
        reveal_strlit("0");
        reveal_strlit("1");
        reveal_strlit("2");
        reveal_strlit("3");
        reveal_strlit("4");
        reveal_strlit("5");
        reveal_strlit("6");
        reveal_strlit("7");
        reveal_strlit("8");
        reveal_strlit("9");
    }
    match d {
        0 => "0",
        1 => "1",
        2 => "2",
        3 => "3",
        4 => "4",
        5 => "5",
        6 => "6",
        7 => "7",
        8 => "8",
        _ => "9",
    }
}

/// Writes `n` in decimal, as `format!("{}", n)` does.
pub fn decimal_string(n: u128) -> (r: String)
    ensures
        r@ == decimal(n as nat),
    decreases n,
{
    if n < 10 {
        String::from_str(digit_str(n as usize))
    } else {
        let mut s = decimal_string(n / 10);
        s.append(digit_str((n % 10) as usize));
        s
    }
}

}

//! Markdown heading paths: where text can be inserted at the end of the
//! section named by a path of headings such as `Weekly Log/Monday`.
//!
//! Positions are worked out on the characters of the document and reported
//! as byte offsets, as `str` indexing counts them.
use vstd::prelude::*;

use crate::text::{byte_len, byte_offset, chars_of, range_eq, trim, trim_end, trim_end_range, trim_range};

verus! {

// ---------------------------------------------------------------------------
// The model
// ---------------------------------------------------------------------------

/// The index of the first line break at or after `pos`, or the length of `s`.
pub open spec fn line_end(s: Seq<char>, pos: int) -> int
    decreases s.len() - pos,
{
    if pos >= s.len() {
        s.len() as int
    } else if s[pos] == '\n' {
        pos
    } else {
        line_end(s, pos + 1)
    }
}

/// The number of `#` characters that `t` starts with.
pub open spec fn hash_run(t: Seq<char>) -> nat
    decreases t.len(),
{
    if t.len() > 0 && t[0] == '#' {
        1 + hash_run(t.drop_first())
    } else {
        0
    }
}

/// The level and title of a heading line: one to six `#`, a space, then a
/// title that is not blank once trimmed; trailing whitespace of the line is
/// ignored.
pub open spec fn heading_of_line(line: Seq<char>) -> Option<(nat, Seq<char>)> {
    let t = trim_end(line);
    let level = hash_run(t);
    if 1 <= level <= 6 && level < t.len() && t[level as int] == ' ' && trim(
        t.skip(level + 1int),
    ).len() > 0 {
        Some((level, trim(t.skip(level + 1int))))
    } else {
        None
    }
}

/// A heading of the document: its level, its title and the position where
/// its line starts.
pub type HeadingView = (nat, Seq<char>, nat);

/// The headings of the lines of `s` that start at or after line start `pos`,
/// in document order.
pub open spec fn headings_from(s: Seq<char>, pos: int) -> Seq<HeadingView>
    decreases s.len() + 1 - pos
    via headings_from_decreases
{
    if pos < 0 || pos >= s.len() {
        Seq::empty()
    } else {
        let e = line_end(s, pos);
        let rest = headings_from(s, e + 1);
        match heading_of_line(s.subrange(pos, e)) {
            Some((level, title)) => seq![(level, title, pos as nat)] + rest,
            None => rest,
        }
    }
}

#[via_fn]
proof fn headings_from_decreases(s: Seq<char>, pos: int) {
    if 0 <= pos < s.len() {
        lemma_line_end(s, pos);
    }
}

/// The headings of the document `s`, in document order.
pub open spec fn headings_of(s: Seq<char>) -> Seq<HeadingView> {
    headings_from(s, 0)
}

/// Where the section of a heading of level `level` ends, searching the
/// headings from index `j` on: the start of the first heading before `end`
/// whose level is the same or higher (a smaller or equal number), else `end`.
pub open spec fn section_end_from(hs: Seq<HeadingView>, level: nat, j: int, end: nat) -> nat
    decreases hs.len() - j,
{
    if j < 0 || j >= hs.len() {
        end
    } else if hs[j].2 < end && hs[j].0 <= level {
        hs[j].2
    } else {
        section_end_from(hs, level, j + 1, end)
    }
}

/// Where the section of heading `i` ends, within a search that stops at `end`.
pub open spec fn section_end_after(hs: Seq<HeadingView>, i: int, end: nat) -> nat {
    section_end_from(hs, hs[i].0, i + 1, end)
}

/// The end of the section named by `path`, searching the headings from index
/// `i` on that start before `end` and have at least level `min_level`: the
/// first heading titled `path[0]` whose section holds the rest of the path
/// (or that ends the path) decides; a heading whose section does not hold the
/// rest of the path is passed over.
pub open spec fn find_path(
    hs: Seq<HeadingView>,
    path: Seq<Seq<char>>,
    i: nat,
    min_level: nat,
    end: nat,
) -> Option<nat>
    decreases path.len(), hs.len() - i,
{
    if path.len() == 0 || i >= hs.len() || hs[i as int].2 >= end {
        None
    } else if hs[i as int].0 < min_level || hs[i as int].1 != path[0] {
        find_path(hs, path, i + 1, min_level, end)
    } else {
        let section_end = section_end_after(hs, i as int, end);
        if path.len() == 1 {
            Some(section_end)
        } else {
            match find_path(hs, path.drop_first(), i + 1, hs[i as int].0 + 1, section_end) {
                Some(p) => Some(p),
                None => find_path(hs, path, i + 1, min_level, end),
            }
        }
    }
}

/// The character position where text goes at the end of the section named by
/// `path` in document `s`, if the path is found.
pub open spec fn section_end_position(s: Seq<char>, path: Seq<Seq<char>>) -> Option<nat> {
    find_path(headings_of(s), path, 0, 1, s.len())
}

/// The characters of each element of a path of `&str`.
pub open spec fn path_view(path: Seq<&str>) -> Seq<Seq<char>> {
    path.map_values(|p: &str| p@)
}

// ---------------------------------------------------------------------------
// Facts about the model
// ---------------------------------------------------------------------------

/// A line ends at or after its start, at a line break or at the end.
pub proof fn lemma_line_end(s: Seq<char>, pos: int)
    requires
        0 <= pos <= s.len(),
    ensures
        pos <= line_end(s, pos) <= s.len(),
        line_end(s, pos) < s.len() ==> s[line_end(s, pos)] == '\n',
        forall|k: int| pos <= k < line_end(s, pos) ==> s[k] != '\n',
    decreases s.len() - pos,
{
    if pos < s.len() && s[pos] != '\n' {
        lemma_line_end(s, pos + 1);
    }
}

/// Every heading starts a line (at the start of the document or just after a
/// line break), lies within the document, and comes after the previous one.
pub proof fn lemma_headings_from(s: Seq<char>, pos: int)
    requires
        0 <= pos,
        pos == 0 || (pos <= s.len() && s[pos - 1] == '\n'),
    ensures
        forall|k: int|
            0 <= k < headings_from(s, pos).len() ==> {
                let h = #[trigger] headings_from(s, pos)[k];
                &&& pos <= h.2 < s.len()
                &&& (h.2 == 0 || s[h.2 - 1] == '\n')
                &&& 1 <= h.0 <= 6
                &&& heading_of_line(s.subrange(h.2 as int, line_end(s, h.2 as int))) == Some(
                    (h.0, h.1),
                )
            },
        forall|k: int, l: int|
            0 <= k < l < headings_from(s, pos).len() ==> #[trigger] headings_from(s, pos)[k].2
                < #[trigger] headings_from(s, pos)[l].2,
    decreases s.len() - pos,
{
    if pos < s.len() {
        let e = line_end(s, pos);
        lemma_line_end(s, pos);
        if e < s.len() {
            lemma_headings_from(s, e + 1);
        }
        let rest = headings_from(s, e + 1);
        assert(forall|k: int| 0 <= k < rest.len() ==> #[trigger] rest[k].2 > e);
    }
}

/// Where text goes at the end of a heading path lies within the document, at
/// the start of a line: either the end of the document or the start of a
/// heading line. A heading titled like the last element of the path starts
/// before it.
pub proof fn law_section_end_at_line_start(s: Seq<char>, path: Seq<Seq<char>>)
    ensures
        section_end_position(s, path) matches Some(k) ==> {
            &&& k <= s.len()
            &&& k == s.len() || heading_of_line(s.subrange(k as int, line_end(s, k as int))) is Some
            &&& k == 0 || k == s.len() || s[k - 1] == '\n'
            &&& exists|j: int|
                0 <= j < headings_of(s).len() && headings_of(s)[j].1 == path.last()
                    && headings_of(s)[j].2 < k
        },
{
    lemma_headings_from(s, 0);
    lemma_find_path(headings_of(s), path, 0, 1, s.len());
}

/// A section ends at `end` or at the start of a later heading before `end`.
pub proof fn lemma_section_end_from(hs: Seq<HeadingView>, level: nat, j: int, end: nat)
    requires
        0 <= j,
    ensures
        section_end_from(hs, level, j, end) <= end,
        section_end_from(hs, level, j, end) == end || exists|k: int|
            j <= k < hs.len() && hs[k].2 == section_end_from(hs, level, j, end),
    decreases hs.len() - j,
{
    if j < hs.len() && !(hs[j].2 < end && hs[j].0 <= level) {
        lemma_section_end_from(hs, level, j + 1, end);
    }
}

/// A found position lies at or before `end`, and is `end` itself or the start
/// of a heading; a heading titled like the last element of the path starts
/// before it.
pub proof fn lemma_find_path(
    hs: Seq<HeadingView>,
    path: Seq<Seq<char>>,
    i: nat,
    min_level: nat,
    end: nat,
)
    requires
        sorted_starts(hs),
    ensures
        find_path(hs, path, i, min_level, end) matches Some(p) ==> {
            &&& p <= end
            &&& (p == end || exists|k: int| 0 <= k < hs.len() && hs[k].2 == p)
            &&& exists|k: int|
                0 <= k < hs.len() && hs[k].1 == path.last() && hs[k].2 < p
        },
    decreases path.len(), hs.len() - i,
{
    if path.len() == 0 || i >= hs.len() || hs[i as int].2 >= end {
    } else if hs[i as int].0 < min_level || hs[i as int].1 != path[0] {
        lemma_find_path(hs, path, i + 1, min_level, end);
    } else {
        let section_end = section_end_after(hs, i as int, end);
        lemma_section_end_from(hs, hs[i as int].0, i + 1int, end);
        if path.len() == 1 {
            // The section of heading i ends after its own start.
            lemma_section_end_after_start(hs, i as int, end);
        } else {
            lemma_find_path(hs, path.drop_first(), i + 1, hs[i as int].0 + 1, section_end);
            lemma_find_path(hs, path, i + 1, min_level, end);
            assert(path.drop_first().last() == path.last());
        }
    }
}

/// With heading starts in increasing order, a section ends after its heading.
proof fn lemma_section_end_after_start(hs: Seq<HeadingView>, i: int, end: nat)
    requires
        0 <= i < hs.len(),
        hs[i].2 < end,
        sorted_starts(hs),
    ensures
        hs[i].2 < section_end_after(hs, i, end),
{
    lemma_section_end_from_after(hs, hs[i].0, i + 1, end, hs[i].2);
}

proof fn lemma_section_end_from_after(hs: Seq<HeadingView>, level: nat, j: int, end: nat, b: nat)
    requires
        0 <= j,
        b < end,
        sorted_starts(hs),
        forall|k: int| j <= k < hs.len() ==> hs[k].2 > b,
    ensures
        b < section_end_from(hs, level, j, end),
    decreases hs.len() - j,
{
    if j < hs.len() && !(hs[j].2 < end && hs[j].0 <= level) {
        lemma_section_end_from_after(hs, level, j + 1, end, b);
    }
}

/// A section ends at the first later heading (from index `j` on, starting
/// before `end`) of the same or a higher level, else at `end`: every heading
/// from `j` on that starts before the end is of a lower level (a larger
/// number).
proof fn lemma_section_end_first(hs: Seq<HeadingView>, level: nat, j: int, end: nat)
    requires
        0 <= j,
        sorted_starts(hs),
    ensures
        forall|l: int|
            j <= l < hs.len() && #[trigger] hs[l].2 < section_end_from(hs, level, j, end)
                ==> hs[l].0 > level,
        section_end_from(hs, level, j, end) == end || exists|l: int|
            j <= l < hs.len() && hs[l].2 == section_end_from(hs, level, j, end) && hs[l].0
                <= level,
    decreases hs.len() - j,
{
    if j < hs.len() {
        if hs[j].2 < end && hs[j].0 <= level {
            assert forall|l: int|
                j <= l < hs.len() && #[trigger] hs[l].2 < section_end_from(hs, level, j, end)
                    implies hs[l].0 > level by {
                if l > j {
                    assert(hs[j].2 < hs[l].2);
                }
            }
        } else {
            lemma_section_end_first(hs, level, j + 1, end);
            lemma_section_end_from(hs, level, j + 1, end);
        }
    }
}

/// A found position ends the section of a heading titled like the last
/// element of the path: that heading starts before it, every heading between
/// them is of a lower level, and the position is `end` or the start of a
/// heading of the same or a higher level.
proof fn lemma_find_path_section(
    hs: Seq<HeadingView>,
    path: Seq<Seq<char>>,
    i: nat,
    min_level: nat,
    end: nat,
)
    requires
        sorted_starts(hs),
    ensures
        find_path(hs, path, i, min_level, end) matches Some(p) ==> section_found(
            hs,
            path.last(),
            p,
            end,
            min_level,
        ),
    decreases path.len(), hs.len() - i,
{
    if path.len() == 0 || i >= hs.len() || hs[i as int].2 >= end {
    } else if hs[i as int].0 < min_level || hs[i as int].1 != path[0] {
        lemma_find_path_section(hs, path, i + 1, min_level, end);
        assert(find_path(hs, path, i, min_level, end) == find_path(hs, path, i + 1, min_level, end));
    } else {
        let ii = i as int;
        let section_end = section_end_after(hs, ii, end);
        lemma_section_end_from(hs, hs[ii].0, ii + 1, end);
        lemma_section_end_first(hs, hs[ii].0, ii + 1, end);
        lemma_section_end_after_start(hs, ii, end);
        if path.len() == 1 {
            assert(path.last() == path[0]);
            assert(section_of(hs, path.last(), ii, section_end, end));
            assert(find_path(hs, path, i, min_level, end) == Some(section_end));
            assert(section_found(hs, path.last(), section_end, end, min_level));
        } else {
            lemma_find_path_section(hs, path.drop_first(), i + 1, hs[ii].0 + 1, section_end);
            lemma_find_path_section(hs, path, i + 1, min_level, end);
            assert(path.drop_first().last() == path.last());
            match find_path(hs, path.drop_first(), i + 1, hs[ii].0 + 1, section_end) {
                Some(p) => {
                    assert(section_found(hs, path.drop_first().last(), p, section_end, hs[ii].0 + 1));
                    let k = choose|k: int|
                        #[trigger] section_of(hs, path.drop_first().last(), k, p, section_end)
                            && hs[k].0 >= hs[ii].0 + 1;
                    if p == section_end && p != end {
                        let l = choose|l: int|
                            ii + 1 <= l < hs.len() && hs[l].2 == section_end && hs[l].0 <= hs[ii].0;
                        if l <= k {
                            if l < k {
                                assert(hs[l].2 < hs[k].2);
                            }
                        }
                        assert(k < l < hs.len() && hs[l].2 == p && hs[l].0 <= hs[k].0);
                    }
                    assert(section_of(hs, path.last(), k, p, end));
                    assert(find_path(hs, path, i, min_level, end) == Some(p));
                    assert(hs[k].0 >= min_level);
                    assert(section_found(hs, path.last(), p, end, min_level));
                },
                None => {
                    assert(find_path(hs, path, i, min_level, end) == find_path(
                        hs,
                        path,
                        i + 1,
                        min_level,
                        end,
                    ));
                },
            }
        }
    }
}

/// Some heading titled `title`, of at least level `min_level`, has its
/// section end at `p`.
pub open spec fn section_found(hs: Seq<HeadingView>, title: Seq<char>, p: nat, end: nat, min_level: nat) -> bool {
    exists|k: int| #[trigger] section_of(hs, title, k, p, end) && hs[k].0 >= min_level
}

/// `p` ends the section of heading `k`, titled `title`, in a search that
/// stops at `end`: the heading starts before `p`, no heading between them is
/// of the same or a higher level, and `p` is `end` or the start of a later
/// heading of the same or a higher level.
pub open spec fn section_of(hs: Seq<HeadingView>, title: Seq<char>, k: int, p: nat, end: nat) -> bool {
    &&& 0 <= k < hs.len()
    &&& hs[k].1 == title
    &&& hs[k].2 < p <= end
    &&& forall|l: int| k < l < hs.len() && #[trigger] hs[l].2 < p ==> hs[l].0 > hs[k].0
    &&& (p == end || exists|l: int| k < l < hs.len() && hs[l].2 == p && hs[l].0 <= hs[k].0)
}

/// Text inserted at a heading path goes at the end of the section of a
/// heading titled like the last element of the path: at the first later
/// heading of the same or a higher level (`#` is higher than `##`), or at
/// the end of the document. No heading of the same or a higher level lies
/// between that heading and the position.
pub proof fn law_section_ends_at_same_or_higher_heading(s: Seq<char>, path: Seq<Seq<char>>)
    ensures
        section_end_position(s, path) matches Some(p) ==> exists|k: int|
            #[trigger] section_of(headings_of(s), path.last(), k, p, s.len()),
{
    lemma_headings_from(s, 0);
    lemma_find_path_section(headings_of(s), path, 0, 1, s.len());
}

/// Heading starts increase along the list.
pub open spec fn sorted_starts(hs: Seq<HeadingView>) -> bool {
    forall|k: int, l: int| 0 <= k < l < hs.len() ==> #[trigger] hs[k].2 < #[trigger] hs[l].2
}


// ---------------------------------------------------------------------------
// Executable parsing and search
// ---------------------------------------------------------------------------

/// A heading found in a document held as characters: its level, the bounds
/// of its title and the position where its line starts.
#[derive(Clone, Copy)]
struct Heading {
    level: usize,
    title_lo: usize,
    title_hi: usize,
    start: usize,
}

spec fn heading_view(h: Heading, v: Seq<char>) -> HeadingView {
    (h.level as nat, v.subrange(h.title_lo as int, h.title_hi as int), h.start as nat)
}

spec fn headings_view(hs: Seq<Heading>, v: Seq<char>) -> Seq<HeadingView> {
    Seq::new(hs.len(), |k: int| heading_view(hs[k], v))
}

spec fn headings_wf(hs: Seq<Heading>, v: Seq<char>) -> bool {
    forall|k: int|
        0 <= k < hs.len() ==> #[trigger] hs[k].title_lo <= hs[k].title_hi <= v.len() && hs[k].start
            <= v.len() && hs[k].level <= 6
}

proof fn lemma_hash_run_step(t: Seq<char>, k: int)
    requires
        0 <= k < t.len(),
        forall|j: int| 0 <= j < k ==> t[j] == '#',
        t[k] == '#',
    ensures
        hash_run(t) == hash_run(t.skip(k + 1)) + k + 1,
    decreases k,
{
    if k > 0 {
        assert(t.drop_first().skip(k) =~= t.skip(k + 1));
        lemma_hash_run_step(t.drop_first(), k - 1);
    } else {
        assert(t.drop_first() =~= t.skip(1));
    }
}

proof fn lemma_hash_run_stop(t: Seq<char>, k: int)
    requires
        0 <= k <= t.len(),
        forall|j: int| 0 <= j < k ==> t[j] == '#',
        k == t.len() || t[k] != '#',
    ensures
        hash_run(t) == k,
    decreases k,
{
    if k > 0 {
        lemma_hash_run_stop(t.drop_first(), k - 1);
    }
}

/// The heading on the line `v[lo..hi]`, if it is one.
fn parse_heading(v: &Vec<char>, lo: usize, hi: usize) -> (r: Option<(usize, usize, usize)>)
    requires
        lo <= hi <= v@.len(),
    ensures
        match heading_of_line(v@.subrange(lo as int, hi as int)) {
            Some((level, title)) => r matches Some((l, a, b)) && l == level && lo <= a <= b <= hi
                && v@.subrange(a as int, b as int) == title,
            None => r is None,
        },
{
    let te = trim_end_range(v, lo, hi);
    let ghost t = v@.subrange(lo as int, te as int);
    let mut level: usize = 0;
    while lo + level < te && v[lo + level] == '#'
        invariant
            lo <= te <= hi <= v@.len(),
            t == v@.subrange(lo as int, te as int),
            lo + level <= te,
            forall|j: int| 0 <= j < level ==> t[j] == '#',
        decreases te - lo - level,
    {
        level = level + 1;
    }
    proof {
        lemma_hash_run_stop(t, level as int);
    }
    if level == 0 || level > 6 || lo + level >= te || v[lo + level] != ' ' {
        return None;
    }
    let (a, b) = trim_range(v, lo + level + 1, te);
    proof {
        assert(t.skip(level + 1) =~= v@.subrange(lo + level + 1, te as int));
    }
    if a == b {
        return None;
    }
    Some((level, a, b))
}

/// The headings of the document `v`, in order.
fn parse_headings(v: &Vec<char>) -> (hs: Vec<Heading>)
    ensures
        headings_view(hs@, v@) == headings_of(v@),
        headings_wf(hs@, v@),
{
    let n = v.len();
    let mut hs: Vec<Heading> = Vec::new();
    let mut pos: usize = 0;
    while pos < n
        invariant
            n == v@.len(),
            pos <= n,
            headings_view(hs@, v@) + headings_from(v@, pos as int) == headings_of(v@),
            headings_wf(hs@, v@),
        decreases n - pos,
    {
        let mut e = pos;
        while e < n && v[e] != '\n'
            invariant
                pos <= e <= n == v@.len(),
                line_end(v@, pos as int) == line_end(v@, e as int),
            decreases n - e,
        {
            e = e + 1;
        }
        proof {
            lemma_line_end(v@, pos as int);
        }
        let ghost before = headings_view(hs@, v@);
        let ghost old_hs = hs@;
        match parse_heading(v, pos, e) {
            Some((level, a, b)) => {
                hs.push(Heading { level, title_lo: a, title_hi: b, start: pos });
                proof {
                    assert forall|k: int| 0 <= k < hs@.len() implies #[trigger] hs@[k].title_lo
                        <= hs@[k].title_hi <= v@.len() && hs@[k].start <= v@.len() && hs@[k].level
                        <= 6 by {
                        if k < old_hs.len() {
                            assert(hs@[k] == old_hs[k]);
                        }
                    }
                    assert(headings_view(hs@, v@) =~= before.push(
                        (level as nat, v@.subrange(a as int, b as int), pos as nat),
                    ));
                }
            },
            None => {
                proof {
                    assert(headings_view(hs@, v@) =~= before);
                }
            },
        }
        proof {
            let rest = headings_from(v@, e + 1);
            if heading_of_line(v@.subrange(pos as int, e as int)) is Some {
                let h = headings_view(hs@, v@).last();
                assert(headings_from(v@, pos as int) == seq![h] + rest);
                assert(before + (seq![h] + rest) =~= headings_view(hs@, v@) + rest);
            } else {
                assert(headings_from(v@, pos as int) == rest);
            }
        }
        if e >= n {
            proof {
                assert(headings_from(v@, e + 1) =~= Seq::<HeadingView>::empty());
                assert(headings_view(hs@, v@) + Seq::<HeadingView>::empty() =~= headings_view(hs@, v@));
            }
            pos = n;
        } else {
            pos = e + 1;
        }
    }
    proof {
        if pos >= n {
            assert(headings_from(v@, pos as int) =~= Seq::<HeadingView>::empty());
            assert(headings_view(hs@, v@) + Seq::<HeadingView>::empty() =~= headings_view(hs@, v@));
        }
    }
    hs
}

/// An optional position as a `usize`.
pub open spec fn as_usize(o: Option<nat>) -> Option<usize> {
    match o {
        Some(p) => Some(p as usize),
        None => None,
    }
}

/// Where the section of heading `i` ends within a search that stops at `end`.
fn section_end_after_exec(v: &Vec<char>, hs: &Vec<Heading>, i: usize, end: usize) -> (r: usize)
    requires
        i < hs@.len(),
    ensures
        r == section_end_after(headings_view(hs@, v@), i as int, end as nat),
{
    let ghost hv = headings_view(hs@, v@);
    let n = hs.len();
    let level = hs[i].level;
    let mut j = i + 1;
    while j < n
        invariant
            n == hs@.len(),
            i < j <= hs@.len(),
            hv == headings_view(hs@, v@),
            level == hs@[i as int].level,
            section_end_after(hv, i as int, end as nat) == section_end_from(
                hv,
                level as nat,
                j as int,
                end as nat,
            ),
        decreases hs@.len() - j,
    {
        if hs[j].start < end && hs[j].level <= level {
            return hs[j].start;
        }
        j = j + 1;
    }
    end
}

/// The end of the section named by `path[depth..]`, searching the headings
/// from `start_index` on, as [`find_path`] describes.
fn find_heading_path(
    v: &Vec<char>,
    hs: &Vec<Heading>,
    path: &Vec<Vec<char>>,
    depth: usize,
    start_index: usize,
    min_level: usize,
    search_end: usize,
) -> (r: Option<usize>)
    requires
        depth <= path@.len(),
        headings_wf(hs@, v@),
        min_level <= 7,
    ensures
        r == as_usize(
            find_path(
                headings_view(hs@, v@),
                path@.skip(depth as int).map_values(|p: Vec<char>| p@),
                start_index as nat,
                min_level as nat,
                search_end as nat,
            ),
        ),
        r matches Some(p) ==> p <= search_end,
    decreases path@.len() - depth, hs@.len() - start_index,
{
    let ghost hv = headings_view(hs@, v@);
    let ghost pv = path@.skip(depth as int).map_values(|p: Vec<char>| p@);
    let plen = path.len();
    if depth >= plen {
        return None;
    }
    proof {
        assert(pv.drop_first() =~= path@.skip(depth + 1).map_values(|p: Vec<char>| p@));
        assert(pv[0] == path@[depth as int]@);
    }
    let mut index = start_index;
    while index < hs.len()
        invariant
            plen == path@.len(),
            depth < path@.len(),
            headings_wf(hs@, v@),
            hv == headings_view(hs@, v@),
            pv == path@.skip(depth as int).map_values(|p: Vec<char>| p@),
            pv.drop_first() == path@.skip(depth + 1).map_values(|p: Vec<char>| p@),
            pv[0] == path@[depth as int]@,
            start_index <= index,
            min_level <= 7,
            find_path(hv, pv, start_index as nat, min_level as nat, search_end as nat) == find_path(
                hv,
                pv,
                index as nat,
                min_level as nat,
                search_end as nat,
            ),
        decreases hs@.len() - index,
    {
        let h = hs[index];
        if h.start >= search_end {
            return None;
        }
        if h.level < min_level || !range_eq(v, h.title_lo, h.title_hi, &path[depth]) {
            index = index + 1;
            continue;
        }
        let section_end = section_end_after_exec(v, hs, index, search_end);
        proof {
            lemma_section_end_from(hv, h.level as nat, index + 1int, search_end as nat);
        }
        if depth + 1 == plen {
            return Some(section_end);
        }
        let found = find_heading_path(v, hs, path, depth + 1, index + 1, h.level + 1, section_end);
        if let Some(pos) = found {
            return Some(pos);
        }
        index = index + 1;
    }
    None
}

/// The character position where text goes at the end of the section named
/// by `path` in the document `v`, as [`section_end_position`] describes.
pub fn section_end_in_chars(v: &Vec<char>, path: &Vec<Vec<char>>) -> (r: Option<usize>)
    ensures
        r == as_usize(section_end_position(v@, path@.map_values(|p: Vec<char>| p@))),
        r matches Some(k) ==> k <= v@.len(),
{
    proof {
        assert(path@.skip(0) =~= path@);
    }
    let hs = parse_headings(v);
    find_heading_path(v, &hs, path, 0, 0, 1, v.len())
}

/// Returns the byte offset where content can be inserted at the end of a
/// heading path: the start of the next heading at the same or a higher level
/// after the last heading of the path, or the end of the document when that
/// section runs to the end. `None` when the path is empty or not found.
pub fn section_end_for_heading_path(content: &str, path: &[&str]) -> (r: Option<usize>)
    ensures
        path@.len() == 0 ==> r is None,
        r == match section_end_position(content@, path_view(path@)) {
            Some(k) => Some(byte_len(content@.take(k as int)) as usize),
            None => None::<usize>,
        },
{
    if path.len() == 0 {
        return None;
    }
    let nb = content.as_bytes().len();
    let v = chars_of(content);
    let mut pv: Vec<Vec<char>> = Vec::new();
    let mut i: usize = 0;
    while i < path.len()
        invariant
            i <= path@.len(),
            pv@.len() == i,
            forall|k: int| 0 <= k < i ==> (#[trigger] pv@[k])@ == path@[k]@,
        decreases path@.len() - i,
    {
        pv.push(chars_of(path[i]));
        i = i + 1;
    }
    proof {
        assert(pv@.map_values(|p: Vec<char>| p@) =~= path_view(path@));
    }
    match section_end_in_chars(&v, &pv) {
        Some(k) => {
            proof {
                assert(byte_len(v@) == nb);
                lemma_headings_from(v@, 0);
                lemma_find_path(headings_of(v@), path_view(path@), 0, 1, v@.len());
                assert(section_end_position(content@, path_view(path@)) == Some(k as nat));
            }
            Some(byte_offset(&v, k))
        },
        None => None,
    }
}

} // verus!

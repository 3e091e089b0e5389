//! Cache layer: per-commit, append-only marker lists.
//!
//! A marker is the canonical descriptor string of one concrete job that
//! completed without error for one commit. The set of markers for a commit
//! is persisted as newline-separated text (the body of a note attached to
//! the commit); membership is exact string equality, with no fuzzy
//! matching and no dependency-aware invalidation.

use vstd::prelude::*;

verus! {

/// The views of a sequence of strings.
pub open spec fn views_of(v: Seq<String>) -> Seq<Seq<char>> {
    Seq::new(v.len(), |i: int| v[i]@)
}

/// Splitting `s` on `'\n'`, scanning from position `i` with the current
/// segment having started at position `start`. Splitting keeps empty
/// segments, so the result always has one segment more than `s` has
/// newline characters.
pub open spec fn split_lines_from(s: Seq<char>, start: int, i: int) -> Seq<Seq<char>>
    recommends
        0 <= start <= i <= s.len(),
    decreases s.len() - i,
{
    if i < 0 || i >= s.len() {
        seq![s.subrange(start, s.len() as int)]
    } else if s[i] == '\n' {
        seq![s.subrange(start, i)] + split_lines_from(s, i + 1, i + 1)
    } else {
        split_lines_from(s, start, i + 1)
    }
}

/// The segments of `s` between `'\n'` separators, in order.
pub open spec fn split_lines(s: Seq<char>) -> Seq<Seq<char>> {
    split_lines_from(s, 0, 0)
}

/// Parse the persisted body of a commit's marker note into the list of
/// markers it holds: the text split on newline characters, empty
/// segments kept — the inverse of joining the list with newlines.
pub fn parse_markers(text: &str) -> (r: Vec<String>)
    ensures
        views_of(r@) == split_lines(text@),
{
    let n: usize = text.unicode_len();
    let mut r: Vec<String> = Vec::new();
    let mut start: usize = 0;
    let mut i: usize = 0;
    while i < n
        invariant
            0 <= start <= i <= n == text@.len(),
            views_of(r@) + split_lines_from(text@, start as int, i as int) == split_lines(text@),
        decreases n - i,
    {
        if text.get_char(i) == '\n' {
            let seg = text.substring_char(start, i).to_owned();
            proof {
                assert(views_of(r@.push(seg)) =~= views_of(r@).push(seg@));
            }
            r.push(seg);
            start = i + 1;
        }
        i = i + 1;
    }
    let seg = text.substring_char(start, n).to_owned();
    proof {
        assert(views_of(r@.push(seg)) =~= views_of(r@).push(seg@));
    }
    r.push(seg);
    r
}

/// Whether a marker is already present in a loaded marker list: exact
/// string membership, nothing else.
pub open spec fn marker_present(marker: Seq<char>, loaded: Seq<String>) -> bool {
    exists|j: int| 0 <= j < loaded.len() && loaded[j]@ == marker
}

/// Decide whether a concrete job may be skipped: true exactly when its
/// canonical descriptor string already stands in the loaded marker list.
pub fn should_skip(marker: &String, loaded: &Vec<String>) -> (r: bool)
    ensures
        r == marker_present(marker@, loaded@),
{
    let mut j: usize = 0;
    while j < loaded.len()
        invariant
            0 <= j <= loaded@.len(),
            forall|k: int| 0 <= k < j ==> loaded@[k]@ != marker@,
        decreases loaded@.len() - j,
    {
        if marker.eq(&loaded[j]) {
            return true;
        }
        j = j + 1;
    }
    false
}

/// Markers accumulate and are never removed: persisting new markers
/// appends them after every marker already present, in order.
pub fn merge_markers(existing: &Vec<String>, new_markers: &Vec<String>) -> (r: Vec<String>)
    ensures
        r@.len() == existing@.len() + new_markers@.len(),
        forall|i: int| 0 <= i < existing@.len() ==> r@[i] == existing@[i],
        forall|i: int|
            0 <= i < new_markers@.len() ==> r@[existing@.len() + i] == new_markers@[i],
{
    let mut r: Vec<String> = Vec::new();
    let mut i: usize = 0;
    while i < existing.len()
        invariant
            0 <= i <= existing@.len(),
            r@.len() == i,
            forall|k: int| 0 <= k < i ==> r@[k] == existing@[k],
        decreases existing@.len() - i,
    {
        r.push(existing[i].clone());
        i = i + 1;
    }
    let mut j: usize = 0;
    while j < new_markers.len()
        invariant
            0 <= j <= new_markers@.len(),
            r@.len() == existing@.len() + j,
            forall|k: int| 0 <= k < existing@.len() ==> r@[k] == existing@[k],
            forall|k: int| 0 <= k < j ==> r@[existing@.len() + k] == new_markers@[k],
        decreases new_markers@.len() - j,
    {
        r.push(new_markers[j].clone());
        j = j + 1;
    }
    r
}

/// The text contributed by the segments of `parts` from position `i` on,
/// each segment after the first preceded by `'\n'`.
pub open spec fn join_lines_from(parts: Seq<Seq<char>>, i: int) -> Seq<char>
    decreases parts.len() - i,
{
    if i < 0 || i >= parts.len() {
        Seq::empty()
    } else if i == 0 {
        parts[0] + join_lines_from(parts, 1)
    } else {
        seq!['\n'] + parts[i] + join_lines_from(parts, i + 1)
    }
}

/// The segments joined into one text with `'\n'` between them.
pub open spec fn join_lines(parts: Seq<Seq<char>>) -> Seq<char> {
    join_lines_from(parts, 0)
}

/// Serialize a marker list as the newline-separated note body that
/// `parse_markers` reads back.
pub fn serialize_markers(markers: &Vec<String>) -> (r: String)
    ensures
        r@ == join_lines(views_of(markers@)),
{
    let mut r: String = String::new();
    let mut i: usize = 0;
    while i < markers.len()
        invariant
            0 <= i <= markers@.len(),
            join_lines(views_of(markers@)) == r@ + join_lines_from(
                views_of(markers@),
                i as int,
            ),
        decreases markers@.len() - i,
    {
        let ghost parts = views_of(markers@);
        let ghost r_old = r@;
        if i > 0 {
            r.append("\n");
            proof {
                reveal_strlit("\n");
                assert(r@ =~= r_old + seq!['\n']);
            }
        }
        r.append(markers[i].as_str());
        proof {
            assert(markers@[i as int]@ == parts[i as int]);
            if i == 0 {
                assert(r@ =~= r_old + parts[0]);
                assert(r_old + join_lines_from(parts, 0) =~= (r_old + parts[0])
                    + join_lines_from(parts, 1));
            } else {
                assert(r@ =~= r_old + seq!['\n'] + parts[i as int]);
                assert(r_old + join_lines_from(parts, i as int) =~= (r_old + seq!['\n']
                    + parts[i as int]) + join_lines_from(parts, i as int + 1));
            }
        }
        i = i + 1;
    }
    r
}

proof fn lemma_split_skip_clean(s: Seq<char>, start: int, i: int, j: int)
    requires
        0 <= start <= i <= j <= s.len(),
        forall|k: int| i <= k < j ==> s[k] != '\n',
    ensures
        split_lines_from(s, start, i) == split_lines_from(s, start, j),
    decreases j - i,
{
    if i < j {
        lemma_split_skip_clean(s, start, i + 1, j);
    }
}

proof fn lemma_split_shifted(s: Seq<char>, a: int, start: int, i: int)
    requires
        0 <= a <= start <= i <= s.len(),
    ensures
        split_lines_from(s, start, i) == split_lines_from(
            s.subrange(a, s.len() as int),
            start - a,
            i - a,
        ),
    decreases s.len() - i,
{
    let t = s.subrange(a, s.len() as int);
    if i >= s.len() {
        assert(s.subrange(start, s.len() as int) =~= t.subrange(start - a, t.len() as int));
    } else if s[i] == '\n' {
        lemma_split_shifted(s, a, i + 1, i + 1);
        assert(s.subrange(start, i) =~= t.subrange(start - a, i - a));
    } else {
        lemma_split_shifted(s, a, start, i + 1);
    }
}

proof fn lemma_join_from_shifted(parts: Seq<Seq<char>>, i: int)
    requires
        2 <= i,
        parts.len() >= 1,
    ensures
        join_lines_from(parts, i) == join_lines_from(parts.drop_first(), i - 1),
    decreases parts.len() - i,
{
    if i < parts.len() {
        lemma_join_from_shifted(parts, i + 1);
    }
}

/// The persisted marker format round-trips: serializing a marker list and
/// parsing the text back yields the same list, as long as no marker holds
/// a line break of its own (a marker is a single-line descriptor).
pub proof fn lemma_markers_round_trip(parts: Seq<Seq<char>>)
    requires
        parts.len() >= 1,
        forall|i: int, k: int|
            0 <= i < parts.len() && 0 <= k < parts[i].len() ==> #[trigger] parts[i][k] != '\n',
    ensures
        split_lines(join_lines(parts)) == parts,
    decreases parts.len(),
{
    let s = join_lines(parts);
    let m = parts[0].len() as int;
    if parts.len() == 1 {
        assert(join_lines_from(parts, 1) =~= Seq::<char>::empty());
        assert(s =~= parts[0]);
        assert(forall|k: int| 0 <= k < s.len() ==> s[k] != '\n');
        lemma_split_skip_clean(s, 0, 0, s.len() as int);
        assert(split_lines_from(s, 0, s.len() as int) == seq![s.subrange(0, s.len() as int)]);
        assert(s.subrange(0, s.len() as int) =~= parts[0]);
        assert(split_lines(s) =~= parts);
    } else {
        let rest = parts.drop_first();
        assert(join_lines_from(parts, 1) == seq!['\n'] + parts[1] + join_lines_from(parts, 2));
        if parts.len() >= 3 {
            lemma_join_from_shifted(parts, 2);
        } else {
            assert(join_lines_from(parts, 2) =~= Seq::<char>::empty());
            assert(join_lines_from(rest, 1) =~= Seq::<char>::empty());
        }
        assert(join_lines(rest) == rest[0] + join_lines_from(rest, 1));
        assert(rest[0] == parts[1]);
        assert(s =~= parts[0] + seq!['\n'] + join_lines(rest));
        // scanning the first marker meets no line break, then the separator
        assert(forall|k: int| 0 <= k < m ==> s[k] == parts[0][k]);
        lemma_split_skip_clean(s, 0, 0, m);
        assert(s[m] == '\n');
        assert(split_lines_from(s, 0, m) == seq![s.subrange(0, m)] + split_lines_from(
            s,
            m + 1,
            m + 1,
        ));
        assert(s.subrange(0, m) =~= parts[0]);
        lemma_split_shifted(s, m + 1, m + 1, m + 1);
        assert(s.subrange(m + 1, s.len() as int) =~= join_lines(rest));
        lemma_markers_round_trip(rest);
        assert(split_lines(s) == seq![parts[0]] + split_lines(join_lines(rest)));
        assert(seq![parts[0]] + rest =~= parts);
    }
}

} // verus!

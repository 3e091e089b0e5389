//! Commit labelling: the companion utility that annotates commits with
//! which pull requests contain them. It shares the graph-walking
//! primitive with the verification flow; here live its own pieces — the
//! label argument format, and the deterministic note text built for each
//! commit from the pull requests that reach it.

use vstd::prelude::*;
use vstd::multiset::Multiset;

use crate::cache::views_of;
use crate::cargo::{lex_lt, lex_lt_from, str_lex_lt};
use crate::text::{dec_digits, find_from, split_chars, usize_to_dec};

verus! {

/// A labelling instruction, written `pr_ref:branches:url_prefix`: the
/// remote-reference prefix to search for pull requests under, the base
/// branches whose history does not get labelled, and the URL prefix used
/// when linking to a pull request.
#[derive(Debug)]
pub struct Label {
    /// The URL to use as a prefix when linking to pull requests.
    pub url_prefix: String,
    /// The prefix to search for pull-request references under.
    pub pr_ref: String,
    /// The base branches, comma-separated in the written form.
    pub master: Vec<String>,
}

impl Label {
    /// Parse the written form: everything before the first `:` is the
    /// reference prefix, everything between the first and second `:` is
    /// the comma-separated branch list, and everything after the second
    /// `:` (further colons included) is the URL prefix. A form with fewer
    /// than two colons is rejected, naming the missing field.
    pub fn from_str(s: &str) -> (r: Result<Label, String>)
        ensures
            find_from(s@, ':', 0) == s@.len() ==> (r matches Err(m) && m@
                == "missing branches field in "@ + s@),
            find_from(s@, ':', 0) < s@.len() && find_from(s@, ':', find_from(s@, ':', 0) + 1)
                == s@.len() ==> (r matches Err(m) && m@ == "missing url_prefix field in "@ + s@),
            (find_from(s@, ':', 0) < s@.len() && find_from(s@, ':', find_from(s@, ':', 0) + 1)
                < s@.len()) ==> (r matches Ok(l) && {
                let c1 = find_from(s@, ':', 0);
                let c2 = find_from(s@, ':', c1 + 1);
                &&& l.pr_ref@ == s@.subrange(0, c1)
                &&& views_of(l.master@) == split_chars(s@.subrange(c1 + 1, c2), ',')
                &&& l.url_prefix@ == s@.subrange(c2 + 1, s@.len() as int)
            }),
    {
        let n: usize = s.unicode_len();
        let c1 = match crate::text::find_char(s, ':') {
            Some(i) => i,
            None => {
                let mut m = String::from_str("missing branches field in ");
                m.append(s);
                return Err(m);
            },
        };
        let mut c2: usize = c1 + 1;
        while c2 < n && s.get_char(c2) != ':'
            invariant
                c1 < c2 <= n == s@.len(),
                find_from(s@, ':', c1 + 1) == find_from(s@, ':', c2 as int),
            decreases n - c2,
        {
            c2 = c2 + 1;
        }
        if c2 >= n {
            let mut m = String::from_str("missing url_prefix field in ");
            m.append(s);
            return Err(m);
        }
        let pr_ref = s.substring_char(0, c1).to_owned();
        let branches = s.substring_char(c1 + 1, c2);
        let master = crate::text::split_str(branches, ',');
        let url_prefix = s.substring_char(c2 + 1, n).to_owned();
        proof {
            assert(branches@ == s@.subrange(c1 as int + 1, c2 as int));
        }
        Ok(Label { url_prefix, pr_ref, master })
    }
}

/// One annotation to attach to a commit: which pull request (under which
/// URL prefix) contains it, and where in that pull request it sits.
#[derive(Clone, Debug)]
pub struct Note {
    /// The URL prefix of the hosting service the pull request lives on.
    pub url_prefix: String,
    /// The pull request's number.
    pub pr_num: usize,
    /// Position of the commit inside the pull request, counted from the
    /// tip.
    pub commit_index: usize,
    /// How many commits the pull request has.
    pub n_commits: usize,
}

/// The order notes are written in: by URL prefix (character-wise
/// lexicographic), then by pull-request number.
pub open spec fn note_le(a: Note, b: Note) -> bool {
    lex_lt(a.url_prefix@, b.url_prefix@) || (a.url_prefix@ == b.url_prefix@ && a.pr_num
        <= b.pr_num)
}

/// Lexicographic order is connex: two texts compare one way or the other,
/// or are equal.
pub proof fn lemma_lex_connex(a: Seq<char>, b: Seq<char>)
    ensures
        lex_lt(a, b) || lex_lt(b, a) || a == b,
{
    lemma_lex_from_connex(a, b, 0);
    if !lex_lt(a, b) && !lex_lt(b, a) {
        assert(a.skip(0) =~= a);
        assert(b.skip(0) =~= b);
    }
}

proof fn lemma_lex_from_connex(a: Seq<char>, b: Seq<char>, i: int)
    requires
        0 <= i <= a.len(),
        i <= b.len(),
    ensures
        lex_lt_from(a, b, i) || lex_lt_from(b, a, i) || a.skip(i) =~= b.skip(i),
    decreases a.len() + b.len() - i,
{
    if i < a.len() && i < b.len() {
        if (a[i] as u32) == (b[i] as u32) {
            assert(a[i] == b[i]) by {
                vstd::utf8::char_u32_cast(a[i], a[i] as u32);
                vstd::utf8::char_u32_cast(b[i], b[i] as u32);
            }
            lemma_lex_from_connex(a, b, i + 1);
            if !lex_lt_from(a, b, i + 1) && !lex_lt_from(b, a, i + 1) {
                assert(a.skip(i) =~= b.skip(i)) by {
                    assert(a.skip(i + 1) =~= b.skip(i + 1));
                    assert forall|k: int| 0 <= k < a.skip(i).len() implies a.skip(i)[k] == b.skip(
                        i,
                    )[k] by {
                        if k > 0 {
                            assert(a.skip(i)[k] == a.skip(i + 1)[k - 1]);
                            assert(b.skip(i)[k] == b.skip(i + 1)[k - 1]);
                        }
                    }
                }
            }
        }
    } else if i >= a.len() && i >= b.len() {
        assert(a.skip(i) =~= b.skip(i));
    }
}

/// Lexicographic order is transitive.
pub proof fn lemma_lex_trans(a: Seq<char>, b: Seq<char>, c: Seq<char>)
    requires
        lex_lt(a, b),
        lex_lt(b, c),
    ensures
        lex_lt(a, c),
{
    lemma_lex_from_trans(a, b, c, 0);
}

proof fn lemma_lex_from_trans(a: Seq<char>, b: Seq<char>, c: Seq<char>, i: int)
    requires
        0 <= i,
        lex_lt_from(a, b, i),
        lex_lt_from(b, c, i),
    ensures
        lex_lt_from(a, c, i),
    decreases a.len() + b.len() + c.len() - i,
{
    if i < a.len() && i < b.len() && i < c.len() && (a[i] as u32) == (b[i] as u32) && (
    b[i] as u32) == (c[i] as u32) {
        lemma_lex_from_trans(a, b, c, i + 1);
    }
}

/// The note order is total.
pub proof fn lemma_note_le_total(a: Note, b: Note)
    ensures
        note_le(a, b) || note_le(b, a),
{
    lemma_lex_connex(a.url_prefix@, b.url_prefix@);
}

/// The note order is transitive.
pub proof fn lemma_note_le_trans(a: Note, b: Note, c: Note)
    requires
        note_le(a, b),
        note_le(b, c),
    ensures
        note_le(a, c),
{
    if lex_lt(a.url_prefix@, b.url_prefix@) && lex_lt(b.url_prefix@, c.url_prefix@) {
        lemma_lex_trans(a.url_prefix@, b.url_prefix@, c.url_prefix@);
    }
}

fn note_le_exec(a: &Note, b: &Note) -> (r: bool)
    ensures
        r == note_le(*a, *b),
{
    if str_lex_lt(a.url_prefix.as_str(), b.url_prefix.as_str()) {
        true
    } else if a.url_prefix.eq(&b.url_prefix) {
        a.pr_num <= b.pr_num
    } else {
        false
    }
}

/// Whether a note sequence is sorted in the note order.
pub open spec fn notes_sorted(notes: Seq<Note>) -> bool {
    forall|i: int, j: int| 0 <= i < j < notes.len() ==> note_le(notes[i], notes[j])
}

/// Sort a commit's notes by URL prefix and pull-request number, so the
/// note text written for a commit is deterministic. The result holds
/// exactly the given notes.
pub fn sort_notes(notes: Vec<Note>) -> (r: Vec<Note>)
    ensures
        r@.len() == notes@.len(),
        notes_sorted(r@),
        r@.to_multiset() == notes@.to_multiset(),
{
    broadcast use vstd::seq_lib::group_to_multiset_ensures;

    let ghost orig = notes@;
    let mut input = notes;
    let mut out: Vec<Note> = Vec::new();
    while input.len() > 0
        invariant
            notes_sorted(out@),
            out@.to_multiset().add(input@.to_multiset()) == orig.to_multiset(),
            out@.len() + input@.len() == orig.len(),
            forall|k: int, j: int|
                0 <= k < out@.len() && 0 <= j < input@.len() ==> note_le(out@[k], input@[j]),
        decreases input@.len(),
    {
        let mut m: usize = 0;
        let mut i: usize = 1;
        while i < input.len()
            invariant
                0 <= m < i <= input@.len(),
                input@.len() > 0,
                forall|j: int| 0 <= j < i ==> note_le(input@[m as int], #[trigger] input@[j]),
            decreases input@.len() - i,
        {
            if !note_le_exec(&input[m], &input[i]) {
                proof {
                    lemma_note_le_total(input@[m as int], input@[i as int]);
                    assert forall|j: int| 0 <= j < i + 1 implies note_le(
                        input@[i as int],
                        #[trigger] input@[j],
                    ) by {
                        if j < i {
                            lemma_note_le_trans(input@[i as int], input@[m as int], input@[j]);
                        } else {
                            lemma_note_le_total(input@[i as int], input@[i as int]);
                        }
                    }
                }
                m = i;
            }
            i = i + 1;
        }
        let ghost input_old = input@;
        let ghost out_old = out@;
        let x = input.remove(m);
        out.push(x);
        proof {
            broadcast use vstd::seq_lib::group_to_multiset_ensures;

            assert(x == input_old[m as int]);
            assert(out@ == out_old.push(x));
            assert(out@.to_multiset() =~= out_old.to_multiset().insert(x));
            assert(input@.to_multiset() =~= input_old.to_multiset().remove(x));
            assert(input_old.to_multiset().count(x) > 0) by {
                assert(input_old.contains(x));
            }
            assert(out@.to_multiset().add(input@.to_multiset()) =~= out_old.to_multiset().add(
                input_old.to_multiset(),
            ));
            assert forall|k: int, j: int|
                0 <= k < out@.len() && 0 <= j < input@.len() implies #[trigger] note_le(
                out@[k],
                input@[j],
            ) by {
                let jj = if j < m as int {
                    j
                } else {
                    j + 1
                };
                assert(input@[j] == input_old[jj]);
                if k < out_old.len() {
                    assert(note_le(out_old[k], input_old[jj]));
                } else {
                    assert(out@[k] == x);
                    assert(note_le(input_old[m as int], input_old[jj]));
                }
            }
            assert forall|k: int, j: int|
                0 <= k < j < out@.len() implies note_le(out@[k], out@[j]) by {
                if j == out@.len() - 1 {
                    assert(note_le(out_old[k], input_old[m as int]));
                }
            }
        }
    }
    proof {
        assert(input@.to_multiset() =~= Multiset::<Note>::empty()) by {
            assert(input@ =~= Seq::<Note>::empty());
        }
        assert(out@.to_multiset().add(Multiset::<Note>::empty()) =~= out@.to_multiset());
    }
    out
}

/// The line written for one note: the pull request's link, then the
/// commit's position inside it.
pub open spec fn spec_note_line(n: Note) -> Seq<char> {
    "PR: "@ + n.url_prefix@ + dec_digits(n.pr_num as nat) + " ("@ + dec_digits(
        n.commit_index as nat,
    ) + "/"@ + dec_digits(n.n_commits as nat) + ")\n"@
}

/// The note text for a commit: the lines of its notes, in the order
/// given.
pub open spec fn spec_note_lines_from(notes: Seq<Note>, i: int) -> Seq<char>
    decreases notes.len() - i,
{
    if i < 0 || i >= notes.len() {
        Seq::empty()
    } else {
        spec_note_line(notes[i]) + spec_note_lines_from(notes, i + 1)
    }
}

/// Render one note's line.
pub fn note_line(n: &Note) -> (r: String)
    ensures
        r@ == spec_note_line(*n),
{
    let mut r = String::from_str("PR: ");
    r.append(n.url_prefix.as_str());
    let num = usize_to_dec(n.pr_num);
    r.append(num.as_str());
    r.append(" (");
    let idx = usize_to_dec(n.commit_index);
    r.append(idx.as_str());
    r.append("/");
    let total = usize_to_dec(n.n_commits);
    r.append(total.as_str());
    r.append(")\n");
    proof {
        assert(r@ =~= spec_note_line(*n));
    }
    r
}

/// Render the note text for a commit from its (already sorted) notes.
pub fn build_note_message(notes: &Vec<Note>) -> (r: String)
    ensures
        r@ == spec_note_lines_from(notes@, 0),
{
    let mut r = String::new();
    let mut i: usize = 0;
    while i < notes.len()
        invariant
            0 <= i <= notes@.len(),
            spec_note_lines_from(notes@, 0) == r@ + spec_note_lines_from(notes@, i as int),
        decreases notes@.len() - i,
    {
        let ghost r_old = r@;
        let line = note_line(&notes[i]);
        r.append(line.as_str());
        proof {
            assert(r_old + (spec_note_line(notes@[i as int]) + spec_note_lines_from(
                notes@,
                i as int + 1,
            )) =~= r@ + spec_note_lines_from(notes@, i as int + 1));
        }
        i = i + 1;
    }
    proof {
        assert(r@ + Seq::<char>::empty() =~= r@);
    }
    r
}

} // verus!

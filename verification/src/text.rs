//! Small verified text helpers: joining string lists with a separator and
//! rendering unsigned numbers in decimal. Canonical job descriptors and
//! diagnostic lines are assembled from these.

use vstd::prelude::*;

use crate::cache::views_of;

verus! {

/// The text contributed by the segments of `parts` from position `i` on,
/// each segment after the first preceded by the separator.
pub open spec fn join_from(parts: Seq<Seq<char>>, sep: Seq<char>, i: int) -> Seq<char>
    decreases parts.len() - i,
{
    if i < 0 || i >= parts.len() {
        Seq::empty()
    } else if i == 0 {
        parts[0] + join_from(parts, sep, 1)
    } else {
        sep + parts[i] + join_from(parts, sep, i + 1)
    }
}

/// The segments joined into one text with the separator between them.
pub open spec fn join(parts: Seq<Seq<char>>, sep: Seq<char>) -> Seq<char> {
    join_from(parts, sep, 0)
}

/// Join a list of strings with a separator between consecutive entries.
pub fn join_with(parts: &Vec<String>, sep: &str) -> (r: String)
    ensures
        r@ == join(views_of(parts@), sep@),
{
    let mut r: String = String::new();
    let mut i: usize = 0;
    while i < parts.len()
        invariant
            0 <= i <= parts@.len(),
            join(views_of(parts@), sep@) == r@ + join_from(views_of(parts@), sep@, i as int),
        decreases parts@.len() - i,
    {
        let ghost ps = views_of(parts@);
        let ghost r_old = r@;
        if i > 0 {
            r.append(sep);
        }
        r.append(parts[i].as_str());
        proof {
            assert(parts@[i as int]@ == ps[i as int]);
            if i == 0 {
                assert(r@ =~= r_old + ps[0]);
                assert(r_old + join_from(ps, sep@, 0) =~= (r_old + ps[0]) + join_from(
                    ps,
                    sep@,
                    1,
                ));
            } else {
                assert(r@ =~= r_old + sep@ + ps[i as int]);
                assert(r_old + join_from(ps, sep@, i as int) =~= (r_old + sep@ + ps[i as int])
                    + join_from(ps, sep@, i as int + 1));
            }
        }
        i = i + 1;
    }
    r
}

/// The decimal digit character for a value below ten.
pub open spec fn digit_char(d: nat) -> char {
    if d == 0 {
        '0'
    } else if d == 1 {
        '1'
    } else if d == 2 {
        '2'
    } else if d == 3 {
        '3'
    } else if d == 4 {
        '4'
    } else if d == 5 {
        '5'
    } else if d == 6 {
        '6'
    } else if d == 7 {
        '7'
    } else if d == 8 {
        '8'
    } else {
        '9'
    }
}

/// The usual decimal rendering of a number: most significant digit first,
/// no leading zeros (zero itself is rendered as one digit).
pub open spec fn dec_digits(n: nat) -> Seq<char>
    decreases n,
{
    if n < 10 {
        seq![digit_char(n)]
    } else {
        dec_digits(n / 10).push(digit_char(n % 10))
    }
}

fn digit_str(d: u8) -> (r: &'static str)
    requires
        d < 10,
    ensures
        r@ == seq![digit_char(d as nat)],
{
    let r: &'static str = match d {
        0 => "0",
        1 => "1",
        2 => "2",
        3 => "3",
        4 => "4",
        5 => "5",
        6 => "6",
        7 => "7",
        8 => "8",
        _ => "9",
    };
    proof {
        reveal_strlit("0");
        reveal_strlit("1");
        reveal_strlit("2");
        reveal_strlit("3");
        reveal_strlit("4");
        reveal_strlit("5");
        reveal_strlit("6");
        reveal_strlit("7");
        reveal_strlit("8");
        reveal_strlit("9");
        assert(r@ =~= seq![digit_char(d as nat)]);
    }
    r
}

/// Render a number in decimal.
pub fn u64_to_dec(n: u64) -> (s: String)
    ensures
        s@ == dec_digits(n as nat),
    decreases n,
{
    if n < 10 {
        String::from_str(digit_str(n as u8))
    } else {
        let mut s = u64_to_dec(n / 10);
        s.append(digit_str((n % 10) as u8));
        proof {
            assert(s@ =~= dec_digits((n / 10) as nat).push(digit_char((n % 10) as nat)));
        }
        s
    }
}

/// Render a machine-word count in decimal.
pub fn usize_to_dec(n: usize) -> (s: String)
    ensures
        s@ == dec_digits(n as nat),
{
    u64_to_dec(n as u64)
}

/// The position of the first occurrence of `sep` in `s` at or after `i`,
/// or the length of `s` if there is none.
pub open spec fn find_from(s: Seq<char>, sep: char, i: int) -> int
    decreases s.len() - i,
{
    if i < 0 || i >= s.len() {
        s.len() as int
    } else if s[i] == sep {
        i
    } else {
        find_from(s, sep, i + 1)
    }
}

/// Find the first occurrence of a character, if any.
pub fn find_char(s: &str, sep: char) -> (r: Option<usize>)
    ensures
        r matches Some(i) ==> i == find_from(s@, sep, 0) && i < s@.len() && s@[i as int] == sep,
        r is None ==> find_from(s@, sep, 0) == s@.len(),
{
    let n: usize = s.unicode_len();
    let mut i: usize = 0;
    while i < n && s.get_char(i) != sep
        invariant
            0 <= i <= n == s@.len(),
            find_from(s@, sep, 0) == find_from(s@, sep, i as int),
        decreases n - i,
    {
        i = i + 1;
    }
    if i < n {
        Some(i)
    } else {
        None
    }
}

/// Splitting `s` on `sep`, scanning from position `i` with the current
/// segment having started at `start`. Empty segments are kept.
pub open spec fn split_from(s: Seq<char>, sep: char, start: int, i: int) -> Seq<Seq<char>>
    decreases s.len() - i,
{
    if i < 0 || i >= s.len() {
        seq![s.subrange(start, s.len() as int)]
    } else if s[i] == sep {
        seq![s.subrange(start, i)] + split_from(s, sep, i + 1, i + 1)
    } else {
        split_from(s, sep, start, i + 1)
    }
}

/// The segments of `s` between occurrences of `sep`, in order, empty
/// segments kept: always one segment more than `s` has separators.
pub open spec fn split_chars(s: Seq<char>, sep: char) -> Seq<Seq<char>> {
    split_from(s, sep, 0, 0)
}

/// Split a text on a separator character.
pub fn split_str(text: &str, sep: char) -> (r: Vec<String>)
    ensures
        views_of(r@) == split_chars(text@, sep),
{
    let n: usize = text.unicode_len();
    let mut r: Vec<String> = Vec::new();
    let mut start: usize = 0;
    let mut i: usize = 0;
    while i < n
        invariant
            0 <= start <= i <= n == text@.len(),
            views_of(r@) + split_from(text@, sep, start as int, i as int) == split_chars(
                text@,
                sep,
            ),
        decreases n - i,
    {
        if text.get_char(i) == sep {
            let seg = text.substring_char(start, i).to_owned();
            proof {
                assert(views_of(r@.push(seg)) =~= views_of(r@).push(seg@));
            }
            r.push(seg);
            start = i + 1;
        }
        i = i + 1;
    }
    let seg = text.substring_char(start, n).to_owned();
    proof {
        assert(views_of(r@.push(seg)) =~= views_of(r@).push(seg@));
    }
    r.push(seg);
    r
}

/// Compare two texts character by character.
pub fn str_eq(a: &str, b: &str) -> (r: bool)
    ensures
        r == (a@ == b@),
{
    let an: usize = a.unicode_len();
    let bn: usize = b.unicode_len();
    if an != bn {
        proof {
            assert(a@.len() != b@.len());
        }
        return false;
    }
    let mut i: usize = 0;
    while i < an
        invariant
            0 <= i <= an == a@.len() == b@.len(),
            forall|k: int| 0 <= k < i ==> a@[k] == b@[k],
        decreases an - i,
    {
        if a.get_char(i) != b.get_char(i) {
            return false;
        }
        i = i + 1;
    }
    proof {
        assert(a@ =~= b@);
    }
    true
}

} // verus!

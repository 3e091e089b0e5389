//! The check-descriptor wire format.
//!
//! Check descriptors arrive as a tagged, self-describing record in a
//! small data notation: records in braces with quoted field names, lists
//! in brackets, quoted strings (with the standard single-character
//! escapes; code-point escapes are not part of the format), unsigned
//! decimal numbers, `true`, `false` and `null`, with blanks, tabs and
//! line breaks between tokens. The grammar below is the specification;
//! the parser is verified to return exactly what the grammar gives for
//! every input. The grammar allows nesting up to one level per input
//! character, one more than any input can use.

use vstd::prelude::*;

verus! {

broadcast use vstd::std_specs::vec::group_vec_axioms;

/// A parsed value of the wire format.
pub enum Json {
    Null,
    Bool(bool),
    UInt(u64),
    Str(String),
    Arr(Vec<Json>),
    Obj(Vec<(String, Json)>),
}

/// The mathematical content of a parsed value.
pub enum JsonSpec {
    Null,
    Bool(bool),
    UInt(u64),
    Str(Seq<char>),
    Arr(Seq<JsonSpec>),
    Obj(Seq<(Seq<char>, JsonSpec)>),
}

/// The content of a parsed value.
pub open spec fn json_view(j: Json) -> JsonSpec
    decreases j,
{
    match j {
        Json::Null => JsonSpec::Null,
        Json::Bool(b) => JsonSpec::Bool(b),
        Json::UInt(n) => JsonSpec::UInt(n),
        Json::Str(s) => JsonSpec::Str(s@),
        Json::Arr(v) => JsonSpec::Arr(
            Seq::new(
                v.len() as nat,
                |k: int|
                    if 0 <= k < v.len() {
                        json_view(v[k])
                    } else {
                        JsonSpec::Null
                    },
            ),
        ),
        Json::Obj(ps) => JsonSpec::Obj(
            Seq::new(
                ps.len() as nat,
                |k: int|
                    if 0 <= k < ps.len() {
                        (ps[k].0@, json_view(ps[k].1))
                    } else {
                        (Seq::empty(), JsonSpec::Null)
                    },
            ),
        ),
    }
}

/// Whitespace of the format: blank, tab, carriage return, line break.
pub open spec fn is_ws(c: char) -> bool {
    c == ' ' || c == '\t' || c == '\n' || c == '\r'
}

/// A decimal digit.
pub open spec fn is_digit(c: char) -> bool {
    48 <= (c as u32) <= 57
}

/// The digit's value.
pub open spec fn digit_value(c: char) -> nat {
    ((c as u32) - 48) as nat
}

/// The first position at or after `i` holding a non-whitespace character
/// (or the end of the input).
pub open spec fn spec_skip_ws(s: Seq<char>, i: int) -> int
    decreases s.len() - i,
{
    if i < 0 || i >= s.len() {
        i
    } else if is_ws(s[i]) {
        spec_skip_ws(s, i + 1)
    } else {
        i
    }
}

/// What a backslash escape stands for: the quote, the backslash itself,
/// the slash, and the named controls (backspace, form feed, line feed,
/// carriage return, tab). Anything else after a backslash rejects the
/// input.
pub open spec fn escape_char(c: char) -> Option<char> {
    if c == '"' {
        Some('"')
    } else if c == '\\' {
        Some('\\')
    } else if c == '/' {
        Some('/')
    } else if c == 'b' {
        Some('\u{0008}')
    } else if c == 'f' {
        Some('\u{000C}')
    } else if c == 'n' {
        Some('\n')
    } else if c == 'r' {
        Some('\r')
    } else if c == 't' {
        Some('\t')
    } else {
        None
    }
}

/// The body of a quoted string from position `i`, the opening quote
/// already consumed and `acc` holding the characters read so far: the
/// collected characters and the position after the closing quote. An
/// unterminated string, or a backslash followed by anything but a
/// recognized escape, rejects the input.
pub open spec fn spec_string_body(s: Seq<char>, i: int, acc: Seq<char>) -> Option<
    (Seq<char>, int),
>
    decreases s.len() - i,
{
    if i < 0 || i >= s.len() {
        None
    } else if s[i] == '"' {
        Some((acc, i + 1))
    } else if s[i] == '\\' {
        if i + 1 < s.len() && escape_char(s[i + 1]) is Some {
            spec_string_body(s, i + 2, acc.push(escape_char(s[i + 1]).unwrap()))
        } else {
            None
        }
    } else {
        spec_string_body(s, i + 1, acc.push(s[i]))
    }
}

/// A quoted string at position `i`: its characters and the position
/// after its closing quote.
pub open spec fn spec_parse_string(s: Seq<char>, i: int) -> Option<(Seq<char>, int)> {
    if 0 <= i < s.len() && s[i] == '"' {
        spec_string_body(s, i + 1, Seq::empty())
    } else {
        None
    }
}

/// A run of digits from position `i` with `acc` already read: the number
/// and the position after the run. A value beyond the 64-bit range
/// rejects the input.
pub open spec fn spec_number_body(s: Seq<char>, i: int, acc: nat) -> Option<(u64, int)>
    decreases s.len() - i,
{
    if i < 0 || i >= s.len() || !is_digit(s[i]) {
        if acc <= u64::MAX {
            Some((acc as u64, i))
        } else {
            None
        }
    } else if acc * 10 + digit_value(s[i]) > u64::MAX {
        None
    } else {
        spec_number_body(s, i + 1, (acc * 10 + digit_value(s[i])) as nat)
    }
}

/// An unsigned decimal number at position `i`.
pub open spec fn spec_parse_number(s: Seq<char>, i: int) -> Option<(u64, int)> {
    if 0 <= i < s.len() && is_digit(s[i]) {
        spec_number_body(s, i, 0)
    } else {
        None
    }
}

/// A value at position `i` (leading whitespace skipped), with `fuel`
/// bounding the nesting depth: the value and the position after it.
pub open spec fn spec_parse_value(s: Seq<char>, i: int, fuel: nat) -> Option<(JsonSpec, int)>
    decreases fuel,
{
    if fuel == 0 {
        None
    } else {
        let j = spec_skip_ws(s, i);
        if j < 0 || j >= s.len() {
            None
        } else if s[j] == '{' {
            let k = spec_skip_ws(s, j + 1);
            if k < s.len() && s[k] == '}' {
                Some((JsonSpec::Obj(Seq::empty()), k + 1))
            } else {
                match spec_parse_members(s, k, (fuel - 1) as nat) {
                    Some((ps, e)) => Some((JsonSpec::Obj(ps), e)),
                    None => None,
                }
            }
        } else if s[j] == '[' {
            let k = spec_skip_ws(s, j + 1);
            if k < s.len() && s[k] == ']' {
                Some((JsonSpec::Arr(Seq::empty()), k + 1))
            } else {
                match spec_parse_elements(s, k, (fuel - 1) as nat) {
                    Some((vs, e)) => Some((JsonSpec::Arr(vs), e)),
                    None => None,
                }
            }
        } else if s[j] == '"' {
            match spec_parse_string(s, j) {
                Some((cs, e)) => Some((JsonSpec::Str(cs), e)),
                None => None,
            }
        } else if s[j] == 't' {
            if j + 4 <= s.len() && s[j + 1] == 'r' && s[j + 2] == 'u' && s[j + 3] == 'e' {
                Some((JsonSpec::Bool(true), j + 4))
            } else {
                None
            }
        } else if s[j] == 'f' {
            if j + 5 <= s.len() && s[j + 1] == 'a' && s[j + 2] == 'l' && s[j + 3] == 's' && s[j
                + 4] == 'e' {
                Some((JsonSpec::Bool(false), j + 5))
            } else {
                None
            }
        } else if s[j] == 'n' {
            if j + 4 <= s.len() && s[j + 1] == 'u' && s[j + 2] == 'l' && s[j + 3] == 'l' {
                Some((JsonSpec::Null, j + 4))
            } else {
                None
            }
        } else if is_digit(s[j]) {
            match spec_parse_number(s, j) {
                Some((n, e)) => Some((JsonSpec::UInt(n), e)),
                None => None,
            }
        } else {
            None
        }
    }
}

/// The members of a record from position `i` (at the first field's
/// quote): the field list and the position after the closing brace.
pub open spec fn spec_parse_members(s: Seq<char>, i: int, fuel: nat) -> Option<
    (Seq<(Seq<char>, JsonSpec)>, int),
>
    decreases fuel,
{
    if fuel == 0 {
        None
    } else {
        match spec_parse_string(s, i) {
            None => None,
            Some((key, e1)) => {
                let c = spec_skip_ws(s, e1);
                if c >= s.len() || s[c] != ':' {
                    None
                } else {
                    match spec_parse_value(s, c + 1, (fuel - 1) as nat) {
                        None => None,
                        Some((v, e2)) => {
                            let d = spec_skip_ws(s, e2);
                            if d < s.len() && s[d] == ',' {
                                let k = spec_skip_ws(s, d + 1);
                                match spec_parse_members(s, k, (fuel - 1) as nat) {
                                    Some((rest, e3)) => Some((seq![(key, v)] + rest, e3)),
                                    None => None,
                                }
                            } else if d < s.len() && s[d] == '}' {
                                Some((seq![(key, v)], d + 1))
                            } else {
                                None
                            }
                        },
                    }
                }
            },
        }
    }
}

/// The elements of a list from position `i` (at the first element): the
/// element list and the position after the closing bracket.
pub open spec fn spec_parse_elements(s: Seq<char>, i: int, fuel: nat) -> Option<
    (Seq<JsonSpec>, int),
>
    decreases fuel,
{
    if fuel == 0 {
        None
    } else {
        match spec_parse_value(s, i, (fuel - 1) as nat) {
            None => None,
            Some((v, e1)) => {
                let d = spec_skip_ws(s, e1);
                if d < s.len() && s[d] == ',' {
                    let k = spec_skip_ws(s, d + 1);
                    match spec_parse_elements(s, k, (fuel - 1) as nat) {
                        Some((rest, e2)) => Some((seq![v] + rest, e2)),
                        None => None,
                    }
                } else if d < s.len() && s[d] == ']' {
                    Some((seq![v], d + 1))
                } else {
                    None
                }
            },
        }
    }
}

/// A whole input: one value with nothing but whitespace around it,
/// nesting allowed up to one level per character (every nested value
/// starts at least one character further in).
pub open spec fn spec_parse_json(s: Seq<char>) -> Option<JsonSpec> {
    match spec_parse_value(s, 0, (s.len() + 1) as nat) {
        Some((v, e)) => {
            if spec_skip_ws(s, e) == s.len() {
                Some(v)
            } else {
                None
            }
        },
        None => None,
    }
}

fn skip_ws(s: &str, i: usize) -> (r: usize)
    requires
        i <= s@.len(),
    ensures
        r == spec_skip_ws(s@, i as int),
        i <= r <= s@.len(),
{
    let n: usize = s.unicode_len();
    let mut j: usize = i;
    while j < n && (s.get_char(j) == ' ' || s.get_char(j) == '\t' || s.get_char(j) == '\n'
        || s.get_char(j) == '\r')
        invariant
            i <= j <= n == s@.len(),
            spec_skip_ws(s@, i as int) == spec_skip_ws(s@, j as int),
        decreases n - j,
    {
        j = j + 1;
    }
    j
}

fn escape_str(c: char) -> (r: Option<&'static str>)
    ensures
        r matches Some(t) ==> (escape_char(c) matches Some(e) && t@ == seq![e]),
        r is None ==> escape_char(c) is None,
{
    let r: Option<&'static str> = match c {
        '"' => Some("\""),
        '\\' => Some("\\"),
        '/' => Some("/"),
        'b' => Some("\u{0008}"),
        'f' => Some("\u{000C}"),
        'n' => Some("\n"),
        'r' => Some("\r"),
        't' => Some("\t"),
        _ => None,
    };
    proof {
        reveal_strlit("\"");
        reveal_strlit("\\");
        reveal_strlit("/");
        reveal_strlit("\u{0008}");
        reveal_strlit("\u{000C}");
        reveal_strlit("\n");
        reveal_strlit("\r");
        reveal_strlit("\t");
        if r is Some {
            assert(r.unwrap()@ =~= seq![escape_char(c).unwrap()]);
        }
    }
    r
}

fn parse_string(s: &str, i: usize) -> (r: Option<(String, usize)>)
    requires
        i <= s@.len(),
    ensures
        r matches Some((cs, e)) ==> spec_parse_string(s@, i as int) == Some((cs@, e as int)) && i
            < e <= s@.len(),
        r is None ==> spec_parse_string(s@, i as int) is None,
{
    let n: usize = s.unicode_len();
    if i >= n || s.get_char(i) != '"' {
        return None;
    }
    let mut out: String = String::new();
    let mut chunk_start: usize = i + 1;
    let mut j: usize = i + 1;
    proof {
        assert(s@.subrange(i as int + 1, i as int + 1) =~= Seq::<char>::empty());
        assert(out@ + s@.subrange(chunk_start as int, j as int) =~= Seq::<char>::empty());
    }
    loop
        invariant
            i + 1 <= chunk_start <= j <= n == s@.len(),
            i < s@.len() && s@[i as int] == '"',
            spec_string_body(s@, i as int + 1, Seq::empty()) == spec_string_body(
                s@,
                j as int,
                out@ + s@.subrange(chunk_start as int, j as int),
            ),
        decreases n - j,
    {
        let ghost acc = out@ + s@.subrange(chunk_start as int, j as int);
        if j >= n {
            return None;
        }
        let c = s.get_char(j);
        if c == '"' {
            let chunk = s.substring_char(chunk_start, j);
            out.append(chunk);
            proof {
                assert(out@ =~= acc);
            }
            return Some((out, j + 1));
        } else if c == '\\' {
            if j + 1 >= n {
                return None;
            }
            let esc = match escape_str(s.get_char(j + 1)) {
                Some(t) => t,
                None => {
                    return None;
                },
            };
            let chunk = s.substring_char(chunk_start, j);
            out.append(chunk);
            out.append(esc);
            proof {
                assert(out@ =~= acc.push(escape_char(s@[j as int + 1]).unwrap()));
                assert(s@.subrange(j as int + 2, j as int + 2) =~= Seq::<char>::empty());
                assert(out@ + s@.subrange(j as int + 2, j as int + 2) =~= out@);
            }
            chunk_start = j + 2;
            j = j + 2;
        } else {
            proof {
                assert(s@.subrange(chunk_start as int, j as int).push(s@[j as int])
                    =~= s@.subrange(chunk_start as int, j as int + 1));
                assert(acc.push(s@[j as int]) =~= out@ + s@.subrange(
                    chunk_start as int,
                    j as int + 1,
                ));
            }
            j = j + 1;
        }
    }
}

fn parse_number(s: &str, i: usize) -> (r: Option<(u64, usize)>)
    requires
        i <= s@.len(),
    ensures
        r matches Some((v, e)) ==> spec_parse_number(s@, i as int) == Some((v, e as int)) && i <= e
            <= s@.len(),
        r is None ==> spec_parse_number(s@, i as int) is None,
{
    let n: usize = s.unicode_len();
    if i >= n {
        return None;
    }
    let c0 = s.get_char(i) as u32;
    if !(48 <= c0 && c0 <= 57) {
        return None;
    }
    let mut j: usize = i;
    let mut acc: u64 = 0;
    while j < n && 48 <= (s.get_char(j) as u32) && (s.get_char(j) as u32) <= 57
        invariant
            i <= j <= n == s@.len(),
            spec_parse_number(s@, i as int) == spec_number_body(s@, j as int, acc as nat),
        decreases n - j,
    {
        let d = (s.get_char(j) as u32) - 48;
        let wide: u128 = (acc as u128) * 10 + (d as u128);
        if wide > u64::MAX as u128 {
            return None;
        }
        acc = wide as u64;
        j = j + 1;
    }
    Some((acc, j))
}

/// Parse one value at position `i`, with `fuel` bounding the nesting
/// depth exactly as the grammar does.
pub fn parse_value(s: &str, i: usize, fuel: usize) -> (r: Option<(Json, usize)>)
    requires
        i <= s@.len(),
    ensures
        r matches Some((v, e)) ==> spec_parse_value(s@, i as int, fuel as nat) == Some(
            (json_view(v), e as int),
        ) && e <= s@.len(),
        r is None ==> spec_parse_value(s@, i as int, fuel as nat) is None,
    decreases fuel,
{
    if fuel == 0 {
        return None;
    }
    let n: usize = s.unicode_len();
    let j = skip_ws(s, i);
    if j >= n {
        return None;
    }
    let c = s.get_char(j);
    if c == '{' {
        let k = skip_ws(s, j + 1);
        if k < n && s.get_char(k) == '}' {
            let empty_fields: Vec<(String, Json)> = Vec::new();
            let obj = Json::Obj(empty_fields);
            proof {
                assert(json_view(obj) matches JsonSpec::Obj(e) && e =~= Seq::<
                    (Seq<char>, JsonSpec),
                >::empty());
            }
            return Some((obj, k + 1));
        }
        match parse_members(s, k, fuel - 1) {
            Some((ps, e)) => {
                let ghost ps_model = Seq::new(
                    ps@.len(),
                    |q: int| (ps@[q].0@, json_view(ps@[q].1)),
                );
                let ret = Json::Obj(ps);
                proof {
                    assert(json_view(ret) matches JsonSpec::Obj(m) && m =~~= ps_model);
                }
                Some((ret, e))
            },
            None => None,
        }
    } else if c == '[' {
        let k = skip_ws(s, j + 1);
        if k < n && s.get_char(k) == ']' {
            let empty_items: Vec<Json> = Vec::new();
            let arr = Json::Arr(empty_items);
            proof {
                assert(json_view(arr) matches JsonSpec::Arr(e) && e =~= Seq::<
                    JsonSpec,
                >::empty());
            }
            return Some((arr, k + 1));
        }
        match parse_elements(s, k, fuel - 1) {
            Some((vs, e)) => {
                let ghost vs_model = Seq::new(vs@.len(), |q: int| json_view(vs@[q]));
                let ret = Json::Arr(vs);
                proof {
                    assert(json_view(ret) matches JsonSpec::Arr(m) && m =~~= vs_model);
                }
                Some((ret, e))
            },
            None => None,
        }
    } else if c == '"' {
        match parse_string(s, j) {
            Some((cs, e)) => Some((Json::Str(cs), e)),
            None => None,
        }
    } else if c == 't' {
        if n - j >= 4 && s.get_char(j + 1) == 'r' && s.get_char(j + 2) == 'u' && s.get_char(j + 3)
            == 'e' {
            Some((Json::Bool(true), j + 4))
        } else {
            None
        }
    } else if c == 'f' {
        if n - j >= 5 && s.get_char(j + 1) == 'a' && s.get_char(j + 2) == 'l' && s.get_char(j + 3)
            == 's' && s.get_char(j + 4) == 'e' {
            Some((Json::Bool(false), j + 5))
        } else {
            None
        }
    } else if c == 'n' {
        if n - j >= 4 && s.get_char(j + 1) == 'u' && s.get_char(j + 2) == 'l' && s.get_char(j + 3)
            == 'l' {
            Some((Json::Null, j + 4))
        } else {
            None
        }
    } else if 48 <= (c as u32) && (c as u32) <= 57 {
        match parse_number(s, j) {
            Some((v, e)) => Some((Json::UInt(v), e)),
            None => None,
        }
    } else {
        None
    }
}

fn parse_members(s: &str, i: usize, fuel: usize) -> (r: Option<(Vec<(String, Json)>, usize)>)
    requires
        i <= s@.len(),
    ensures
        r matches Some((ps, e)) ==> spec_parse_members(s@, i as int, fuel as nat) == Some(
            (Seq::new(ps@.len(), |k: int| (ps@[k].0@, json_view(ps@[k].1))), e as int),
        ) && e <= s@.len(),
        r is None ==> spec_parse_members(s@, i as int, fuel as nat) is None,
    decreases fuel,
{
    if fuel == 0 {
        return None;
    }
    let n: usize = s.unicode_len();
    let (key, e1) = match parse_string(s, i) {
        Some(ke) => ke,
        None => {
            return None;
        },
    };
    let c = skip_ws(s, e1);
    if c >= n || s.get_char(c) != ':' {
        return None;
    }
    let (v, e2) = match parse_value(s, c + 1, fuel - 1) {
        Some(ve) => ve,
        None => {
            return None;
        },
    };
    let d = skip_ws(s, e2);
    if d < n && s.get_char(d) == ',' {
        let k = skip_ws(s, d + 1);
        match parse_members(s, k, fuel - 1) {
            Some((rest, e3)) => {
                let ghost rest_model = Seq::new(
                    rest@.len(),
                    |q: int| (rest@[q].0@, json_view(rest@[q].1)),
                );
                let ghost key_v = (key@, json_view(v));
                let mut ps = rest;
                ps.insert(0, (key, v));
                proof {
                    assert(Seq::new(ps@.len(), |q: int| (ps@[q].0@, json_view(ps@[q].1)))
                        =~= seq![key_v] + rest_model);
                }
                Some((ps, e3))
            },
            None => None,
        }
    } else if d < n && s.get_char(d) == '}' {
        let mut ps: Vec<(String, Json)> = Vec::new();
        let ghost key_v = (key@, json_view(v));
        ps.push((key, v));
        proof {
            assert(Seq::new(ps@.len(), |q: int| (ps@[q].0@, json_view(ps@[q].1)))
                =~= seq![key_v]);
        }
        Some((ps, d + 1))
    } else {
        None
    }
}

fn parse_elements(s: &str, i: usize, fuel: usize) -> (r: Option<(Vec<Json>, usize)>)
    requires
        i <= s@.len(),
    ensures
        r matches Some((vs, e)) ==> spec_parse_elements(s@, i as int, fuel as nat) == Some(
            (Seq::new(vs@.len(), |k: int| json_view(vs@[k])), e as int),
        ) && e <= s@.len(),
        r is None ==> spec_parse_elements(s@, i as int, fuel as nat) is None,
    decreases fuel,
{
    if fuel == 0 {
        return None;
    }
    let n: usize = s.unicode_len();
    let (v, e1) = match parse_value(s, i, fuel - 1) {
        Some(ve) => ve,
        None => {
            return None;
        },
    };
    let d = skip_ws(s, e1);
    if d < n && s.get_char(d) == ',' {
        let k = skip_ws(s, d + 1);
        match parse_elements(s, k, fuel - 1) {
            Some((rest, e2)) => {
                let ghost rest_model = Seq::new(rest@.len(), |q: int| json_view(rest@[q]));
                let ghost v_model = json_view(v);
                let mut vs = rest;
                vs.insert(0, v);
                proof {
                    assert(Seq::new(vs@.len(), |q: int| json_view(vs@[q])) =~= seq![v_model]
                        + rest_model);
                }
                Some((vs, e2))
            },
            None => None,
        }
    } else if d < n && s.get_char(d) == ']' {
        let mut vs: Vec<Json> = Vec::new();
        let ghost v_model = json_view(v);
        vs.push(v);
        proof {
            assert(Seq::new(vs@.len(), |q: int| json_view(vs@[q])) =~= seq![v_model]);
        }
        Some((vs, d + 1))
    } else {
        None
    }
}

/// Parse a whole input: one value with nothing but whitespace around it.
pub fn parse_json(s: &str) -> (r: Option<Json>)
    requires
        s@.len() < usize::MAX,
    ensures
        r matches Some(v) ==> spec_parse_json(s@) == Some(json_view(v)),
        r is None ==> spec_parse_json(s@) is None,
{
    let n: usize = s.unicode_len();
    match parse_value(s, 0, n + 1) {
        Some((v, e)) => {
            let t = skip_ws(s, e);
            if t == n {
                Some(v)
            } else {
                None
            }
        },
        None => None,
    }
}

proof fn lemma_skip_ws_bounds(s: Seq<char>, i: int)
    requires
        0 <= i,
    ensures
        i <= spec_skip_ws(s, i),
        i <= s.len() ==> spec_skip_ws(s, i) <= s.len(),
    decreases s.len() - i,
{
    if 0 <= i < s.len() && is_ws(s[i]) {
        lemma_skip_ws_bounds(s, i + 1);
    }
}

proof fn lemma_string_body_end(s: Seq<char>, i: int, acc: Seq<char>)
    requires
        0 <= i,
    ensures
        spec_string_body(s, i, acc) matches Some((cs, e)) ==> i < e <= s.len(),
    decreases s.len() - i,
{
    if 0 <= i < s.len() {
        if s[i] == '\\' {
            if i + 1 < s.len() && escape_char(s[i + 1]) is Some {
                lemma_string_body_end(s, i + 2, acc.push(escape_char(s[i + 1]).unwrap()));
            }
        } else if s[i] != '"' {
            lemma_string_body_end(s, i + 1, acc.push(s[i]));
        }
    }
}

proof fn lemma_number_body_end(s: Seq<char>, i: int, acc: nat)
    requires
        0 <= i <= s.len(),
    ensures
        spec_number_body(s, i, acc) matches Some((n, e)) ==> i <= e <= s.len(),
        (0 <= i < s.len() && is_digit(s[i]) && spec_number_body(s, i, acc) matches Some(
            (n, e),
        )) ==> spec_number_body(s, i, acc).unwrap().1 > i,
    decreases s.len() - i,
{
    if 0 <= i < s.len() && is_digit(s[i]) && acc * 10 + digit_value(s[i]) <= u64::MAX {
        lemma_number_body_end(s, i + 1, (acc * 10 + digit_value(s[i])) as nat);
    }
}

/// A parsed value always consumes at least one character and ends inside
/// the input.
pub proof fn lemma_value_progress(s: Seq<char>, i: int, fuel: nat)
    requires
        0 <= i,
    ensures
        spec_parse_value(s, i, fuel) matches Some((v, e)) ==> i < e <= s.len(),
    decreases fuel, 0int,
{
    if fuel > 0 {
        let j = spec_skip_ws(s, i);
        lemma_skip_ws_bounds(s, i);
        if 0 <= j < s.len() {
            if s[j] == '{' || s[j] == '[' {
                lemma_skip_ws_bounds(s, j + 1);
                let k = spec_skip_ws(s, j + 1);
                if s[j] == '{' {
                    lemma_members_progress(s, k, (fuel - 1) as nat);
                } else {
                    lemma_elements_progress(s, k, (fuel - 1) as nat);
                }
            } else if s[j] == '"' {
                lemma_string_body_end(s, j + 1, Seq::empty());
            } else if is_digit(s[j]) {
                lemma_number_body_end(s, j, 0);
            }
        }
    }
}

/// Parsed record fields always consume at least one character and end
/// inside the input.
pub proof fn lemma_members_progress(s: Seq<char>, i: int, fuel: nat)
    requires
        0 <= i,
    ensures
        spec_parse_members(s, i, fuel) matches Some((ps, e)) ==> i < e <= s.len(),
    decreases fuel, 1int,
{
    if fuel > 0 {
        lemma_string_body_end(s, i + 1, Seq::empty());
        let so = spec_parse_string(s, i);
        if so is Some {
            let e1 = so.unwrap().1;
            let c = spec_skip_ws(s, e1);
            lemma_skip_ws_bounds(s, e1);
            if 0 <= c < s.len() && s[c] == ':' {
                lemma_value_progress(s, c + 1, (fuel - 1) as nat);
                let vo = spec_parse_value(s, c + 1, (fuel - 1) as nat);
                if vo is Some {
                    let e2 = vo.unwrap().1;
                    let d = spec_skip_ws(s, e2);
                    lemma_skip_ws_bounds(s, e2);
                    if d < s.len() && s[d] == ',' {
                        lemma_skip_ws_bounds(s, d + 1);
                        lemma_members_progress(s, spec_skip_ws(s, d + 1), (fuel - 1) as nat);
                    }
                }
            }
        }
    }
}

/// Parsed list elements always consume at least one character and end
/// inside the input.
pub proof fn lemma_elements_progress(s: Seq<char>, i: int, fuel: nat)
    requires
        0 <= i,
    ensures
        spec_parse_elements(s, i, fuel) matches Some((vs, e)) ==> i < e <= s.len(),
    decreases fuel, 2int,
{
    if fuel > 0 {
        lemma_value_progress(s, i, (fuel - 1) as nat);
        let vo = spec_parse_value(s, i, (fuel - 1) as nat);
        if vo is Some {
            let e1 = vo.unwrap().1;
            let d = spec_skip_ws(s, e1);
            lemma_skip_ws_bounds(s, e1);
            if d < s.len() && s[d] == ',' {
                lemma_skip_ws_bounds(s, d + 1);
                lemma_elements_progress(s, spec_skip_ws(s, d + 1), (fuel - 1) as nat);
            }
        }
    }
}

/// A parse that succeeds is stable: giving the grammar a larger nesting
/// allowance never changes a successful result.
pub proof fn lemma_value_fuel_monotone(s: Seq<char>, i: int, f1: nat, f2: nat)
    requires
        f1 <= f2,
        spec_parse_value(s, i, f1) is Some,
    ensures
        spec_parse_value(s, i, f2) == spec_parse_value(s, i, f1),
    decreases f1, 0int,
{
    let j = spec_skip_ws(s, i);
    if 0 <= j < s.len() {
        if s[j] == '{' {
            let k = spec_skip_ws(s, j + 1);
            if !(k < s.len() && s[k] == '}') {
                lemma_members_fuel_monotone(s, k, (f1 - 1) as nat, (f2 - 1) as nat);
            }
        } else if s[j] == '[' {
            let k = spec_skip_ws(s, j + 1);
            if !(k < s.len() && s[k] == ']') {
                lemma_elements_fuel_monotone(s, k, (f1 - 1) as nat, (f2 - 1) as nat);
            }
        }
    }
}

/// Record fields parse stably under a larger nesting allowance.
pub proof fn lemma_members_fuel_monotone(s: Seq<char>, i: int, f1: nat, f2: nat)
    requires
        f1 <= f2,
        spec_parse_members(s, i, f1) is Some,
    ensures
        spec_parse_members(s, i, f2) == spec_parse_members(s, i, f1),
    decreases f1, 1int,
{
    assert(f1 > 0);
    let so = spec_parse_string(s, i);
    assert(so is Some);
    assert(0 <= i);
    lemma_string_body_end(s, i + 1, Seq::empty());
    let e1 = so.unwrap().1;
    let c = spec_skip_ws(s, e1);
    lemma_skip_ws_bounds(s, e1);
    assert(0 <= c < s.len() && s[c] == ':');
    let vo = spec_parse_value(s, c + 1, (f1 - 1) as nat);
    assert(vo is Some);
    lemma_value_fuel_monotone(s, c + 1, (f1 - 1) as nat, (f2 - 1) as nat);
    let e2 = vo.unwrap().1;
    let d = spec_skip_ws(s, e2);
    if d < s.len() && s[d] == ',' {
        let k = spec_skip_ws(s, d + 1);
        assert(spec_parse_members(s, k, (f1 - 1) as nat) is Some);
        lemma_members_fuel_monotone(s, k, (f1 - 1) as nat, (f2 - 1) as nat);
    } else {
        assert(d < s.len() && s[d] == '}');
    }
}

/// List elements parse stably under a larger nesting allowance.
pub proof fn lemma_elements_fuel_monotone(s: Seq<char>, i: int, f1: nat, f2: nat)
    requires
        f1 <= f2,
        spec_parse_elements(s, i, f1) is Some,
    ensures
        spec_parse_elements(s, i, f2) == spec_parse_elements(s, i, f1),
    decreases f1, 2int,
{
    assert(f1 > 0);
    let vo = spec_parse_value(s, i, (f1 - 1) as nat);
    assert(vo is Some);
    assert(0 <= i);
    lemma_value_fuel_monotone(s, i, (f1 - 1) as nat, (f2 - 1) as nat);
    lemma_value_progress(s, i, (f1 - 1) as nat);
    let e1 = vo.unwrap().1;
    let d = spec_skip_ws(s, e1);
    lemma_skip_ws_bounds(s, e1);
    if d < s.len() && s[d] == ',' {
        let k = spec_skip_ws(s, d + 1);
        assert(spec_parse_elements(s, k, (f1 - 1) as nat) is Some);
        lemma_elements_fuel_monotone(s, k, (f1 - 1) as nat, (f2 - 1) as nat);
    } else {
        assert(d < s.len() && s[d] == ']');
    }
}

} // verus!

//! Decoding check descriptors from the wire format.
//!
//! A check descriptor is a record tagged `type`; today the one kind is
//! `rust`. Its fields are `features` (a list of strings), `version` and
//! `jobs` (a single value or a list, both normalized to a list),
//! `only-tip` (a flag) and `working-dir` (a string or null). A job is one
//! of the strings `build`, `examples`, `test`, or a one-field record
//! `{"fuzz": {"iters": n}}` with the iteration count optional. Absent
//! fields take their defaults; an unknown or repeated field rejects the
//! descriptor. The whole check list arrives as a list of descriptors.

use vstd::prelude::*;

use crate::checks::{Check, RustCheck, RustJob};
use crate::json::{parse_json, spec_parse_json, Json, JsonSpec};
use crate::text::str_eq;

verus! {

/// The mathematical content of a decoded check.
pub struct RustCheckModel {
    pub features: Seq<Seq<char>>,
    pub version: Seq<Seq<char>>,
    pub jobs: Seq<RustJob>,
    pub only_tip: bool,
    pub working_dir: Option<Seq<char>>,
}

/// The content of a check value.
pub open spec fn rust_check_model(c: RustCheck) -> RustCheckModel {
    RustCheckModel {
        features: crate::cache::views_of(c.features@),
        version: crate::cache::views_of(c.version@),
        jobs: c.jobs@,
        only_tip: c.only_tip,
        working_dir: match c.working_dir {
            Some(d) => Some(d@),
            None => None,
        },
    }
}

/// The content of a check, by kind.
pub open spec fn check_model(c: Check) -> RustCheckModel {
    match c {
        Check::Rust(rc) => rust_check_model(rc),
    }
}

/// A list of strings: every element must be a string.
pub open spec fn spec_str_list(items: Seq<JsonSpec>, i: int) -> Option<Seq<Seq<char>>>
    decreases items.len() - i,
{
    if i < 0 || i >= items.len() {
        Some(Seq::empty())
    } else {
        match items[i] {
            JsonSpec::Str(s) => match spec_str_list(items, i + 1) {
                Some(rest) => Some(seq![s] + rest),
                None => None,
            },
            _ => None,
        }
    }
}

/// A single string or a list of strings, normalized to a list.
pub open spec fn spec_single_or_seq_str(v: JsonSpec) -> Option<Seq<Seq<char>>> {
    match v {
        JsonSpec::Str(s) => Some(seq![s]),
        JsonSpec::Arr(items) => spec_str_list(items, 0),
        _ => None,
    }
}

/// One job: a job-kind name, or the one-field fuzz record with its
/// optional iteration count.
pub open spec fn spec_job(v: JsonSpec) -> Option<RustJob> {
    match v {
        JsonSpec::Str(s) => {
            if s == "build"@ {
                Some(RustJob::Build)
            } else if s == "examples"@ {
                Some(RustJob::Examples)
            } else if s == "test"@ {
                Some(RustJob::Test)
            } else {
                None
            }
        },
        JsonSpec::Obj(fields) => {
            if fields.len() == 1 && fields[0].0 == "fuzz"@ {
                match fields[0].1 {
                    JsonSpec::Obj(inner) => {
                        if inner.len() == 0 {
                            Some(RustJob::Fuzz { iters: 100000 })
                        } else if inner.len() == 1 && inner[0].0 == "iters"@ {
                            match inner[0].1 {
                                JsonSpec::UInt(n) => {
                                    if n <= usize::MAX as u64 {
                                        Some(RustJob::Fuzz { iters: n as usize })
                                    } else {
                                        None
                                    }
                                },
                                _ => None,
                            }
                        } else {
                            None
                        }
                    },
                    _ => None,
                }
            } else {
                None
            }
        },
        _ => None,
    }
}

/// A list of jobs: every element must be a job.
pub open spec fn spec_job_list(items: Seq<JsonSpec>, i: int) -> Option<Seq<RustJob>>
    decreases items.len() - i,
{
    if i < 0 || i >= items.len() {
        Some(Seq::empty())
    } else {
        match spec_job(items[i]) {
            Some(j) => match spec_job_list(items, i + 1) {
                Some(rest) => Some(seq![j] + rest),
                None => None,
            },
            None => None,
        }
    }
}

/// A single job-kind name or a list of jobs, normalized to a list. The
/// single form is the name alone; a lone fuzz record must be written as a
/// list.
pub open spec fn spec_single_or_seq_jobs(v: JsonSpec) -> Option<Seq<RustJob>> {
    match v {
        JsonSpec::Str(_) => match spec_job(v) {
            Some(j) => Some(seq![j]),
            None => None,
        },
        JsonSpec::Arr(items) => spec_job_list(items, 0),
        _ => None,
    }
}

/// The fields collected while reading a descriptor's record: each at most
/// once, the tag required.
pub struct CheckAcc {
    pub type_seen: bool,
    pub features: Option<Seq<Seq<char>>>,
    pub version: Option<Seq<Seq<char>>>,
    pub jobs: Option<Seq<RustJob>>,
    pub only_tip: Option<bool>,
    pub working_dir: Option<Option<Seq<char>>>,
}

/// No field read yet.
pub open spec fn empty_acc() -> CheckAcc {
    CheckAcc {
        type_seen: false,
        features: None,
        version: None,
        jobs: None,
        only_tip: None,
        working_dir: None,
    }
}

/// Read the record's fields from position `i` on into the accumulator: a
/// repeated field, an unknown field, or a field of the wrong shape
/// rejects the descriptor.
pub open spec fn spec_fields(
    fields: Seq<(Seq<char>, JsonSpec)>,
    i: int,
    acc: CheckAcc,
) -> Option<CheckAcc>
    decreases fields.len() - i,
{
    if i < 0 || i >= fields.len() {
        Some(acc)
    } else {
        let name = fields[i].0;
        let v = fields[i].1;
        if name == "type"@ {
            if acc.type_seen || !(v == JsonSpec::Str("rust"@)) {
                None
            } else {
                spec_fields(fields, i + 1, CheckAcc { type_seen: true, ..acc })
            }
        } else if name == "features"@ {
            if acc.features is Some {
                None
            } else {
                match v {
                    JsonSpec::Arr(items) => match spec_str_list(items, 0) {
                        Some(fs) => spec_fields(
                            fields,
                            i + 1,
                            CheckAcc { features: Some(fs), ..acc },
                        ),
                        None => None,
                    },
                    _ => None,
                }
            }
        } else if name == "version"@ {
            if acc.version is Some {
                None
            } else {
                match spec_single_or_seq_str(v) {
                    Some(vs) => spec_fields(fields, i + 1, CheckAcc { version: Some(vs), ..acc }),
                    None => None,
                }
            }
        } else if name == "jobs"@ {
            if acc.jobs is Some {
                None
            } else {
                match spec_single_or_seq_jobs(v) {
                    Some(js) => spec_fields(fields, i + 1, CheckAcc { jobs: Some(js), ..acc }),
                    None => None,
                }
            }
        } else if name == "only-tip"@ {
            if acc.only_tip is Some {
                None
            } else {
                match v {
                    JsonSpec::Bool(b) => spec_fields(
                        fields,
                        i + 1,
                        CheckAcc { only_tip: Some(b), ..acc },
                    ),
                    _ => None,
                }
            }
        } else if name == "working-dir"@ {
            if acc.working_dir is Some {
                None
            } else {
                match v {
                    JsonSpec::Str(d) => spec_fields(
                        fields,
                        i + 1,
                        CheckAcc { working_dir: Some(Some(d)), ..acc },
                    ),
                    JsonSpec::Null => spec_fields(
                        fields,
                        i + 1,
                        CheckAcc { working_dir: Some(None), ..acc },
                    ),
                    _ => None,
                }
            }
        } else {
            None
        }
    }
}

/// A whole descriptor: a record carrying the `rust` tag, its fields
/// collected and the defaults applied — no features, no declared
/// versions, the default job kinds, every commit checked, the repository
/// root as working directory.
pub open spec fn spec_check(v: JsonSpec) -> Option<RustCheckModel> {
    match v {
        JsonSpec::Obj(fields) => match spec_fields(fields, 0, empty_acc()) {
            Some(acc) => {
                if acc.type_seen {
                    Some(
                        RustCheckModel {
                            features: match acc.features {
                                Some(f) => f,
                                None => Seq::empty(),
                            },
                            version: match acc.version {
                                Some(f) => f,
                                None => Seq::empty(),
                            },
                            jobs: match acc.jobs {
                                Some(f) => f,
                                None => seq![
                                    RustJob::Build,
                                    RustJob::Test,
                                    RustJob::Examples,
                                ],
                            },
                            only_tip: match acc.only_tip {
                                Some(f) => f,
                                None => false,
                            },
                            working_dir: match acc.working_dir {
                                Some(f) => f,
                                None => None,
                            },
                        },
                    )
                } else {
                    None
                }
            },
            None => None,
        },
        _ => None,
    }
}

/// A list of descriptors.
pub open spec fn spec_check_list(items: Seq<JsonSpec>, i: int) -> Option<Seq<RustCheckModel>>
    decreases items.len() - i,
{
    if i < 0 || i >= items.len() {
        Some(Seq::empty())
    } else {
        match spec_check(items[i]) {
            Some(c) => match spec_check_list(items, i + 1) {
                Some(rest) => Some(seq![c] + rest),
                None => None,
            },
            None => None,
        }
    }
}

/// What a check-list input means: the wire format parsed, the outer value
/// a list, every element a descriptor.
pub open spec fn spec_parse_check_list(s: Seq<char>) -> Option<Seq<RustCheckModel>> {
    match spec_parse_json(s) {
        Some(JsonSpec::Arr(items)) => spec_check_list(items, 0),
        _ => None,
    }
}

fn decode_str_list(items: &Vec<Json>) -> (r: Option<Vec<String>>)
    ensures
        r matches Some(ss) ==> spec_str_list(
            Seq::new(items@.len(), |k: int| crate::json::json_view(items@[k])),
            0,
        ) == Some(crate::cache::views_of(ss@)),
        r is None ==> spec_str_list(
            Seq::new(items@.len(), |k: int| crate::json::json_view(items@[k])),
            0,
        ) is None,
{
    let ghost models = Seq::new(items@.len(), |k: int| crate::json::json_view(items@[k]));
    let mut ss: Vec<String> = Vec::new();
    let mut i: usize = 0;
    while i < items.len()
        invariant
            0 <= i <= items@.len(),
            models == Seq::new(items@.len(), |k: int| crate::json::json_view(items@[k])),
            spec_str_list(models, 0) == match spec_str_list(models, i as int) {
                Some(rest) => Some(crate::cache::views_of(ss@) + rest),
                None => None,
            },
        decreases items@.len() - i,
    {
        match &items[i] {
            Json::Str(s) => {
                let ghost ss_old = crate::cache::views_of(ss@);
                let ghost sv = s@;
                ss.push(s.clone());
                proof {
                    assert(crate::cache::views_of(ss@) =~= ss_old.push(sv));
                    assert(models[i as int] == JsonSpec::Str(sv));
                    let rest_opt = spec_str_list(models, i as int + 1);
                    if rest_opt is Some {
                        let rest = rest_opt.unwrap();
                        assert(ss_old + (seq![sv] + rest) =~= crate::cache::views_of(ss@) + rest);
                    }
                }
            },
            _ => {
                proof {
                    assert(spec_str_list(models, i as int) is None);
                }
                return None;
            },
        }
        i = i + 1;
    }
    proof {
        assert(spec_str_list(models, items@.len() as int) == Some(Seq::<Seq<char>>::empty()));
        assert(crate::cache::views_of(ss@) + Seq::<Seq<char>>::empty() =~= crate::cache::views_of(
            ss@,
        ));
    }
    Some(ss)
}

fn decode_job(v: &Json) -> (r: Option<RustJob>)
    ensures
        r == spec_job(crate::json::json_view(*v)),
{
    match v {
        Json::Str(s) => {
            if str_eq(s.as_str(), "build") {
                Some(RustJob::Build)
            } else if str_eq(s.as_str(), "examples") {
                Some(RustJob::Examples)
            } else if str_eq(s.as_str(), "test") {
                Some(RustJob::Test)
            } else {
                None
            }
        },
        Json::Obj(fields) => {
            let ghost fm = Seq::new(
                fields@.len(),
                |k: int| (fields@[k].0@, crate::json::json_view(fields@[k].1)),
            );
            if fields.len() == 1 && str_eq(fields[0].0.as_str(), "fuzz") {
                proof {
                    assert(fm[0].0 == "fuzz"@);
                }
                match &fields[0].1 {
                    Json::Obj(inner) => {
                        let ghost im = Seq::new(
                            inner@.len(),
                            |k: int| (inner@[k].0@, crate::json::json_view(inner@[k].1)),
                        );
                        if inner.len() == 0 {
                            Some(RustJob::Fuzz { iters: 100000 })
                        } else if inner.len() == 1 && str_eq(inner[0].0.as_str(), "iters") {
                            proof {
                                assert(im[0].0 == "iters"@);
                            }
                            match &inner[0].1 {
                                Json::UInt(n) => {
                                    if *n <= usize::MAX as u64 {
                                        Some(RustJob::Fuzz { iters: *n as usize })
                                    } else {
                                        None
                                    }
                                },
                                _ => None,
                            }
                        } else {
                            proof {
                                if inner@.len() == 1 {
                                    assert(im[0].0 != "iters"@);
                                }
                            }
                            None
                        }
                    },
                    _ => None,
                }
            } else {
                proof {
                    if fields@.len() == 1 {
                        assert(fm[0].0 != "fuzz"@);
                    }
                }
                None
            }
        },
        _ => None,
    }
}

fn decode_job_list(items: &Vec<Json>) -> (r: Option<Vec<RustJob>>)
    ensures
        r matches Some(js) ==> spec_job_list(
            Seq::new(items@.len(), |k: int| crate::json::json_view(items@[k])),
            0,
        ) == Some(js@),
        r is None ==> spec_job_list(
            Seq::new(items@.len(), |k: int| crate::json::json_view(items@[k])),
            0,
        ) is None,
{
    let ghost models = Seq::new(items@.len(), |k: int| crate::json::json_view(items@[k]));
    let mut js: Vec<RustJob> = Vec::new();
    let mut i: usize = 0;
    while i < items.len()
        invariant
            0 <= i <= items@.len(),
            models == Seq::new(items@.len(), |k: int| crate::json::json_view(items@[k])),
            spec_job_list(models, 0) == match spec_job_list(models, i as int) {
                Some(rest) => Some(js@ + rest),
                None => None,
            },
        decreases items@.len() - i,
    {
        match decode_job(&items[i]) {
            Some(j) => {
                let ghost js_old = js@;
                js.push(j);
                proof {
                    let rest_opt = spec_job_list(models, i as int + 1);
                    if rest_opt is Some {
                        let rest = rest_opt.unwrap();
                        assert(js_old + (seq![j] + rest) =~= js@ + rest);
                    }
                }
            },
            None => {
                return None;
            },
        }
        i = i + 1;
    }
    proof {
        assert(spec_job_list(models, items@.len() as int) == Some(Seq::<RustJob>::empty()));
        assert(js@ + Seq::<RustJob>::empty() =~= js@);
    }
    Some(js)
}

/// Decode one check descriptor from a parsed value.
pub fn decode_check(v: &Json) -> (r: Option<Check>)
    ensures
        r matches Some(c) ==> spec_check(crate::json::json_view(*v)) == Some(check_model(c)),
        r is None ==> spec_check(crate::json::json_view(*v)) is None,
{
    let fields = match v {
        Json::Obj(fields) => fields,
        _ => {
            return None;
        },
    };
    let ghost fm = Seq::new(
        fields@.len(),
        |k: int| (fields@[k].0@, crate::json::json_view(fields@[k].1)),
    );
    proof {
        assert(crate::json::json_view(*v) matches JsonSpec::Obj(m) && m =~~= fm);
        assert(crate::json::json_view(*v) == JsonSpec::Obj(fm));
    }
    let mut type_seen: bool = false;
    let mut features: Option<Vec<String>> = None;
    let mut version: Option<Vec<String>> = None;
    let mut jobs: Option<Vec<RustJob>> = None;
    let mut only_tip: Option<bool> = None;
    let mut working_dir: Option<Option<String>> = None;
    let mut i: usize = 0;
    while i < fields.len()
        invariant
            0 <= i <= fields@.len(),
            fm == Seq::new(
                fields@.len(),
                |k: int| (fields@[k].0@, crate::json::json_view(fields@[k].1)),
            ),
            crate::json::json_view(*v) == JsonSpec::Obj(fm),
            spec_fields(fm, 0, empty_acc()) == spec_fields(
                fm,
                i as int,
                CheckAcc {
                    type_seen: type_seen,
                    features: match features {
                        Some(ref f) => Some(crate::cache::views_of(f@)),
                        None => None,
                    },
                    version: match version {
                        Some(ref f) => Some(crate::cache::views_of(f@)),
                        None => None,
                    },
                    jobs: match jobs {
                        Some(ref f) => Some(f@),
                        None => None,
                    },
                    only_tip: match only_tip {
                        Some(b) => Some(b),
                        None => None,
                    },
                    working_dir: match working_dir {
                        Some(Some(ref d)) => Some(Some(d@)),
                        Some(None) => Some(None),
                        None => None,
                    },
                },
            ),
        decreases fields@.len() - i,
    {
        let name = &fields[i].0;
        let value = &fields[i].1;
        proof {
            assert(fm[i as int] == (name@, crate::json::json_view(*value)));
        }
        if str_eq(name.as_str(), "type") {
            let tag_ok = match value {
                Json::Str(s) => str_eq(s.as_str(), "rust"),
                _ => false,
            };
            if type_seen || !tag_ok {
                proof {
                    if !type_seen {
                        assert(!(crate::json::json_view(*value) == JsonSpec::Str("rust"@)));
                    }
                }
                return None;
            }
            type_seen = true;
        } else if str_eq(name.as_str(), "features") {
            if features.is_some() {
                return None;
            }
            match value {
                Json::Arr(items) => {
                    proof {
                        assert(crate::json::json_view(*value) matches JsonSpec::Arr(m) && m
                            =~~= Seq::new(
                            items@.len(),
                            |k: int| crate::json::json_view(items@[k]),
                        ));
                    }
                    match decode_str_list(items) {
                        Some(fs) => {
                            features = Some(fs);
                        },
                        None => {
                            return None;
                        },
                    }
                },
                _ => {
                    return None;
                },
            }
        } else if str_eq(name.as_str(), "version") {
            if version.is_some() {
                return None;
            }
            match value {
                Json::Str(s) => {
                    let mut vs: Vec<String> = Vec::new();
                    let ghost sv = s@;
                    vs.push(s.clone());
                    proof {
                        assert(crate::cache::views_of(vs@) =~= seq![sv]);
                    }
                    version = Some(vs);
                },
                Json::Arr(items) => {
                    proof {
                        assert(crate::json::json_view(*value) matches JsonSpec::Arr(m) && m
                            =~~= Seq::new(
                            items@.len(),
                            |k: int| crate::json::json_view(items@[k]),
                        ));
                    }
                    match decode_str_list(items) {
                        Some(ss) => {
                            version = Some(ss);
                        },
                        None => {
                            return None;
                        },
                    }
                },
                _ => {
                    return None;
                },
            }
        } else if str_eq(name.as_str(), "jobs") {
            if jobs.is_some() {
                return None;
            }
            match value {
                Json::Str(_) => match decode_job(value) {
                    Some(j) => {
                        let mut js: Vec<RustJob> = Vec::new();
                        js.push(j);
                        proof {
                            assert(js@ =~= seq![j]);
                        }
                        jobs = Some(js);
                    },
                    None => {
                        return None;
                    },
                },
                Json::Arr(items) => {
                    proof {
                        assert(crate::json::json_view(*value) matches JsonSpec::Arr(m) && m
                            =~~= Seq::new(
                            items@.len(),
                            |k: int| crate::json::json_view(items@[k]),
                        ));
                    }
                    match decode_job_list(items) {
                        Some(js) => {
                            jobs = Some(js);
                        },
                        None => {
                            return None;
                        },
                    }
                },
                _ => {
                    return None;
                },
            }
        } else if str_eq(name.as_str(), "only-tip") {
            if only_tip.is_some() {
                return None;
            }
            match value {
                Json::Bool(b) => {
                    only_tip = Some(*b);
                },
                _ => {
                    return None;
                },
            }
        } else if str_eq(name.as_str(), "working-dir") {
            if working_dir.is_some() {
                return None;
            }
            match value {
                Json::Str(d) => {
                    working_dir = Some(Some(d.clone()));
                },
                Json::Null => {
                    working_dir = Some(None);
                },
                _ => {
                    return None;
                },
            }
        } else {
            return None;
        }
        i = i + 1;
    }
    if !type_seen {
        return None;
    }
    let features_v = match features {
        Some(f) => f,
        None => Vec::new(),
    };
    let version_v = match version {
        Some(f) => f,
        None => Vec::new(),
    };
    let jobs_v = match jobs {
        Some(f) => f,
        None => crate::checks::default_rust_jobs(),
    };
    let only_tip_v = match only_tip {
        Some(b) => b,
        None => false,
    };
    let working_dir_v = match working_dir {
        Some(d) => d,
        None => None,
    };
    let rc = RustCheck {
        features: features_v,
        version: version_v,
        jobs: jobs_v,
        only_tip: only_tip_v,
        working_dir: working_dir_v,
    };
    proof {
        assert(crate::cache::views_of(Seq::<String>::empty()) =~= Seq::<Seq<char>>::empty());
    }
    Some(Check::Rust(rc))
}

/// Decode a whole check list from its textual form. The error carries the
/// fixed diagnostic for an input the wire format rejects.
pub fn parse_check_list(s: &str) -> (r: Result<Vec<Check>, String>)
    requires
        s@.len() < usize::MAX,
    ensures
        r matches Ok(cs) ==> spec_parse_check_list(s@) == Some(
            Seq::new(cs@.len(), |k: int| check_model(cs@[k])),
        ),
        r matches Err(m) ==> spec_parse_check_list(s@) is None && m@
            == "parsing check list JSON"@,
{
    let parsed = match parse_json(s) {
        Some(v) => v,
        None => {
            return Err(String::from_str("parsing check list JSON"));
        },
    };
    let items = match parsed {
        Json::Arr(items) => items,
        _ => {
            return Err(String::from_str("parsing check list JSON"));
        },
    };
    let ghost models = Seq::new(items@.len(), |k: int| crate::json::json_view(items@[k]));
    proof {
        assert(crate::json::json_view(Json::Arr(items)) matches JsonSpec::Arr(m) && m
            =~~= models);
        assert(spec_parse_json(s@) == Some(JsonSpec::Arr(models)));
    }
    let mut cs: Vec<Check> = Vec::new();
    let mut i: usize = 0;
    while i < items.len()
        invariant
            0 <= i <= items@.len(),
            models == Seq::new(items@.len(), |k: int| crate::json::json_view(items@[k])),
            spec_parse_json(s@) == Some(JsonSpec::Arr(models)),
            spec_check_list(models, 0) == match spec_check_list(models, i as int) {
                Some(rest) => Some(Seq::new(cs@.len(), |k: int| check_model(cs@[k])) + rest),
                None => None,
            },
        decreases items@.len() - i,
    {
        match decode_check(&items[i]) {
            Some(c) => {
                let ghost cs_old = Seq::new(cs@.len(), |k: int| check_model(cs@[k]));
                let ghost cm = check_model(c);
                cs.push(c);
                proof {
                    assert(Seq::new(cs@.len(), |k: int| check_model(cs@[k])) =~~= cs_old.push(cm));
                    let rest_opt = spec_check_list(models, i as int + 1);
                    if rest_opt is Some {
                        let rest = rest_opt.unwrap();
                        assert(cs_old + (seq![cm] + rest) =~~= cs_old.push(cm) + rest);
                    }
                }
            },
            None => {
                return Err(String::from_str("parsing check list JSON"));
            },
        }
        i = i + 1;
    }
    proof {
        assert(spec_check_list(models, items@.len() as int) == Some(
            Seq::<RustCheckModel>::empty(),
        ));
        assert(Seq::new(cs@.len(), |k: int| check_model(cs@[k])) + Seq::<
            RustCheckModel,
        >::empty() =~~= Seq::new(cs@.len(), |k: int| check_model(cs@[k])));
    }
    Ok(cs)
}

/// Decode one check descriptor from its textual form.
pub fn parse_check(s: &str) -> (r: Result<Check, String>)
    requires
        s@.len() < usize::MAX,
    ensures
        r matches Ok(c) ==> (spec_parse_json(s@) matches Some(v) && spec_check(v) == Some(
            check_model(c),
        )),
        r matches Err(m) ==> m@ == "decoding"@ && (spec_parse_json(s@) is None
            || spec_check(spec_parse_json(s@).unwrap()) is None),
{
    let parsed = match parse_json(s) {
        Some(v) => v,
        None => {
            return Err(String::from_str("decoding"));
        },
    };
    match decode_check(&parsed) {
        Some(c) => Ok(c),
        None => Err(String::from_str("decoding")),
    }
}

} // verus!

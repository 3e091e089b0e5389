//! Declarative check descriptions and their expansion into concrete jobs.
//!
//! A check description names toolchain versions, feature sets and job
//! kinds; expansion produces the full cross-product of concrete jobs for
//! one commit. The feature matrix is deliberately linear, not a power
//! set: the empty set (default build), the full declared set, and each
//! declared feature on its own — enough to catch "breaks with no
//! features", "breaks with all features" and "breaks with exactly this
//! one feature" at bounded cost. Example and fuzz jobs iterate over the
//! manifest's declared targets instead of the feature matrix.

use vstd::prelude::*;

use crate::cache::views_of;
use crate::cargo::{names_of, CargoToml};
use crate::text::{dec_digits, join, join_with, usize_to_dec};

verus! {

/// One kind of job a check can ask for.
#[derive(Clone, Copy, Debug, PartialEq, Eq, Hash, Structural)]
pub enum RustJob {
    Build,
    Examples,
    Test,
    Fuzz { iters: usize },
}

/// The job kinds a check runs when it names none: build, test, and run
/// the examples.
pub fn default_rust_jobs() -> (r: Vec<RustJob>)
    ensures
        r@ == seq![RustJob::Build, RustJob::Test, RustJob::Examples],
{
    let mut r: Vec<RustJob> = Vec::new();
    r.push(RustJob::Build);
    r.push(RustJob::Test);
    r.push(RustJob::Examples);
    proof {
        assert(r@ =~= seq![RustJob::Build, RustJob::Test, RustJob::Examples]);
    }
    r
}

/// The iteration count a fuzz job runs for when none is chosen.
pub fn default_fuzz_iters() -> (r: usize)
    ensures
        r == 100000usize,
{
    100000
}

/// A declarative check of a project: which toolchain versions to use
/// (empty means one canonical version), which feature sets to declare,
/// which job kinds to run, whether to check only the tip of the pull
/// request, and an optional working subdirectory. Immutable once built.
#[derive(Clone, Debug, PartialEq, Eq)]
pub struct RustCheck {
    /// Declared feature names; empty means default features only.
    pub features: Vec<String>,
    /// Toolchain versions; empty means the canonical version alone.
    pub version: Vec<String>,
    /// Job kinds to run.
    pub jobs: Vec<RustJob>,
    /// Restrict this check to the tip commit of the pull request.
    pub only_tip: bool,
    /// Working subdirectory below the repository root, if any.
    pub working_dir: Option<String>,
}

/// A check, keyed by kind. One variant today; adding a kind is a new
/// variant plus a match arm in the expander and the executor.
#[derive(Clone, Debug, PartialEq, Eq)]
pub enum Check {
    Rust(RustCheck),
}

/// One fully resolved unit of work: toolchain version, job kind, and the
/// job's extension — the feature combination for build and test, the one
/// target name for examples and fuzzing.
#[derive(Clone, Debug)]
pub struct ConcreteJob {
    /// Toolchain version the job runs under.
    pub version: String,
    /// The kind of work.
    pub job: RustJob,
    /// Feature combination, or the single target name.
    pub ext: Vec<String>,
}

/// The mathematical content of a concrete job: version, kind, extension.
pub open spec fn job_model(j: ConcreteJob) -> (Seq<char>, RustJob, Seq<Seq<char>>) {
    (j.version@, j.job, views_of(j.ext@))
}

/// The models of a list of concrete jobs.
pub open spec fn models_of(v: Seq<ConcreteJob>) -> Seq<(Seq<char>, RustJob, Seq<Seq<char>>)> {
    Seq::new(v.len(), |i: int| job_model(v[i]))
}

/// The views of a list of feature combinations.
pub open spec fn matrix_views(m: Seq<Vec<String>>) -> Seq<Seq<Seq<char>>> {
    Seq::new(m.len(), |i: int| views_of(m[i]@))
}

/// The feature combinations tried for build and test jobs: always the
/// empty combination; when features are declared, also the full declared
/// set and then each feature on its own, in declaration order.
pub open spec fn spec_feature_matrix(features: Seq<Seq<char>>) -> Seq<Seq<Seq<char>>> {
    if features.len() == 0 {
        seq![Seq::<Seq<char>>::empty()]
    } else {
        seq![Seq::<Seq<char>>::empty(), features] + Seq::new(
            features.len(),
            |i: int| seq![features[i]],
        )
    }
}

fn clone_string_vec(v: &Vec<String>) -> (r: Vec<String>)
    ensures
        r@.len() == v@.len(),
        forall|i: int| 0 <= i < v@.len() ==> r@[i]@ == v@[i]@,
{
    let mut r: Vec<String> = Vec::new();
    let mut i: usize = 0;
    while i < v.len()
        invariant
            0 <= i <= v@.len(),
            r@.len() == i,
            forall|k: int| 0 <= k < i ==> r@[k]@ == v@[k]@,
        decreases v@.len() - i,
    {
        r.push(v[i].clone());
        i = i + 1;
    }
    r
}

/// Expand declared features into the combinations to try.
pub fn feature_matrix(features: &Vec<String>) -> (m: Vec<Vec<String>>)
    ensures
        matrix_views(m@) == spec_feature_matrix(views_of(features@)),
{
    let ghost fv = views_of(features@);
    let mut m: Vec<Vec<String>> = Vec::new();
    m.push(Vec::new());
    if features.len() > 0 {
        m.push(clone_string_vec(features));
        proof {
            assert(views_of(m@[1]@) =~= fv);
        }
        let mut i: usize = 0;
        while i < features.len()
            invariant
                0 <= i <= features@.len(),
                fv == views_of(features@),
                0 < features@.len() == fv.len(),
                m@.len() == 2 + i,
                views_of(m@[0]@) =~= Seq::<Seq<char>>::empty(),
                views_of(m@[1]@) =~= fv,
                forall|k: int| 0 <= k < i ==> views_of(m@[2 + k]@) =~= seq![fv[k]],
            decreases features@.len() - i,
        {
            let mut single: Vec<String> = Vec::new();
            single.push(features[i].clone());
            proof {
                assert(views_of(single@) =~= seq![fv[i as int]]);
            }
            m.push(single);
            i = i + 1;
        }
        proof {
            assert(matrix_views(m@) =~= spec_feature_matrix(fv));
        }
    } else {
        proof {
            assert(views_of(m@[0]@) =~= Seq::<Seq<char>>::empty());
            assert(matrix_views(m@) =~= spec_feature_matrix(fv));
        }
    }
    m
}

/// The toolchain versions a check runs under: the declared list, or the
/// canonical `stable` alone when none is declared.
pub open spec fn spec_versions(declared: Seq<Seq<char>>) -> Seq<Seq<char>> {
    if declared.len() == 0 {
        seq!["stable"@]
    } else {
        declared
    }
}

/// Resolve a check's toolchain versions.
pub fn resolve_versions(declared: &Vec<String>) -> (r: Vec<String>)
    ensures
        views_of(r@) == spec_versions(views_of(declared@)),
{
    if declared.len() == 0 {
        let mut r: Vec<String> = Vec::new();
        r.push(String::from_str("stable"));
        proof {
            assert(views_of(r@) =~= seq!["stable"@]);
        }
        r
    } else {
        let r = clone_string_vec(declared);
        proof {
            assert(views_of(r@) =~= views_of(declared@));
        }
        r
    }
}

/// The concrete jobs one job kind contributes for one toolchain version:
/// build and test run once per feature combination; examples and fuzzing
/// run once per declared target, the feature matrix not applied.
pub open spec fn spec_expand_job(
    ver: Seq<char>,
    job: RustJob,
    matrix: Seq<Seq<Seq<char>>>,
    examples: Seq<Seq<char>>,
    bins: Seq<Seq<char>>,
) -> Seq<(Seq<char>, RustJob, Seq<Seq<char>>)> {
    match job {
        RustJob::Build => Seq::new(matrix.len(), |i: int| (ver, job, matrix[i])),
        RustJob::Test => Seq::new(matrix.len(), |i: int| (ver, job, matrix[i])),
        RustJob::Examples => Seq::new(examples.len(), |i: int| (ver, job, seq![examples[i]])),
        RustJob::Fuzz { .. } => Seq::new(bins.len(), |i: int| (ver, job, seq![bins[i]])),
    }
}

/// The concrete jobs of the job kinds from position `i` on, for one
/// toolchain version, in order.
pub open spec fn spec_expand_jobs_from(
    ver: Seq<char>,
    jobs: Seq<RustJob>,
    i: int,
    matrix: Seq<Seq<Seq<char>>>,
    examples: Seq<Seq<char>>,
    bins: Seq<Seq<char>>,
) -> Seq<(Seq<char>, RustJob, Seq<Seq<char>>)>
    decreases jobs.len() - i,
{
    if i < 0 || i >= jobs.len() {
        Seq::empty()
    } else {
        spec_expand_job(ver, jobs[i], matrix, examples, bins) + spec_expand_jobs_from(
            ver,
            jobs,
            i + 1,
            matrix,
            examples,
            bins,
        )
    }
}

/// The concrete jobs of the toolchain versions from position `i` on.
pub open spec fn spec_expand_versions_from(
    versions: Seq<Seq<char>>,
    i: int,
    jobs: Seq<RustJob>,
    matrix: Seq<Seq<Seq<char>>>,
    examples: Seq<Seq<char>>,
    bins: Seq<Seq<char>>,
) -> Seq<(Seq<char>, RustJob, Seq<Seq<char>>)>
    decreases versions.len() - i,
{
    if i < 0 || i >= versions.len() {
        Seq::empty()
    } else {
        spec_expand_jobs_from(versions[i], jobs, 0, matrix, examples, bins)
            + spec_expand_versions_from(versions, i + 1, jobs, matrix, examples, bins)
    }
}

/// Everything a check runs for one commit: for each resolved toolchain
/// version, each declared job kind expanded over the feature matrix or
/// the manifest's targets.
pub open spec fn spec_expand(check: RustCheck, manifest: CargoToml) -> Seq<
    (Seq<char>, RustJob, Seq<Seq<char>>),
> {
    spec_expand_versions_from(
        spec_versions(views_of(check.version@)),
        0,
        check.jobs@,
        spec_feature_matrix(views_of(check.features@)),
        names_of(manifest.example@),
        names_of(manifest.bin@),
    )
}

fn push_job(
    out: &mut Vec<ConcreteJob>,
    version: &String,
    job: RustJob,
    ext: Vec<String>,
)
    ensures
        final(out)@.len() == old(out)@.len() + 1,
        models_of(final(out)@) == models_of(old(out)@).push((version@, job, views_of(ext@))),
{
    let v = version.clone();
    let ghost ext_views = views_of(ext@);
    out.push(ConcreteJob { version: v, job, ext });
    proof {
        assert(models_of(out@) =~~= models_of(old(out)@).push((version@, job, ext_views)));
    }
}

fn expand_one_job(
    out: &mut Vec<ConcreteJob>,
    version: &String,
    job: RustJob,
    matrix: &Vec<Vec<String>>,
    manifest: &CargoToml,
)
    ensures
        models_of(final(out)@) == models_of(old(out)@) + spec_expand_job(
            version@,
            job,
            matrix_views(matrix@),
            names_of(manifest.example@),
            names_of(manifest.bin@),
        ),
{
    let ghost base = models_of(old(out)@);
    let ghost chunk = spec_expand_job(
        version@,
        job,
        matrix_views(matrix@),
        names_of(manifest.example@),
        names_of(manifest.bin@),
    );
    match job {
        RustJob::Build | RustJob::Test => {
            let mut i: usize = 0;
            while i < matrix.len()
                invariant
                    0 <= i <= matrix@.len(),
                    chunk == spec_expand_job(
                        version@,
                        job,
                        matrix_views(matrix@),
                        names_of(manifest.example@),
                        names_of(manifest.bin@),
                    ),
                    chunk.len() == matrix@.len(),
                    forall|k: int| 0 <= k < matrix@.len() ==> chunk[k] == (
                    version@,
                    job,
                    views_of(matrix@[k]@),
                    ),
                    models_of(out@) == base + chunk.subrange(0, i as int),
                decreases matrix@.len() - i,
            {
                let ext = clone_string_vec(&matrix[i]);
                proof {
                    assert(views_of(ext@) =~= views_of(matrix@[i as int]@));
                }
                push_job(out, version, job, ext);
                proof {
                    assert(base + chunk.subrange(0, i as int + 1) =~~= (base + chunk.subrange(
                        0,
                        i as int,
                    )).push(chunk[i as int]));
                }
                i = i + 1;
            }
            proof {
                assert(chunk.subrange(0, matrix@.len() as int) =~~= chunk);
            }
        },
        RustJob::Examples => {
            let mut i: usize = 0;
            while i < manifest.example.len()
                invariant
                    0 <= i <= manifest.example@.len(),
                    chunk == spec_expand_job(
                        version@,
                        job,
                        matrix_views(matrix@),
                        names_of(manifest.example@),
                        names_of(manifest.bin@),
                    ),
                    job is Examples,
                    chunk.len() == manifest.example@.len(),
                    forall|k: int| 0 <= k < manifest.example@.len() ==> chunk[k] == (
                    version@,
                    job,
                    seq![manifest.example@[k].name@],
                    ),
                    models_of(out@) == base + chunk.subrange(0, i as int),
                decreases manifest.example@.len() - i,
            {
                let mut ext: Vec<String> = Vec::new();
                ext.push(manifest.example[i].name.clone());
                proof {
                    assert(views_of(ext@) =~= seq![manifest.example@[i as int].name@]);
                }
                push_job(out, version, job, ext);
                proof {
                    assert(base + chunk.subrange(0, i as int + 1) =~~= (base + chunk.subrange(
                        0,
                        i as int,
                    )).push(chunk[i as int]));
                }
                i = i + 1;
            }
            proof {
                assert(chunk.subrange(0, manifest.example@.len() as int) =~~= chunk);
            }
        },
        RustJob::Fuzz { .. } => {
            let mut i: usize = 0;
            while i < manifest.bin.len()
                invariant
                    0 <= i <= manifest.bin@.len(),
                    chunk == spec_expand_job(
                        version@,
                        job,
                        matrix_views(matrix@),
                        names_of(manifest.example@),
                        names_of(manifest.bin@),
                    ),
                    job is Fuzz,
                    chunk.len() == manifest.bin@.len(),
                    forall|k: int| 0 <= k < manifest.bin@.len() ==> chunk[k] == (
                    version@,
                    job,
                    seq![manifest.bin@[k].name@],
                    ),
                    models_of(out@) == base + chunk.subrange(0, i as int),
                decreases manifest.bin@.len() - i,
            {
                let mut ext: Vec<String> = Vec::new();
                ext.push(manifest.bin[i].name.clone());
                proof {
                    assert(views_of(ext@) =~= seq![manifest.bin@[i as int].name@]);
                }
                push_job(out, version, job, ext);
                proof {
                    assert(base + chunk.subrange(0, i as int + 1) =~~= (base + chunk.subrange(
                        0,
                        i as int,
                    )).push(chunk[i as int]));
                }
                i = i + 1;
            }
            proof {
                assert(chunk.subrange(0, manifest.bin@.len() as int) =~~= chunk);
            }
        },
    }
}

impl RustCheck {
    /// Expand this check against a project manifest into the concrete
    /// jobs to run for one commit.
    pub fn expand(&self, manifest: &CargoToml) -> (r: Vec<ConcreteJob>)
        ensures
            models_of(r@) == spec_expand(*self, *manifest),
    {
        let versions = resolve_versions(&self.version);
        let matrix = feature_matrix(&self.features);
        let ghost vs = spec_versions(views_of(self.version@));
        let ghost mx = spec_feature_matrix(views_of(self.features@));
        let ghost exs = names_of(manifest.example@);
        let ghost bns = names_of(manifest.bin@);
        let ghost total = spec_expand_versions_from(vs, 0, self.jobs@, mx, exs, bns);
        let mut out: Vec<ConcreteJob> = Vec::new();
        let mut v: usize = 0;
        proof {
            assert(models_of(out@) + total =~~= total);
        }
        while v < versions.len()
            invariant
                0 <= v <= versions@.len(),
                views_of(versions@) == vs,
                matrix_views(matrix@) == mx,
                exs == names_of(manifest.example@),
                bns == names_of(manifest.bin@),
                total == spec_expand_versions_from(vs, 0, self.jobs@, mx, exs, bns),
                models_of(out@) + spec_expand_versions_from(vs, v as int, self.jobs@, mx, exs, bns)
                    == total,
            decreases versions@.len() - v,
        {
            let version = &versions[v];
            proof {
                assert(version@ == vs[v as int]);
            }
            let ghost tail = spec_expand_versions_from(vs, v as int + 1, self.jobs@, mx, exs, bns);
            proof {
                assert(models_of(out@) + (spec_expand_jobs_from(vs[v as int], self.jobs@, 0, mx, exs, bns) + tail)
                    == total);
                assert(models_of(out@) + spec_expand_jobs_from(vs[v as int], self.jobs@, 0, mx, exs, bns) + tail
                    =~~= models_of(out@) + (spec_expand_jobs_from(vs[v as int], self.jobs@, 0, mx, exs, bns) + tail));
            }
            let mut j: usize = 0;
            while j < self.jobs.len()
                invariant
                    0 <= j <= self.jobs@.len(),
                    0 <= v < versions@.len(),
                    matrix_views(matrix@) == mx,
                    exs == names_of(manifest.example@),
                    bns == names_of(manifest.bin@),
                    version@ == vs[v as int],
                    tail == spec_expand_versions_from(vs, v as int + 1, self.jobs@, mx, exs, bns),
                    models_of(out@) + spec_expand_jobs_from(vs[v as int], self.jobs@, j as int, mx, exs, bns)
                        + tail == total,
                decreases self.jobs@.len() - j,
            {
                let ghost before = models_of(out@);
                let ghost chunk = spec_expand_job(vs[v as int], self.jobs@[j as int], mx, exs, bns);
                expand_one_job(&mut out, version, self.jobs[j], &matrix, manifest);
                proof {
                    assert(models_of(out@) == before + chunk);
                    assert(spec_expand_jobs_from(vs[v as int], self.jobs@, j as int, mx, exs, bns)
                        == chunk + spec_expand_jobs_from(vs[v as int], self.jobs@, j as int + 1, mx, exs, bns));
                    assert(models_of(out@) + spec_expand_jobs_from(vs[v as int], self.jobs@, j as int + 1, mx, exs, bns)
                        + tail =~~= before + chunk + spec_expand_jobs_from(vs[v as int], self.jobs@, j as int + 1, mx, exs, bns) + tail);
                    assert(before + chunk + spec_expand_jobs_from(vs[v as int], self.jobs@, j as int + 1, mx, exs, bns) + tail
                        =~~= before + spec_expand_jobs_from(vs[v as int], self.jobs@, j as int, mx, exs, bns) + tail);
                    assert(before + spec_expand_jobs_from(vs[v as int], self.jobs@, j as int, mx, exs, bns) + tail
                        =~~= before + (spec_expand_jobs_from(vs[v as int], self.jobs@, j as int, mx, exs, bns)) + tail);
                }
                j = j + 1;
            }
            proof {
                assert(spec_expand_jobs_from(vs[v as int], self.jobs@, self.jobs@.len() as int, mx, exs, bns)
                    =~~= Seq::<(Seq<char>, RustJob, Seq<Seq<char>>)>::empty());
                assert(models_of(out@) + Seq::<(Seq<char>, RustJob, Seq<Seq<char>>)>::empty() + tail
                    =~~= models_of(out@) + tail);
            }
            v = v + 1;
        }
        proof {
            assert(spec_expand_versions_from(vs, versions@.len() as int, self.jobs@, mx, exs, bns)
                =~~= Seq::<(Seq<char>, RustJob, Seq<Seq<char>>)>::empty());
            assert(models_of(out@) + Seq::<(Seq<char>, RustJob, Seq<Seq<char>>)>::empty()
                =~~= models_of(out@));
        }
        proof {
            assert(models_of(out@) =~~= spec_expand(*self, *manifest));
        }
        out
    }
}

/// The canonical textual descriptor of a concrete job, used both for
/// logging and as the cache-marker key. Two jobs skip or hit the same
/// cache entry exactly when these texts are equal.
pub open spec fn spec_descriptor(ver: Seq<char>, job: RustJob, ext: Seq<Seq<char>>) -> Seq<char> {
    match job {
        RustJob::Build => ver + " cargo build '--features="@ + join(ext, " "@) + "'"@,
        RustJob::Test => ver + " cargo test '--features="@ + join(ext, " "@) + "'"@,
        RustJob::Examples => ver + " cargo run '--example "@ + ext[0] + "'"@,
        RustJob::Fuzz { iters } => ver + " cargo hfuzz run "@ + ext[0] + " # iters "@
            + dec_digits(iters as nat),
    }
}

impl ConcreteJob {
    /// Render this job's canonical descriptor.
    pub fn descriptor(&self) -> (r: String)
        requires
            (self.job is Examples || self.job is Fuzz) ==> self.ext@.len() >= 1,
        ensures
            r@ == spec_descriptor(self.version@, self.job, views_of(self.ext@)),
    {
        let mut r = self.version.clone();
        match self.job {
            RustJob::Build => {
                r.append(" cargo build '--features=");
                let joined = join_with(&self.ext, " ");
                r.append(joined.as_str());
                r.append("'");
            },
            RustJob::Test => {
                r.append(" cargo test '--features=");
                let joined = join_with(&self.ext, " ");
                r.append(joined.as_str());
                r.append("'");
            },
            RustJob::Examples => {
                r.append(" cargo run '--example ");
                r.append(self.ext[0].as_str());
                r.append("'");
            },
            RustJob::Fuzz { iters } => {
                r.append(" cargo hfuzz run ");
                r.append(self.ext[0].as_str());
                r.append(" # iters ");
                let n = usize_to_dec(iters);
                r.append(n.as_str());
            },
        }
        proof {
            assert(r@ =~= spec_descriptor(self.version@, self.job, views_of(self.ext@)));
        }
        r
    }

    /// The exact command this job runs: the build tool with the toolchain
    /// selector and the arguments of its kind, plus the fuzzer's
    /// environment for fuzz jobs, in the check's working directory.
    pub fn command(&self, cwd_suffix: &Option<String>) -> (c: crate::cargo::CommandSpec)
        requires
            (self.job is Examples || self.job is Fuzz) ==> self.ext@.len() >= 1,
        ensures
            c.program@ == "cargo"@,
            c.cwd_suffix == *cwd_suffix,
            self.job is Build ==> views_of(c.args@) == seq![
                crate::cargo::plus_version(self.version@),
                "build"@,
                crate::cargo::features_arg(views_of(self.ext@)),
            ],
            self.job is Test ==> views_of(c.args@) == seq![
                crate::cargo::plus_version(self.version@),
                "test"@,
                crate::cargo::features_arg(views_of(self.ext@)),
            ],
            self.job is Examples ==> views_of(c.args@) == seq![
                crate::cargo::plus_version(self.version@),
                "run"@,
                "--example"@,
                self.ext@[0]@,
            ],
            self.job matches RustJob::Fuzz { iters } ==> views_of(c.args@) == seq![
                crate::cargo::plus_version(self.version@),
                "hfuzz"@,
                "run"@,
                self.ext@[0]@,
            ] && c.env@.len() == 2 && c.env@[1].1@ == crate::cargo::fuzz_run_args(iters as nat),
            !(self.job is Fuzz) ==> c.env@.len() == 0,
    {
        match self.job {
            RustJob::Build => crate::cargo::build_command(&self.version, &self.ext, cwd_suffix),
            RustJob::Test => crate::cargo::test_command(&self.version, &self.ext, cwd_suffix),
            RustJob::Examples => crate::cargo::example_command(
                &self.version,
                &self.ext[0],
                cwd_suffix,
            ),
            RustJob::Fuzz { iters } => crate::cargo::fuzz_command(
                &self.version,
                &self.ext[0],
                iters,
                cwd_suffix,
            ),
        }
    }
}

/// The short name of a job kind.
pub open spec fn spec_job_kind_name(job: RustJob) -> Seq<char> {
    match job {
        RustJob::Build => "build"@,
        RustJob::Examples => "examples"@,
        RustJob::Test => "test"@,
        RustJob::Fuzz { .. } => "fuzz"@,
    }
}

/// The short name of a job kind.
pub fn job_kind_name(job: RustJob) -> (r: &'static str)
    ensures
        r@ == spec_job_kind_name(job),
{
    match job {
        RustJob::Build => "build",
        RustJob::Examples => "examples",
        RustJob::Test => "test",
        RustJob::Fuzz { .. } => "fuzz",
    }
}

/// The one-line description of a check, for reporting which check a task
/// ran: its kind, its declared features and its job kinds.
pub open spec fn spec_describe_rust(check: RustCheck) -> Seq<char> {
    "{ rust features=["@ + join(views_of(check.features@), " "@) + "] jobs=["@ + join(
        Seq::new(check.jobs@.len(), |i: int| spec_job_kind_name(check.jobs@[i])),
        " "@,
    ) + "] }"@
}

impl RustCheck {
    /// Render the one-line description of this check.
    pub fn describe(&self) -> (r: String)
        ensures
            r@ == spec_describe_rust(*self),
    {
        let ghost job_names = Seq::new(
            self.jobs@.len(),
            |i: int| spec_job_kind_name(self.jobs@[i]),
        );
        let mut names: Vec<String> = Vec::new();
        let mut i: usize = 0;
        while i < self.jobs.len()
            invariant
                0 <= i <= self.jobs@.len(),
                job_names == Seq::new(
                    self.jobs@.len(),
                    |k: int| spec_job_kind_name(self.jobs@[k]),
                ),
                names@.len() == i,
                forall|k: int| 0 <= k < i ==> names@[k]@ == job_names[k],
            decreases self.jobs@.len() - i,
        {
            names.push(String::from_str(job_kind_name(self.jobs[i])));
            i = i + 1;
        }
        proof {
            assert(views_of(names@) =~= job_names);
        }
        let mut r = String::from_str("{ rust features=[");
        let feats = join_with(&self.features, " ");
        r.append(feats.as_str());
        r.append("] jobs=[");
        let jobs = join_with(&names, " ");
        r.append(jobs.as_str());
        r.append("] }");
        proof {
            assert(r@ =~= spec_describe_rust(*self));
        }
        r
    }
}

impl Check {
    /// Expand this check against a project manifest into the concrete
    /// jobs to run for one commit, by kind.
    pub fn expand(&self, manifest: &CargoToml) -> (r: Vec<ConcreteJob>)
        ensures
            self matches Check::Rust(rc) ==> models_of(r@) == spec_expand(*rc, *manifest),
    {
        match self {
            Check::Rust(rc) => rc.expand(manifest),
        }
    }

    /// Render the one-line description of this check, by kind.
    pub fn describe(&self) -> (r: String)
        ensures
            self matches Check::Rust(rc) ==> r@ == spec_describe_rust(*rc),
    {
        match self {
            Check::Rust(rc) => rc.describe(),
        }
    }

    /// Whether this check is restricted to the tip of the pull request.
    pub fn only_tip(&self) -> (r: bool)
        ensures
            self matches Check::Rust(rc) ==> r == rc.only_tip,
    {
        match self {
            Check::Rust(rc) => rc.only_tip,
        }
    }

    /// The check's working subdirectory below the repository root, if any.
    pub fn working_dir(&self) -> (r: &Option<String>)
        ensures
            self matches Check::Rust(rc) ==> *r == rc.working_dir,
    {
        match self {
            Check::Rust(rc) => &rc.working_dir,
        }
    }
}

/// The feature matrix is linear, not a power set: besides the empty
/// combination it holds the full declared set and one singleton per
/// declared feature, so `n` declared features give `n + 2` combinations
/// (and none give exactly one, the empty combination).
pub proof fn lemma_feature_matrix_linear(features: Seq<Seq<char>>)
    ensures
        features.len() == 0 ==> spec_feature_matrix(features).len() == 1,
        features.len() > 0 ==> spec_feature_matrix(features).len() == features.len() + 2,
{
}

/// Two declared features expand to exactly four combinations: none, both,
/// the first alone, the second alone — so a build-only check runs four
/// build jobs per commit per toolchain version.
pub proof fn lemma_feature_matrix_two(features: Seq<Seq<char>>)
    requires
        features.len() == 2,
    ensures
        spec_feature_matrix(features) == seq![
            Seq::<Seq<char>>::empty(),
            features,
            seq![features[0]],
            seq![features[1]],
        ],
        spec_expand_job("stable"@, RustJob::Build, spec_feature_matrix(features), Seq::empty(), Seq::empty()).len() == 4,
{
    assert(spec_feature_matrix(features) =~~= seq![
        Seq::<Seq<char>>::empty(),
        features,
        seq![features[0]],
        seq![features[1]],
    ]);
}

} // verus!

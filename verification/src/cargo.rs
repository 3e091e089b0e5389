//! The build-tool collaborator, modelled as data: what the engine knows of
//! a project manifest (its runnable targets), and the exact command lines
//! and environment the engine chooses for each job. The surrounding
//! process spawns the commands; everything decided here — program, argument
//! list, environment, working-directory override — is verified.

use vstd::prelude::*;

use crate::cache::views_of;
use crate::text::{dec_digits, join, join_with, usize_to_dec};

verus! {

/// One runnable target declared by a project manifest.
pub struct Example {
    /// The target's name, as the manifest declares it.
    pub name: String,
}

/// What the engine reads from a project manifest: the declared binary
/// targets (used for fuzzing) and example targets. Everything else in the
/// manifest is none of the engine's business.
pub struct CargoToml {
    /// Declared binary targets.
    pub bin: Vec<Example>,
    /// Declared example targets.
    pub example: Vec<Example>,
}

/// The names of a list of targets.
pub open spec fn names_of(v: Seq<Example>) -> Seq<Seq<char>> {
    Seq::new(v.len(), |i: int| v[i].name@)
}

/// A fully decided command invocation: program, arguments, extra
/// environment, and the working directory relative to the isolated
/// repository (`None` means its root). A command specification is
/// constructed fresh for each concrete job and owned by a single task;
/// it is never shared between concurrent tasks.
pub struct CommandSpec {
    /// Program to run.
    pub program: String,
    /// Arguments, in order.
    pub args: Vec<String>,
    /// Extra environment variables as (name, value) pairs.
    pub env: Vec<(String, String)>,
    /// Working directory below the isolated repository's root, if any.
    pub cwd_suffix: Option<String>,
}

/// The toolchain-selection argument handed to the build tool: a `+`
/// followed by the toolchain version.
pub open spec fn plus_version(version: Seq<char>) -> Seq<char> {
    "+"@ + version
}

/// The feature-selection argument: the chosen feature names joined by
/// single spaces after `--features=`.
pub open spec fn features_arg(features: Seq<Seq<char>>) -> Seq<char> {
    "--features="@ + join(features, " "@)
}

fn plus_version_string(version: &String) -> (r: String)
    ensures
        r@ == plus_version(version@),
{
    let mut r = String::from_str("+");
    r.append(version.as_str());
    r
}

fn features_arg_string(features: &Vec<String>) -> (r: String)
    ensures
        r@ == features_arg(views_of(features@)),
{
    let mut r = String::from_str("--features=");
    let joined = join_with(features, " ");
    r.append(joined.as_str());
    r
}

/// The command that asks the build tool for its version: the program
/// itself with the toolchain selector and `-V`, from the repository root.
pub fn version_command(version: &String) -> (c: CommandSpec)
    ensures
        c.program@ == "cargo"@,
        views_of(c.args@) == seq![plus_version(version@), "-V"@],
        c.env@.len() == 0,
        c.cwd_suffix is None,
{
    let mut args: Vec<String> = Vec::new();
    args.push(plus_version_string(version));
    args.push(String::from_str("-V"));
    proof {
        assert(views_of(args@) =~= seq![plus_version(version@), "-V"@]);
    }
    CommandSpec {
        program: String::from_str("cargo"),
        args,
        env: Vec::new(),
        cwd_suffix: None,
    }
}

/// The command that asks the compiler for its version.
pub fn rustc_version_command(version: &String) -> (c: CommandSpec)
    ensures
        c.program@ == "rustc"@,
        views_of(c.args@) == seq![plus_version(version@), "-V"@],
        c.env@.len() == 0,
        c.cwd_suffix is None,
{
    let mut args: Vec<String> = Vec::new();
    args.push(plus_version_string(version));
    args.push(String::from_str("-V"));
    proof {
        assert(views_of(args@) =~= seq![plus_version(version@), "-V"@]);
    }
    CommandSpec {
        program: String::from_str("rustc"),
        args,
        env: Vec::new(),
        cwd_suffix: None,
    }
}

/// The build command for one feature combination.
pub fn build_command(version: &String, features: &Vec<String>, cwd_suffix: &Option<String>) -> (c:
    CommandSpec)
    ensures
        c.program@ == "cargo"@,
        views_of(c.args@) == seq![
            plus_version(version@),
            "build"@,
            features_arg(views_of(features@)),
        ],
        c.env@.len() == 0,
        c.cwd_suffix == *cwd_suffix,
{
    let mut args: Vec<String> = Vec::new();
    args.push(plus_version_string(version));
    args.push(String::from_str("build"));
    args.push(features_arg_string(features));
    proof {
        assert(views_of(args@) =~= seq![
            plus_version(version@),
            "build"@,
            features_arg(views_of(features@)),
        ]);
    }
    CommandSpec {
        program: String::from_str("cargo"),
        args,
        env: Vec::new(),
        cwd_suffix: clone_opt_string(cwd_suffix),
    }
}

/// The test command for one feature combination.
pub fn test_command(version: &String, features: &Vec<String>, cwd_suffix: &Option<String>) -> (c:
    CommandSpec)
    ensures
        c.program@ == "cargo"@,
        views_of(c.args@) == seq![
            plus_version(version@),
            "test"@,
            features_arg(views_of(features@)),
        ],
        c.env@.len() == 0,
        c.cwd_suffix == *cwd_suffix,
{
    let mut args: Vec<String> = Vec::new();
    args.push(plus_version_string(version));
    args.push(String::from_str("test"));
    args.push(features_arg_string(features));
    proof {
        assert(views_of(args@) =~= seq![
            plus_version(version@),
            "test"@,
            features_arg(views_of(features@)),
        ]);
    }
    CommandSpec {
        program: String::from_str("cargo"),
        args,
        env: Vec::new(),
        cwd_suffix: clone_opt_string(cwd_suffix),
    }
}

/// The command that runs one example target.
pub fn example_command(version: &String, example: &String, cwd_suffix: &Option<String>) -> (c:
    CommandSpec)
    ensures
        c.program@ == "cargo"@,
        views_of(c.args@) == seq![plus_version(version@), "run"@, "--example"@, example@],
        c.env@.len() == 0,
        c.cwd_suffix == *cwd_suffix,
{
    let mut args: Vec<String> = Vec::new();
    args.push(plus_version_string(version));
    args.push(String::from_str("run"));
    args.push(String::from_str("--example"));
    args.push(example.clone());
    proof {
        assert(views_of(args@) =~= seq![
            plus_version(version@),
            "run"@,
            "--example"@,
            example@,
        ]);
    }
    CommandSpec {
        program: String::from_str("cargo"),
        args,
        env: Vec::new(),
        cwd_suffix: clone_opt_string(cwd_suffix),
    }
}

/// The fuzzing run arguments: stop on the first crash, verbose, with the
/// chosen iteration count.
pub open spec fn fuzz_run_args(iters: nat) -> Seq<char> {
    "--exit_upon_crash -v -N"@ + dec_digits(iters)
}

/// The command that fuzzes one binary target for a bounded number of
/// iterations, with the fuzzer's build and run configuration passed
/// through the environment.
pub fn fuzz_command(version: &String, bin: &String, iters: usize, cwd_suffix: &Option<String>) -> (c:
    CommandSpec)
    ensures
        c.program@ == "cargo"@,
        views_of(c.args@) == seq![plus_version(version@), "hfuzz"@, "run"@, bin@],
        c.env@.len() == 2,
        c.env@[0].0@ == "HFUZZ_BUILD_ARGS"@,
        c.env@[0].1@ == "--features honggfuzz_fuzz"@,
        c.env@[1].0@ == "HFUZZ_RUN_ARGS"@,
        c.env@[1].1@ == fuzz_run_args(iters as nat),
        c.cwd_suffix == *cwd_suffix,
{
    let mut args: Vec<String> = Vec::new();
    args.push(plus_version_string(version));
    args.push(String::from_str("hfuzz"));
    args.push(String::from_str("run"));
    args.push(bin.clone());
    proof {
        assert(views_of(args@) =~= seq![plus_version(version@), "hfuzz"@, "run"@, bin@]);
    }
    let mut env: Vec<(String, String)> = Vec::new();
    env.push(
        (String::from_str("HFUZZ_BUILD_ARGS"), String::from_str("--features honggfuzz_fuzz")),
    );
    let mut run_args = String::from_str("--exit_upon_crash -v -N");
    let iters_dec = usize_to_dec(iters);
    run_args.append(iters_dec.as_str());
    env.push((String::from_str("HFUZZ_RUN_ARGS"), run_args));
    CommandSpec {
        program: String::from_str("cargo"),
        args,
        env,
        cwd_suffix: clone_opt_string(cwd_suffix),
    }
}

fn clone_opt_string(o: &Option<String>) -> (r: Option<String>)
    ensures
        r == *o,
{
    match o {
        Some(s) => Some(s.clone()),
        None => None,
    }
}

/// Character-wise lexicographic order on text, scanning from position `i`:
/// the order the toolchain-version comparison below goes by.
pub open spec fn lex_lt_from(a: Seq<char>, b: Seq<char>, i: int) -> bool
    decreases b.len() - i,
{
    if i < 0 || i >= b.len() {
        false
    } else if i >= a.len() {
        true
    } else if (a[i] as u32) != (b[i] as u32) {
        (a[i] as u32) < (b[i] as u32)
    } else {
        lex_lt_from(a, b, i + 1)
    }
}

/// Character-wise lexicographic order on text.
pub open spec fn lex_lt(a: Seq<char>, b: Seq<char>) -> bool {
    lex_lt_from(a, b, 0)
}

/// Compare two texts in character-wise lexicographic order.
pub fn str_lex_lt(a: &str, b: &str) -> (r: bool)
    ensures
        r == lex_lt(a@, b@),
{
    let an: usize = a.unicode_len();
    let bn: usize = b.unicode_len();
    let mut i: usize = 0;
    loop
        invariant
            0 <= i <= an,
            i <= bn,
            an == a@.len(),
            bn == b@.len(),
            lex_lt(a@, b@) == lex_lt_from(a@, b@, i as int),
        decreases bn - i,
    {
        if i >= bn {
            return false;
        }
        if i >= an {
            return true;
        }
        let ac = a.get_char(i) as u32;
        let bc = b.get_char(i) as u32;
        if ac != bc {
            return ac < bc;
        }
        i = i + 1;
    }
}

/// The dependency pins applied before building with an old toolchain:
/// with a toolchain version ordering below `1.31.0`, a fixed list of
/// (package, version) pins known to keep old toolchains building; with a
/// newer toolchain, none.
pub fn deps_to_pin(version: &String) -> (r: Vec<(String, String)>)
    ensures
        !lex_lt(version@, "1.31.0"@) ==> r@.len() == 0,
        lex_lt(version@, "1.31.0"@) ==> {
            &&& r@.len() == 5
            &&& r@[0].0@ == "byteorder"@ && r@[0].1@ == "1.3.4"@
            &&& r@[1].0@ == "cc"@ && r@[1].1@ == "1.0.41"@
            &&& r@[2].0@ == "serde_json"@ && r@[2].1@ == "1.0.39"@
            &&& r@[3].0@ == "serde"@ && r@[3].1@ == "1.0.98"@
            &&& r@[4].0@ == "serde_derive"@ && r@[4].1@ == "1.0.98"@
        },
{
    let mut r: Vec<(String, String)> = Vec::new();
    if str_lex_lt(version.as_str(), "1.31.0") {
        r.push((String::from_str("byteorder"), String::from_str("1.3.4")));
        r.push((String::from_str("cc"), String::from_str("1.0.41")));
        r.push((String::from_str("serde_json"), String::from_str("1.0.39")));
        r.push((String::from_str("serde"), String::from_str("1.0.98")));
        r.push((String::from_str("serde_derive"), String::from_str("1.0.98")));
    }
    r
}

/// The command that pins one dependency to one version.
pub fn pin_command(version: &String, dep: &String, dep_version: &String) -> (c: CommandSpec)
    ensures
        c.program@ == "cargo"@,
        views_of(c.args@) == seq![
            plus_version(version@),
            "update"@,
            "-p"@,
            dep@,
            "--precise"@,
            dep_version@,
        ],
        c.env@.len() == 0,
        c.cwd_suffix is None,
{
    let mut args: Vec<String> = Vec::new();
    args.push(plus_version_string(version));
    args.push(String::from_str("update"));
    args.push(String::from_str("-p"));
    args.push(dep.clone());
    args.push(String::from_str("--precise"));
    args.push(dep_version.clone());
    proof {
        assert(views_of(args@) =~= seq![
            plus_version(version@),
            "update"@,
            "-p"@,
            dep@,
            "--precise"@,
            dep_version@,
        ]);
    }
    CommandSpec {
        program: String::from_str("cargo"),
        args,
        env: Vec::new(),
        cwd_suffix: None,
    }
}

/// The command that generates a lockfile (pinning is gated on it
/// succeeding), and the plain dependency-update command.
pub fn lockfile_command(version: &String) -> (c: CommandSpec)
    ensures
        c.program@ == "cargo"@,
        views_of(c.args@) == seq![plus_version(version@), "generate-lockfile"@],
        c.env@.len() == 0,
        c.cwd_suffix is None,
{
    let mut args: Vec<String> = Vec::new();
    args.push(plus_version_string(version));
    args.push(String::from_str("generate-lockfile"));
    proof {
        assert(views_of(args@) =~= seq![plus_version(version@), "generate-lockfile"@]);
    }
    CommandSpec {
        program: String::from_str("cargo"),
        args,
        env: Vec::new(),
        cwd_suffix: None,
    }
}

/// The command that updates the dependency graph before pinning.
pub fn update_command(version: &String) -> (c: CommandSpec)
    ensures
        c.program@ == "cargo"@,
        views_of(c.args@) == seq![plus_version(version@), "update"@],
        c.env@.len() == 0,
        c.cwd_suffix is None,
{
    let mut args: Vec<String> = Vec::new();
    args.push(plus_version_string(version));
    args.push(String::from_str("update"));
    proof {
        assert(views_of(args@) =~= seq![plus_version(version@), "update"@]);
    }
    CommandSpec {
        program: String::from_str("cargo"),
        args,
        env: Vec::new(),
        cwd_suffix: None,
    }
}

/// The first line of a command's captured output: what the version query
/// reports. `None` exactly when the output is empty (the caller then
/// raises an error carrying the error stream). A final carriage return is
/// stripped, as line-based reading strips it.
pub open spec fn first_nl(s: Seq<char>, i: int) -> int
    decreases s.len() - i,
{
    if i < 0 || i >= s.len() {
        s.len() as int
    } else if s[i] == '\n' {
        i
    } else {
        first_nl(s, i + 1)
    }
}

/// The first line of `s`: everything before the first newline, with one
/// trailing carriage return stripped.
pub open spec fn spec_first_line(s: Seq<char>) -> Seq<char> {
    let line = s.subrange(0, first_nl(s, 0));
    if line.len() > 0 && line[line.len() - 1] == '\r' {
        line.drop_last()
    } else {
        line
    }
}

/// Extract the first line of captured output, or `None` when there was
/// none at all.
pub fn first_line(s: &str) -> (r: Option<String>)
    ensures
        r is Some <==> s@.len() > 0,
        r matches Some(line) ==> line@ == spec_first_line(s@),
{
    let n: usize = s.unicode_len();
    if n == 0 {
        return None;
    }
    let mut i: usize = 0;
    while i < n && s.get_char(i) != '\n'
        invariant
            0 <= i <= n == s@.len(),
            first_nl(s@, 0) == first_nl(s@, i as int),
        decreases n - i,
    {
        i = i + 1;
    }
    proof {
        assert(first_nl(s@, 0) == i as int);
    }
    let mut end: usize = i;
    if end > 0 && s.get_char(end - 1) == '\r' {
        end = end - 1;
    }
    let line = s.substring_char(0, end).to_owned();
    proof {
        assert(line@ =~= spec_first_line(s@));
    }
    Some(line)
}

} // verus!

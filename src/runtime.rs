//! Decisions around the external runtime: whether a cached install can be
//! reused, the install command's arguments, and the launch arguments.
use vstd::prelude::*;
use vstd::string::{StrSliceExecFns, StringExecFns};
use crate::message::ServerConfig;

verus! {

/// How long, in seconds, an install is reused without being refreshed.
pub const CACHE_SECS: u64 = 43200;

/// The store application id the installer fetches.
pub open spec fn app_update_arg() -> Seq<char> {
    "+app_update 233780"@
}

/// The lower-case form of `s`.
pub uninterp spec fn lower_of(s: Seq<char>) -> Seq<char>;

/// Relies on str::to_lowercase: the result depends on the characters alone.
#[verifier::external_body]
fn lowercase(s: &str) -> (r: String)
    ensures
        r@ == lower_of(s@),
{
    s.to_lowercase()
}

/// Where the runtime of a channel is installed.
pub open spec fn install_dir_text(branch: Seq<char>) -> Seq<char> {
    "/opt/servers/"@ + lower_of(branch)
}

/// Where the runtime of the configured channel is installed.
pub fn install_dir(config: &ServerConfig) -> (r: String)
    ensures
        r@ == install_dir_text(config.branch@),
{
    let mut r = String::from_str("/opt/servers/");
    let low = lowercase(config.branch.as_str());
    r.append(low.as_str());
    r
}

/// Whether an install of this age (absent when there is none, or its age
/// cannot be read) is reused.
pub open spec fn is_fresh(age_secs: Option<u64>) -> bool {
    age_secs is Some && age_secs->0 < CACHE_SECS
}

/// Whether an install of this age is reused.
pub fn cache_is_fresh(age_secs: Option<u64>) -> (r: bool)
    ensures
        r == is_fresh(age_secs),
{
    match age_secs {
        Some(a) => a < CACHE_SECS,
        None => false,
    }
}

/// The installer's arguments for the configured channel into `dir`.
pub open spec fn install_args_text(config: ServerConfig, dir: Seq<char>, user: Seq<char>, pass: Seq<char>) -> Seq<Seq<char>> {
    seq!["+login "@ + user + " "@ + pass, "+force_install_dir"@, dir, app_update_arg()]
        + (if config.branch@ != "public"@ {
        seq!["-beta"@, config.branch@]
    } else {
        Seq::empty()
    }) + (if config.branch_password@.len() > 0 {
        seq!["-betapassword"@, config.branch_password@]
    } else {
        Seq::empty()
    }) + seq!["validate"@, "+quit"@]
}

/// What to do to have a runtime for a session.
pub enum InstallPlan {
    /// Use the install at this path as it is.
    Reuse(String),
    /// Run the installer with these arguments; it installs into `path`.
    Download { path: String, args: Vec<String> },
}

/// The views of a list of strings.
pub open spec fn texts(v: Seq<String>) -> Seq<Seq<char>> {
    v.map_values(|s: String| s@)
}

/// Whether `r` is the plan owed for this configuration, install age and
/// installer credentials.
pub open spec fn install_plan_ok(
    config: ServerConfig,
    age_secs: Option<u64>,
    user: Option<String>,
    pass: Option<String>,
    r: Result<InstallPlan, String>,
) -> bool {
    let dir = install_dir_text(config.branch@);
    if is_fresh(age_secs) {
        r is Ok && r->Ok_0 is Reuse && r->Ok_0->Reuse_0@ == dir
    } else if user is None {
        r is Err && r->Err_0@ == "STEAM_USER not set"@
    } else if pass is None {
        r is Err && r->Err_0@ == "STEAM_PASS not set"@
    } else {
        &&& r is Ok
        &&& r->Ok_0 is Download
        &&& r->Ok_0->Download_path@ == dir
        &&& texts(r->Ok_0->Download_args@) == install_args_text(config, dir, user->0@, pass->0@)
    }
}

fn push_string(v: &mut Vec<String>, s: String)
    ensures
        texts(final(v)@) == texts(old(v)@).push(s@),
{
    let ghost t = s@;
    v.push(s);
    assert(texts(final(v)@) =~= texts(old(v)@).push(t));
}

fn push_text(v: &mut Vec<String>, s: &str)
    ensures
        texts(final(v)@) == texts(old(v)@).push(s@),
{
    v.push(String::from_str(s));
    assert(texts(final(v)@) =~= texts(old(v)@).push(s@));
}

/// Decides how to obtain the runtime for `config`: reuse an install younger
/// than `CACHE_SECS`, or else run the installer with the credentials, which
/// must both be present.
pub fn plan_install(
    config: &ServerConfig,
    age_secs: Option<u64>,
    user: Option<String>,
    pass: Option<String>,
) -> (r: Result<InstallPlan, String>)
    ensures
        install_plan_ok(*config, age_secs, user, pass, r),
{
    let dir = install_dir(config);
    if cache_is_fresh(age_secs) {
        return Ok(InstallPlan::Reuse(dir));
    }
    let user = match user {
        Some(u) => u,
        None => return Err(String::from_str("STEAM_USER not set")),
    };
    let pass = match pass {
        Some(p) => p,
        None => return Err(String::from_str("STEAM_PASS not set")),
    };
    let mut login = String::from_str("+login ");
    login.append(user.as_str());
    login.append(" ");
    login.append(pass.as_str());
    let mut args: Vec<String> = Vec::new();
    push_string(&mut args, login);
    push_text(&mut args, "+force_install_dir");
    push_text(&mut args, dir.as_str());
    push_text(&mut args, "+app_update 233780");
    let public = String::from_str("public");
    if config.branch != public {
        push_text(&mut args, "-beta");
        push_text(&mut args, config.branch.as_str());
    }
    if config.branch_password.as_str().unicode_len() > 0 {
        push_text(&mut args, "-betapassword");
        push_text(&mut args, config.branch_password.as_str());
    }
    push_text(&mut args, "validate");
    push_text(&mut args, "+quit");
    proof {
        assert(texts(args@) =~= install_args_text(*config, dir@, user@, pass@));
    }
    Ok(InstallPlan::Download { path: dir, args })
}


/// The install path a plan leads to.
pub open spec fn plan_path(p: InstallPlan) -> Seq<char> {
    match p {
        InstallPlan::Reuse(path) => path@,
        InstallPlan::Download { path, .. } => path@,
    }
}

/// Installing is idempotent within the cache window: after a first plan for
/// a channel succeeds, whether it reused or downloaded, a second request for
/// the same channel while the install is younger than `CACHE_SECS` reuses
/// the very same path and runs no installer.
pub proof fn lemma_install_cache_reused(
    first: ServerConfig,
    first_age: Option<u64>,
    user1: Option<String>,
    pass1: Option<String>,
    r1: Result<InstallPlan, String>,
    second: ServerConfig,
    second_age: u64,
    user2: Option<String>,
    pass2: Option<String>,
    r2: Result<InstallPlan, String>,
)
    requires
        install_plan_ok(first, first_age, user1, pass1, r1),
        r1 is Ok,
        second.branch@ == first.branch@,
        second_age < CACHE_SECS,
        install_plan_ok(second, Some(second_age), user2, pass2, r2),
    ensures
        r2 is Ok,
        r2->Ok_0 is Reuse,
        plan_path(r2->Ok_0) == plan_path(r1->Ok_0),
{
}

/// How the runtime ends up for a download: the install path when the
/// installer succeeded, else an error carrying the installer's report.
pub fn install_outcome(path: String, succeeded: bool, report: &str) -> (r: Result<String, String>)
    ensures
        succeeded ==> r == Ok::<String, String>(path),
        !succeeded ==> r is Err && r->Err_0@ == "Failed to install server: "@ + report@,
{
    if succeeded {
        Ok(path)
    } else {
        let mut e = String::from_str("Failed to install server: ");
        e.append(report);
        Err(e)
    }
}

/// The runtime's arguments: a session name, an empty world, no frame-rate
/// cap to speak of, a profile directory, the callback module, and the
/// module of the built archive under `archive_dir`.
pub open spec fn launch_args_text(name: Seq<char>, archive_dir: Seq<char>) -> Seq<Seq<char>> {
    seq![
        "-name="@ + name,
        "-world=empty"@,
        "-limitFPS=1000"@,
        "-profiles=\"/tmp/arma_profiles\""@,
        "-mod=\"../../@tab\""@,
        "\"-mod=../../.."@ + archive_dir + "\""@,
    ]
}

/// The runtime's arguments for session `name` and the archive under
/// `archive_dir`.
pub fn launch_args(name: &str, archive_dir: &str) -> (r: Vec<String>)
    ensures
        texts(r@) == launch_args_text(name@, archive_dir@),
{
    let mut first = String::from_str("-name=");
    first.append(name);
    let mut last = String::from_str("\"-mod=../../..");
    last.append(archive_dir);
    last.append("\"");
    let mut r: Vec<String> = Vec::new();
    push_string(&mut r, first);
    push_text(&mut r, "-world=empty");
    push_text(&mut r, "-limitFPS=1000");
    push_text(&mut r, "-profiles=\"/tmp/arma_profiles\"");
    push_text(&mut r, "-mod=\"../../@tab\"");
    push_string(&mut r, last);
    assert(texts(r@) =~= launch_args_text(name@, archive_dir@));
    r
}

} // verus!

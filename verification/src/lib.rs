//! Typed accessors for the environment variables that a snap's runtime
//! exports. Each accessor takes an [`Env`] snapshot and returns the variable's
//! value as an optional string, path, or path list; a missing variable is the
//! ordinary `None` outcome, never an error. The snapshot is handed in by the
//! caller, so every accessor is a pure function of its contents.

use vstd::prelude::*;

mod environ;
mod paths;

pub use environ::Env;
pub use environ::env_lookup;
pub use environ::has_snap_prefix;
pub use environ::lemma_lookup_first;
pub use environ::lemma_lookup_none;
pub use environ::lemma_snap_entries_complete;
pub use environ::lemma_snap_entries_empty;
pub use environ::lemma_snap_entries_preserve_lookup;
pub use environ::lemma_snap_entries_sound;
pub use environ::spec_snap_entries;
pub use paths::SnapPath;
pub use paths::colon_free;
pub use paths::lemma_split_paths_wf;
pub use paths::spec_split_paths;
pub use paths::split_colon_paths;

verus! {

/// Whether the snapshot says we run inside a snap: `SNAP` is set.
pub open spec fn spec_in_snap(e: Seq<(Seq<char>, Seq<char>)>) -> bool {
    env_lookup(e, "SNAP"@) is Some
}

/// The real home directory the snapshot reports: the value of
/// `SNAP_REAL_HOME`, but only when `SNAP` is set as well.
pub open spec fn spec_snap_home(e: Seq<(Seq<char>, Seq<char>)>) -> Option<Seq<char>> {
    if spec_in_snap(e) {
        env_lookup(e, "SNAP_REAL_HOME"@)
    } else {
        None
    }
}

/// Whether we are running within a snap.
pub fn in_snap(env: &Env) -> (r: bool)
    ensures
        r == spec_in_snap(env@),
{
    snap(env).is_some()
}

/// Whether we are running within a snap, and if so the real home directory
/// for the current user. The home is reported only inside a snap, even when
/// `SNAP_REAL_HOME` happens to be set outside one.
pub fn check_snap_home(env: &Env) -> (r: (bool, Option<SnapPath>))
    ensures
        r.0 == spec_in_snap(env@),
        r.1.deep_view() == spec_snap_home(env@),
{
    if in_snap(env) {
        (true, snap_real_home(env))
    } else {
        (false, None)
    }
}

/// Directory where the snap is mounted, from `SNAP`.
pub fn snap(env: &Env) -> (r: Option<String>)
    ensures
        r.deep_view() == env_lookup(env@, "SNAP"@),
{
    env.get("SNAP")
}

/// CPU architecture of the running system, from `SNAP_ARCH`.
pub fn snap_arch(env: &Env) -> (r: Option<String>)
    ensures
        r.deep_view() == env_lookup(env@, "SNAP_ARCH"@),
{
    env.get("SNAP_ARCH")
}

/// Directory for system data common across revisions, from `SNAP_COMMON`.
pub fn snap_common(env: &Env) -> (r: Option<SnapPath>)
    ensures
        r.deep_view() == env_lookup(env@, "SNAP_COMMON"@),
{
    match env.get("SNAP_COMMON") {
        Some(value) => Some(SnapPath::from_string(value)),
        None => None,
    }
}

/// Directory for system data of the snap's revision, from `SNAP_DATA`.
pub fn snap_data(env: &Env) -> (r: Option<SnapPath>)
    ensures
        r.deep_view() == env_lookup(env@, "SNAP_DATA"@),
{
    match env.get("SNAP_DATA") {
        Some(value) => Some(SnapPath::from_string(value)),
        None => None,
    }
}

/// Name of the snap instance, including any instance key, from
/// `SNAP_INSTANCE_NAME`.
pub fn snap_instance_name(env: &Env) -> (r: Option<String>)
    ensures
        r.deep_view() == env_lookup(env@, "SNAP_INSTANCE_NAME"@),
{
    env.get("SNAP_INSTANCE_NAME")
}

/// Instance key set during installation, from `SNAP_INSTANCE_KEY`.
pub fn snap_instance_key(env: &Env) -> (r: Option<String>)
    ensures
        r.deep_view() == env_lookup(env@, "SNAP_INSTANCE_KEY"@),
{
    env.get("SNAP_INSTANCE_KEY")
}

/// Directories with additional system libraries, from `SNAP_LIBRARY_PATH`.
/// The raw value is a colon-separated list; empty segments are dropped and
/// the remaining segments become paths in order of appearance.
pub fn snap_library_path(env: &Env) -> (r: Option<Vec<SnapPath>>)
    ensures
        r.deep_view() == match env_lookup(env@, "SNAP_LIBRARY_PATH"@) {
            Some(v) => Some(spec_split_paths(v)),
            None => None,
        },
{
    match env.get("SNAP_LIBRARY_PATH") {
        Some(value) => Some(split_colon_paths(value.as_str())),
        None => None,
    }
}

/// Name of the snap, from `SNAP_NAME`.
pub fn snap_name(env: &Env) -> (r: Option<String>)
    ensures
        r.deep_view() == env_lookup(env@, "SNAP_NAME"@),
{
    env.get("SNAP_NAME")
}

/// The home directory before any snap-induced remapping, from
/// `SNAP_REAL_HOME`.
pub fn snap_real_home(env: &Env) -> (r: Option<SnapPath>)
    ensures
        r.deep_view() == env_lookup(env@, "SNAP_REAL_HOME"@),
{
    match env.get("SNAP_REAL_HOME") {
        Some(value) => Some(SnapPath::from_string(value)),
        None => None,
    }
}

/// Revision of the snap, from `SNAP_REVISION`. The value is passed through
/// unchecked: a store revision is numeric, a local one is `x`-prefixed.
pub fn snap_revision(env: &Env) -> (r: Option<String>)
    ensures
        r.deep_view() == env_lookup(env@, "SNAP_REVISION"@),
{
    env.get("SNAP_REVISION")
}

/// Directory for files that survive a factory reset, from `SNAP_SAVE_DATA`.
pub fn snap_save_data(env: &Env) -> (r: Option<SnapPath>)
    ensures
        r.deep_view() == env_lookup(env@, "SNAP_SAVE_DATA"@),
{
    match env.get("SNAP_SAVE_DATA") {
        Some(value) => Some(SnapPath::from_string(value)),
        None => None,
    }
}

/// Directory for user data common across revisions, from `SNAP_USER_COMMON`.
pub fn snap_user_common(env: &Env) -> (r: Option<SnapPath>)
    ensures
        r.deep_view() == env_lookup(env@, "SNAP_USER_COMMON"@),
{
    match env.get("SNAP_USER_COMMON") {
        Some(value) => Some(SnapPath::from_string(value)),
        None => None,
    }
}

/// Directory for user data of the snap's revision, from `SNAP_USER_DATA`.
pub fn snap_user_data(env: &Env) -> (r: Option<SnapPath>)
    ensures
        r.deep_view() == env_lookup(env@, "SNAP_USER_DATA"@),
{
    match env.get("SNAP_USER_DATA") {
        Some(value) => Some(SnapPath::from_string(value)),
        None => None,
    }
}

/// Version string of the snap, from `SNAP_VERSION`.
pub fn snap_version(env: &Env) -> (r: Option<String>)
    ensures
        r.deep_view() == env_lookup(env@, "SNAP_VERSION"@),
{
    env.get("SNAP_VERSION")
}

/// All environment entries whose key begins with `SNAP`, or `None` when
/// there is no such entry.
pub fn snap_env(env: &Env) -> (r: Option<Env>)
    ensures
        (match r {
            Some(m) => m@ == spec_snap_entries(env@) && m@.len() > 0,
            None => spec_snap_entries(env@).len() == 0,
        }),
        (r is None) <==> (forall|i: int| 0 <= i < env@.len() ==> !has_snap_prefix(env@[i].0)),
{
    let matching = env.snap_entries();
    proof {
        lemma_snap_entries_empty(env@);
    }
    if matching.len() == 0 {
        None
    } else {
        Some(matching)
    }
}

/// Whether we are in a snap depends on the `SNAP` entry alone: two
/// snapshots that bind `SNAP` alike agree, whatever else they hold.
pub proof fn lemma_in_snap_only_reads_snap(
    e1: Seq<(Seq<char>, Seq<char>)>,
    e2: Seq<(Seq<char>, Seq<char>)>,
)
    requires
        env_lookup(e1, "SNAP"@) == env_lookup(e2, "SNAP"@),
    ensures
        spec_in_snap(e1) == spec_in_snap(e2),
{
}

/// Outside a snap no home directory is reported, even when the snapshot
/// binds `SNAP_REAL_HOME`.
pub proof fn lemma_no_home_outside_snap(e: Seq<(Seq<char>, Seq<char>)>)
    requires
        env_lookup(e, "SNAP"@) is None,
    ensures
        !spec_in_snap(e),
        spec_snap_home(e) is None,
{
}

/// Inside a snap whose snapshot binds `SNAP_REAL_HOME` to `h`, the home
/// check reports exactly `h`.
pub proof fn lemma_home_inside_snap(e: Seq<(Seq<char>, Seq<char>)>, h: Seq<char>)
    requires
        env_lookup(e, "SNAP"@) is Some,
        env_lookup(e, "SNAP_REAL_HOME"@) == Some(h),
    ensures
        spec_in_snap(e),
        spec_snap_home(e) == Some(h),
{
}

/// Accessors are idempotent: every accessor's contract equates its result
/// with a function of the snapshot's view, so any two results obtained from
/// the same snapshot are equal.
pub proof fn lemma_lookup_idempotent(
    e: Seq<(Seq<char>, Seq<char>)>,
    name: Seq<char>,
    r1: Option<Seq<char>>,
    r2: Option<Seq<char>>,
)
    requires
        r1 == env_lookup(e, name),
        r2 == env_lookup(e, name),
    ensures
        r1 == r2,
{
}

} // verus!

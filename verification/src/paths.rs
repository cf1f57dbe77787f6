//! Locating the sidecar helper executable.
//!
//! Paths are carried as raw bytes. The caller describes the environment —
//! the override value, whether the platform judges it absolute, the working
//! directory and the running executable's directory — and then reports which
//! candidate paths exist; the ordering and fallback rules live here.
//! Resolution has no side effects and is safe to repeat: nothing is cached,
//! since the environment may change between runs.

use vstd::prelude::*;

use crate::util::copy_bytes;

verus! {

/// The helper executable's expected file name, "HardwareMonitorCli.exe".
pub open spec fn sidecar_exe_name_seq() -> Seq<u8> {
    seq![72u8, 97u8, 114u8, 100u8, 119u8, 97u8, 114u8, 101u8, 77u8, 111u8, 110u8, 105u8, 116u8,
        111u8, 114u8, 67u8, 108u8, 105u8, 46u8, 101u8, 120u8, 101u8]
}

/// The conventional subdirectory searched next to the executable, "sidecar".
pub open spec fn sidecar_dir_name_seq() -> Seq<u8> {
    seq![115u8, 105u8, 100u8, 101u8, 99u8, 97u8, 114u8]
}

/// The helper executable's expected file name as a byte buffer.
pub fn sidecar_exe_name() -> (r: Vec<u8>)
    ensures
        r@ =~= sidecar_exe_name_seq(),
{
    let r: Vec<u8> = vec![72u8, 97u8, 114u8, 100u8, 119u8, 97u8, 114u8, 101u8, 77u8, 111u8, 110u8,
        105u8, 116u8, 111u8, 114u8, 67u8, 108u8, 105u8, 46u8, 101u8, 120u8, 101u8];
    assert(r@ =~= sidecar_exe_name_seq());
    r
}

/// Joining a directory and a name with the platform separator; a trailing
/// separator on the directory is not doubled.
pub open spec fn spec_path_join(dir: Seq<u8>, name: Seq<u8>, sep: u8) -> Seq<u8> {
    if dir.len() > 0 && dir.last() == sep {
        dir + name
    } else {
        dir + seq![sep] + name
    }
}

/// Joins a directory and a name with the platform separator.
pub fn path_join(dir: &Vec<u8>, name: &Vec<u8>, sep: u8) -> (r: Vec<u8>)
    ensures
        r@ =~= spec_path_join(dir@, name@, sep),
{
    let mut r = copy_bytes(dir);
    if !(dir.len() > 0 && dir[dir.len() - 1] == sep) {
        r.push(sep);
    }
    let mut i: usize = 0;
    let ghost base = r@;
    while i < name.len()
        invariant
            i <= name.len(),
            r@ =~= base + name@.take(i as int),
        decreases name.len() - i,
    {
        r.push(name[i]);
        i += 1;
    }
    assert(name@.take(name.len() as int) =~= name@);
    r
}

/// How the surrounding process describes the environment to the resolver.
pub struct PathEnv {
    /// The override value from the environment, when it is set.
    pub override_path: Option<Vec<u8>>,
    /// Whether the platform judges the override value an absolute path.
    pub override_is_absolute: bool,
    /// The process working directory, when it could be read.
    pub cwd: Option<Vec<u8>>,
    /// The directory containing the running executable, when known.
    pub exe_dir: Option<Vec<u8>>,
    /// The platform's path separator byte.
    pub separator: u8,
}

/// The candidate paths tried for a given environment, in resolution order.
/// With an override set, only paths derived from the override are tried —
/// the raw value when absolute, else the value resolved against the working
/// directory and then against the executable's directory. Without one, the
/// helper's name is tried next to the executable and then inside the
/// conventional subdirectory.
pub open spec fn spec_sidecar_candidates(env: PathEnv) -> Seq<Seq<u8>> {
    match env.override_path {
        Some(raw) => {
            if env.override_is_absolute {
                seq![raw@]
            } else {
                let from_cwd: Seq<Seq<u8>> = match env.cwd {
                    Some(d) => seq![spec_path_join(d@, raw@, env.separator)],
                    None => seq![],
                };
                let from_exe: Seq<Seq<u8>> = match env.exe_dir {
                    Some(d) => seq![spec_path_join(d@, raw@, env.separator)],
                    None => seq![],
                };
                from_cwd + from_exe
            }
        },
        None => match env.exe_dir {
            Some(d) => seq![
                spec_path_join(d@, sidecar_exe_name_seq(), env.separator),
                spec_path_join(
                    spec_path_join(d@, sidecar_dir_name_seq(), env.separator),
                    sidecar_exe_name_seq(),
                    env.separator,
                ),
            ],
            None => seq![],
        },
    }
}

/// The views of a list of byte paths.
pub open spec fn path_views(paths: Seq<Vec<u8>>) -> Seq<Seq<u8>> {
    paths.map_values(|p: Vec<u8>| p@)
}

/// Builds the candidate paths for the environment, in resolution order.
pub fn sidecar_candidates(env: &PathEnv) -> (r: Vec<Vec<u8>>)
    ensures
        path_views(r@) =~= spec_sidecar_candidates(*env),
{
    let mut r: Vec<Vec<u8>> = Vec::new();
    match &env.override_path {
        Some(raw) => {
            if env.override_is_absolute {
                r.push(copy_bytes(raw));
            } else {
                if let Some(d) = &env.cwd {
                    r.push(path_join(d, raw, env.separator));
                }
                if let Some(d) = &env.exe_dir {
                    r.push(path_join(d, raw, env.separator));
                }
            }
        },
        None => {
            if let Some(d) = &env.exe_dir {
                let name = sidecar_exe_name();
                let sub: Vec<u8> = vec![115u8, 105u8, 100u8, 101u8, 99u8, 97u8, 114u8];
                assert(sub@ =~= sidecar_dir_name_seq());
                r.push(path_join(d, &name, env.separator));
                let subdir = path_join(d, &sub, env.separator);
                r.push(path_join(&subdir, &name, env.separator));
            }
        },
    }
    assert(path_views(r@) =~= spec_sidecar_candidates(*env));
    r
}

/// Resolution failed: none of the attempted paths exists.
#[derive(Debug)]
pub struct PathNotFound {
    /// Every path that was tried, in the order it was tried.
    pub attempted: Vec<Vec<u8>>,
}

/// The index of the first existing candidate, if any exists.
pub open spec fn spec_first_existing(exists: Seq<bool>) -> Option<int> {
    if exists.contains(true) {
        Some(first_true_index(exists))
    } else {
        None
    }
}

/// The smallest index holding true.
pub open spec fn first_true_index(exists: Seq<bool>) -> int {
    choose|i: int| 0 <= i < exists.len() && exists[i] && forall|k: int| 0 <= k < i ==> !exists[k]
}

/// Picks the first candidate that exists; the first hit wins. When none
/// exists the error carries every attempted path, and with an empty
/// candidate list the result is always the error.
pub fn find_sidecar_path(candidates: Vec<Vec<u8>>, exists: &Vec<bool>) -> (r: Result<
    Vec<u8>,
    PathNotFound,
>)
    requires
        exists@.len() == candidates@.len(),
    ensures
        (r is Ok) == (exists|i: int| 0 <= i < exists@.len() && exists@[i]),
        r matches Ok(p) ==> exists|i: int|
            0 <= i < exists@.len() && exists@[i] && (forall|k: int| 0 <= k < i ==> !exists@[k])
                && p@ == candidates@[i]@,
        r matches Err(e) ==> path_views(e.attempted@) == path_views(candidates@),
{
    let mut i: usize = 0;
    while i < candidates.len()
        invariant
            exists@.len() == candidates@.len(),
            i <= candidates.len(),
            forall|k: int| 0 <= k < i ==> !exists@[k],
        decreases candidates.len() - i,
    {
        if exists[i] {
            let p = copy_bytes(&candidates[i]);
            assert(exists@[i as int] && p@ == candidates@[i as int]@);
            return Ok(p);
        }
        i += 1;
    }
    Err(PathNotFound { attempted: candidates })
}

/// The path is one of those an override environment may try: the raw value
/// itself or the value joined to the working or executable directory.
pub open spec fn is_override_candidate(env: PathEnv, p: Seq<u8>) -> bool {
    env.override_path matches Some(raw) && {
        ||| p == raw@
        ||| (env.cwd matches Some(d) && p == spec_path_join(d@, raw@, env.separator))
        ||| (env.exe_dir matches Some(d) && p == spec_path_join(d@, raw@, env.separator))
    }
}

/// With an override set, every candidate is derived from the override, so a
/// missing override file can never be silently answered from the
/// conventional locations; and when no candidate exists, resolution yields
/// no path at all.
pub proof fn lemma_override_never_falls_back(env: PathEnv, exists: Seq<bool>)
    requires
        env.override_path is Some,
        exists.len() == spec_sidecar_candidates(env).len(),
        forall|i: int| 0 <= i < exists.len() ==> !exists[i],
    ensures
        spec_first_existing(exists) is None,
        forall|i: int|
            0 <= i < spec_sidecar_candidates(env).len() ==> is_override_candidate(
                env,
                spec_sidecar_candidates(env)[i],
            ),
{
    if exists.contains(true) {
        let i = exists.index_of(true);
        assert(exists[i]);
    }
}

} // verus!

//! Wiping a device's on-disk state without starting it.
//!
//! The data directory is resolved through the device's indirection
//! file when one exists (`<id>.ini`, `path=` line), else by the
//! default naming convention; a fixed allow-list of state files is
//! then removed. Wiping a directory that holds none of them is a
//! successful no-op, not an error.

use vstd::prelude::*;
use vstd::string::*;
use crate::model::{HostOs, LifecycleError};
use crate::tools::{join_path, sep_char};
use crate::text::{after_prefix, has_prefix, lines_spec, split_lines, starts_with, trim, trim_spec, views};

verus! {

/// The data-directory path an indirection file names: the text after
/// `path=` on the first line that starts with it, trimmed.
pub open spec fn ini_path_from(lines: Seq<Seq<char>>) -> Option<Seq<char>>
    decreases lines.len(),
{
    if lines.len() == 0 {
        None
    } else if has_prefix(lines[0], "path="@) {
        Some(trim_spec(lines[0].skip("path="@.len() as int)))
    } else {
        ini_path_from(lines.skip(1))
    }
}

proof fn lemma_ini_path_step(lines: Seq<Seq<char>>, j: int)
    requires
        0 <= j <= lines.len(),
        forall|k: int| 0 <= k < j ==> !has_prefix(#[trigger] lines[k], "path="@),
    ensures
        ini_path_from(lines) == (if j < lines.len() {
            ini_path_from(lines.skip(j))
        } else {
            None::<Seq<char>>
        }),
    decreases j,
{
    if j == 0 {
        assert(lines.skip(0) =~= lines);
    } else {
        assert forall|k: int|
            0 <= k < j - 1 implies !has_prefix(#[trigger] lines.skip(1)[k], "path="@) by {
            assert(lines.skip(1)[k] == lines[k + 1]);
        }
        lemma_ini_path_step(lines.skip(1), j - 1);
        if j < lines.len() {
            assert(lines.skip(1).skip(j - 1) =~= lines.skip(j));
        }
    }
}

/// Reads the data-directory path out of an indirection file's text.
pub fn parse_ini_path(ini: &str) -> (r: Option<String>)
    ensures
        match r {
            Some(p) => ini_path_from(lines_spec(ini@)) == Some(p@),
            None => ini_path_from(lines_spec(ini@)) is None,
        },
{
    let lines = split_lines(ini);
    let lv = Ghost(views(lines@));
    let mut i: usize = 0;
    while i < lines.len()
        invariant
            0 <= i <= lines@.len(),
            lv@ == views(lines@),
            lv@ == lines_spec(ini@),
            forall|k: int| 0 <= k < i ==> !has_prefix(#[trigger] lv@[k], "path="@),
        decreases lines@.len() - i,
    {
        let line = lines[i].as_str();
        if starts_with(line, "path=") {
            let rest = after_prefix(line, "path=");
            let p = trim(rest.as_str());
            proof {
                lemma_ini_path_step(lv@, i as int);
                assert(lv@.skip(i as int)[0] == lv@[i as int]);
            }
            return Some(p);
        }
        i = i + 1;
    }
    proof {
        lemma_ini_path_step(lv@, lines@.len() as int);
    }
    None
}

/// The data directory a wipe targets: the path the indirection file
/// names when it exists and names one, else `<avd home>/<id>.avd`.
pub open spec fn avd_dir_spec(
    avd_home: Seq<char>,
    id: Seq<char>,
    ini: Option<Seq<char>>,
    os: HostOs,
) -> Seq<char> {
    match ini {
        Some(text) => match ini_path_from(lines_spec(text)) {
            Some(p) => p,
            None => avd_home + seq![sep_char(os)] + id + ".avd"@,
        },
        None => avd_home + seq![sep_char(os)] + id + ".avd"@,
    }
}

/// Resolves the data directory for a wipe; `ini` is the text of the
/// device's indirection file, when one exists.
pub fn resolve_avd_dir(avd_home: &str, id: &str, ini: Option<&str>, os: HostOs) -> (r: String)
    ensures
        r@ == avd_dir_spec(
            avd_home@,
            id@,
            match ini {
                Some(t) => Some(t@),
                None => None,
            },
            os,
        ),
{
    if let Some(text) = ini {
        if let Some(p) = parse_ini_path(text) {
            return p;
        }
    }
    let mut name = id.to_owned();
    name.append(".avd");
    join_path(avd_home, name.as_str(), os)
}

/// The five pieces of device state a wipe removes: the user-data
/// image and its copy-on-write overlay, the cache image and its
/// overlay, and the snapshot directory.
pub open spec fn wipe_targets_spec() -> Seq<Seq<char>> {
    seq![
        "userdata-qemu.img"@,
        "userdata-qemu.img.qcow2"@,
        "cache.img"@,
        "cache.img.qcow2"@,
        "snapshots"@,
    ]
}

/// The allow-list of state files a wipe removes, in removal order.
pub fn wipe_targets() -> (r: Vec<String>)
    ensures
        views(r@) == wipe_targets_spec(),
{
    let mut v: Vec<String> = Vec::new();
    v.push("userdata-qemu.img".to_owned());
    v.push("userdata-qemu.img.qcow2".to_owned());
    v.push("cache.img".to_owned());
    v.push("cache.img.qcow2".to_owned());
    v.push("snapshots".to_owned());
    proof {
        assert(views(v@) =~= wipe_targets_spec());
    }
    v
}

/// What happened to one wipe target: whether it was present, and
/// whether its removal went through. An absent target is recorded
/// as not removed, with empty error text.
pub struct WipeAttempt {
    pub name: String,
    pub present: bool,
    pub removed: bool,
    pub error: String,
}

/// The report of a wipe over its attempts, in order: the first
/// present target whose removal failed aborts the wipe with that
/// failure; otherwise the count of removed targets. No target
/// present means a count of zero, still a success.
pub open spec fn wipe_outcome(attempts: Seq<WipeAttempt>) -> Result<int, Seq<char>>
    decreases attempts.len(),
{
    if attempts.len() == 0 {
        Ok(0)
    } else {
        let h = attempts[0];
        if h.present && !h.removed {
            Err("Failed to delete "@ + h.name@ + ": "@ + h.error@)
        } else {
            match wipe_outcome(attempts.skip(1)) {
                Ok(c) => Ok(
                    c + if h.present {
                        1int
                    } else {
                        0int
                    },
                ),
                Err(e) => Err(e),
            }
        }
    }
}

/// Replays a wipe's attempts into its report: the deleted-file count
/// on success, the first failure otherwise.
pub fn evaluate_wipe(attempts: &Vec<WipeAttempt>) -> (r: Result<usize, LifecycleError>)
    ensures
        match r {
            Ok(c) => wipe_outcome(attempts@) == Ok::<int, Seq<char>>(c as int),
            Err(e) => (e matches LifecycleError::ExitFailure { detail } && wipe_outcome(attempts@)
                == Err::<int, Seq<char>>(detail@)),
        },
{
    let ghost full = attempts@;
    let mut count: usize = 0;
    let mut i: usize = 0;
    proof {
        assert(full.skip(0) =~= full);
    }
    while i < attempts.len()
        invariant
            0 <= i <= full.len() == attempts@.len(),
            full == attempts@,
            count <= i,
            wipe_outcome(full) == (match wipe_outcome(full.skip(i as int)) {
                Ok(c) => Ok::<int, Seq<char>>(c + count),
                Err(e) => Err::<int, Seq<char>>(e),
            }),
        decreases full.len() - i,
    {
        proof {
            assert(full.skip(i as int)[0] == full[i as int]);
            assert(full.skip(i as int).skip(1) =~= full.skip(i + 1));
        }
        let a = &attempts[i];
        if a.present && !a.removed {
            let mut detail = "Failed to delete ".to_owned();
            detail.append(a.name.as_str());
            detail.append(": ");
            detail.append(a.error.as_str());
            return Err(LifecycleError::ExitFailure { detail });
        }
        if a.present {
            count = count + 1;
        }
        i = i + 1;
    }
    Ok(count)
}

/// Wiping a directory that holds none of the target files succeeds
/// and reports zero deletions: the wipe is an idempotent no-op there.
pub proof fn lemma_wipe_clean_is_noop(attempts: Seq<WipeAttempt>)
    requires
        forall|i: int| 0 <= i < attempts.len() ==> !(#[trigger] attempts[i]).present,
    ensures
        wipe_outcome(attempts) == Ok::<int, Seq<char>>(0),
    decreases attempts.len(),
{
    if attempts.len() > 0 {
        assert forall|i: int|
            0 <= i < attempts.skip(1).len() implies !(#[trigger] attempts.skip(1)[i]).present by {
            assert(attempts.skip(1)[i] == attempts[i + 1]);
        }
        lemma_wipe_clean_is_noop(attempts.skip(1));
    }
}

} // verus!

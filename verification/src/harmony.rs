//! HarmonyOS device enumeration and lifecycle argument building.
//!
//! The declared listing (`-list` output) is a line table with a
//! header; the live listing (`list targets` output) names connected
//! targets. A target and a declared name correlate when either text
//! contains the other; the latest matching target claims the device
//! and becomes its id.

use vstd::prelude::*;
use vstd::string::*;
use crate::model::{HarmonyEmulator, LifecycleError};
use crate::text::{
    contains_seq, has_prefix, lines_spec, split_lines, starts_with, str_contains, trim, trim_spec,
    views,
};

verus! {

/// Resolves the HarmonyOS emulator binary: the configured path must
/// exist on disk; `exists` is the caller's check of it.
pub fn get_emulator_path(configured: Option<String>, exists: bool) -> (r: Result<
    String,
    LifecycleError,
>)
    ensures
        match configured {
            None => (r matches Err(e) && e matches LifecycleError::ConfigurationMissing { detail }
                && detail@
                == "Emulator path not configured. Please set DevEco Studio path or Emulator path in Settings."@),
            Some(p) => if exists {
                r matches Ok(v) && v@ == p@
            } else {
                r matches Err(e) && e matches LifecycleError::ToolNotFound { detail } && detail@
                    == "Emulator not found at: "@ + p@ + ". Please check your settings."@
            },
        },
{
    match configured {
        None => Err(
            LifecycleError::ConfigurationMissing {
                detail:
                    "Emulator path not configured. Please set DevEco Studio path or Emulator path in Settings.".to_owned(),
            },
        ),
        Some(p) => {
            if exists {
                Ok(p)
            } else {
                let mut detail = "Emulator not found at: ".to_owned();
                detail.append(p.as_str());
                detail.append(". Please check your settings.");
                Err(LifecycleError::ToolNotFound { detail })
            }
        },
    }
}

/// Resolves the hdc binary: the configured path must exist on disk;
/// `exists` is the caller's check of it.
pub fn get_hdc_path(configured: Option<String>, exists: bool) -> (r: Result<
    String,
    LifecycleError,
>)
    ensures
        match configured {
            None => (r matches Err(e) && e matches LifecycleError::ConfigurationMissing { detail }
                && detail@
                == "hdc path not configured. Please set DevEco Studio path or hdc path in Settings."@),
            Some(p) => if exists {
                r matches Ok(v) && v@ == p@
            } else {
                r matches Err(e) && e matches LifecycleError::ToolNotFound { detail } && detail@
                    == "hdc not found at: "@ + p@ + ". Please check your settings."@
            },
        },
{
    match configured {
        None => Err(
            LifecycleError::ConfigurationMissing {
                detail:
                    "hdc path not configured. Please set DevEco Studio path or hdc path in Settings.".to_owned(),
            },
        ),
        Some(p) => {
            if exists {
                Ok(p)
            } else {
                let mut detail = "hdc not found at: ".to_owned();
                detail.append(p.as_str());
                detail.append(". Please check your settings.");
                Err(LifecycleError::ToolNotFound { detail })
            }
        },
    }
}

/// The declared names of a `-list` output: each line trimmed, with
/// empty lines and the `List`/`---` header furniture dropped, later
/// duplicates of an earlier name dropped.
pub open spec fn harmony_names_from(lines: Seq<Seq<char>>) -> Seq<Seq<char>>
    decreases lines.len(),
{
    if lines.len() == 0 {
        Seq::empty()
    } else {
        let pre = harmony_names_from(lines.drop_last());
        let t = trim_spec(lines.last());
        if t.len() == 0 || has_prefix(t, "List"@) || has_prefix(t, "---"@) || pre.contains(t) {
            pre
        } else {
            pre.push(t)
        }
    }
}

/// Parses a `-list` output into the declared device names.
pub fn parse_harmony_list(out: &str) -> (r: Vec<String>)
    ensures
        views(r@) == harmony_names_from(lines_spec(out@)),
{
    let lines = split_lines(out);
    let lv = Ghost(views(lines@));
    let mut names: Vec<String> = Vec::new();
    let mut i: usize = 0;
    proof {
        assert(lv@.take(0) =~= Seq::<Seq<char>>::empty());
    }
    while i < lines.len()
        invariant
            0 <= i <= lines@.len(),
            lv@ == views(lines@),
            views(names@) == harmony_names_from(lv@.take(i as int)),
        decreases lines@.len() - i,
    {
        let t = trim(lines[i].as_str());
        proof {
            assert(lv@.take(i + 1).drop_last() =~= lv@.take(i as int));
            assert(lv@.take(i + 1).last() == lv@[i as int]);
            assert(lv@[i as int] == lines@[i as int]@);
        }
        if !t.as_str().is_empty() && !starts_with(t.as_str(), "List") && !starts_with(
            t.as_str(),
            "---",
        ) && !crate::text::contains_string(&names, t.as_str()) {
            proof {
                assert(views(names@.push(t)) =~= views(names@).push(t@));
            }
            names.push(t);
        }
        i = i + 1;
    }
    proof {
        assert(lv@.take(lines@.len() as int) =~= lv@);
    }
    names
}

/// The connected targets of a `list targets` output: each line
/// trimmed, empties and bracketed status lines dropped.
pub open spec fn targets_from(lines: Seq<Seq<char>>) -> Seq<Seq<char>>
    decreases lines.len(),
{
    if lines.len() == 0 {
        Seq::empty()
    } else {
        let pre = targets_from(lines.drop_last());
        let t = trim_spec(lines.last());
        if t.len() == 0 || has_prefix(t, "["@) {
            pre
        } else {
            pre.push(t)
        }
    }
}

/// Parses a `list targets` output into the connected target names.
pub fn parse_hdc_targets(out: &str) -> (r: Vec<String>)
    ensures
        views(r@) == targets_from(lines_spec(out@)),
{
    let lines = split_lines(out);
    let lv = Ghost(views(lines@));
    let mut ts: Vec<String> = Vec::new();
    let mut i: usize = 0;
    proof {
        assert(lv@.take(0) =~= Seq::<Seq<char>>::empty());
    }
    while i < lines.len()
        invariant
            0 <= i <= lines@.len(),
            lv@ == views(lines@),
            views(ts@) == targets_from(lv@.take(i as int)),
        decreases lines@.len() - i,
    {
        let t = trim(lines[i].as_str());
        proof {
            assert(lv@.take(i + 1).drop_last() =~= lv@.take(i as int));
            assert(lv@.take(i + 1).last() == lv@[i as int]);
            assert(lv@[i as int] == lines@[i as int]@);
        }
        if !t.as_str().is_empty() && !starts_with(t.as_str(), "[") {
            proof {
                assert(views(ts@.push(t)) =~= views(ts@).push(t@));
            }
            ts.push(t);
        }
        i = i + 1;
    }
    proof {
        assert(lv@.take(lines@.len() as int) =~= lv@);
    }
    ts
}

/// Whether a connected target and a declared name correlate: either
/// text contains the other.
pub open spec fn hm_match(name: Seq<char>, target: Seq<char>) -> bool {
    contains_seq(target, name) || contains_seq(name, target)
}

/// Whether target `t` claims the device at index `j`: it correlates
/// with that device's name and with no earlier device's name, so the
/// first matching device wins the target.
pub open spec fn claims(names: Seq<Seq<char>>, j: int, t: Seq<char>) -> bool {
    hm_match(names[j], t) && forall|k: int| 0 <= k < j ==> !hm_match(#[trigger] names[k], t)
}

/// The last target that claims the device at index `j`, if any: each
/// claiming target overwrites the id, so the last one stands.
pub open spec fn last_claim(names: Seq<Seq<char>>, j: int, targets: Seq<Seq<char>>) -> Option<
    Seq<char>,
>
    decreases targets.len(),
{
    if targets.len() == 0 {
        None
    } else {
        let pre = last_claim(names, j, targets.drop_last());
        if claims(names, j, targets.last()) {
            Some(targets.last())
        } else {
            pre
        }
    }
}

/// What the listing must report for the declared device at index `j`:
/// a claimed device runs under its claiming target's text as id; an
/// unclaimed one is stopped under its declared name.
pub open spec fn harmony_device_ok(
    d: HarmonyEmulator,
    names: Seq<Seq<char>>,
    j: int,
    targets: Seq<Seq<char>>,
) -> bool {
    &&& d.name@ == names[j]
    &&& d.device_type@ == "HarmonyOS Device"@
    &&& d.os_version@ == "HarmonyOS NEXT"@
    &&& match last_claim(names, j, targets) {
        Some(t) => d.id@ == t && d.status@ == "running"@,
        None => d.id@ == names[j] && d.status@ == "stopped"@,
    }
}

/// Whether any of the first `upto` names correlates with `t`.
fn earlier_match(names: &Vec<String>, upto: usize, t: &str) -> (r: bool)
    requires
        upto <= names@.len(),
    ensures
        r == exists|k: int| 0 <= k < upto && hm_match(views(names@)[k], t@),
{
    let mut k: usize = 0;
    while k < upto
        invariant
            0 <= k <= upto <= names@.len(),
            forall|q: int| 0 <= q < k ==> !hm_match(views(names@)[q], t@),
        decreases upto - k,
    {
        if str_contains(t, names[k].as_str()) || str_contains(names[k].as_str(), t) {
            proof {
                assert(hm_match(views(names@)[k as int], t@));
            }
            return true;
        }
        k = k + 1;
    }
    false
}

/// Correlates the declared devices against the connected targets.
pub fn correlate_harmony(names: &Vec<String>, targets: &Vec<String>) -> (r: Vec<HarmonyEmulator>)
    ensures
        r@.len() == names@.len(),
        forall|j: int|
            0 <= j < names@.len() ==> harmony_device_ok(
                #[trigger] r@[j],
                views(names@),
                j,
                views(targets@),
            ),
{
    let nv = Ghost(views(names@));
    let tv = Ghost(views(targets@));
    let mut out: Vec<HarmonyEmulator> = Vec::new();
    let mut j: usize = 0;
    while j < names.len()
        invariant
            0 <= j <= names@.len(),
            nv@ == views(names@),
            tv@ == views(targets@),
            out@.len() == j,
            forall|q: int| 0 <= q < j ==> harmony_device_ok(#[trigger] out@[q], nv@, q, tv@),
        decreases names@.len() - j,
    {
        let name = &names[j];
        let mut claimed: Option<String> = None;
        let mut ti: usize = 0;
        proof {
            assert(tv@.take(0) =~= Seq::<Seq<char>>::empty());
        }
        while ti < targets.len()
            invariant
                0 <= ti <= targets@.len(),
                0 <= j < names@.len(),
                nv@ == views(names@),
                tv@ == views(targets@),
                name@ == nv@[j as int],
                match claimed {
                    Some(c) => last_claim(nv@, j as int, tv@.take(ti as int)) == Some(c@),
                    None => last_claim(nv@, j as int, tv@.take(ti as int)) is None,
                },
            decreases targets@.len() - ti,
        {
            let t = targets[ti].as_str();
            proof {
                assert(tv@.take(ti + 1).drop_last() =~= tv@.take(ti as int));
                assert(tv@.take(ti + 1).last() == tv@[ti as int]);
                assert(tv@[ti as int] == targets@[ti as int]@);
            }
            let matches_here = str_contains(t, name.as_str()) || str_contains(name.as_str(), t);
            if matches_here && !earlier_match(names, j, t) {
                proof {
                    assert(claims(nv@, j as int, tv@[ti as int]));
                }
                claimed = Some(targets[ti].clone());
            } else {
                proof {
                    assert(!claims(nv@, j as int, tv@[ti as int]));
                }
            }
            ti = ti + 1;
        }
        proof {
            assert(tv@.take(targets@.len() as int) =~= tv@);
        }
        let d = match claimed {
            Some(t) => HarmonyEmulator {
                id: t,
                name: name.clone(),
                device_type: "HarmonyOS Device".to_owned(),
                os_version: "HarmonyOS NEXT".to_owned(),
                status: "running".to_owned(),
            },
            None => HarmonyEmulator {
                id: name.clone(),
                name: name.clone(),
                device_type: "HarmonyOS Device".to_owned(),
                os_version: "HarmonyOS NEXT".to_owned(),
                status: "stopped".to_owned(),
            },
        };
        out.push(d);
        j = j + 1;
    }
    out
}

/// The full HarmonyOS listing pass over the captured tool output;
/// a missing live listing leaves every device stopped.
pub fn list_harmony_emulators(list_out: &str, targets_out: Option<&str>) -> (r: Vec<
    HarmonyEmulator,
>)
    ensures
        r@.len() == harmony_names_from(lines_spec(list_out@)).len(),
        forall|j: int|
            0 <= j < r@.len() ==> harmony_device_ok(
                #[trigger] r@[j],
                harmony_names_from(lines_spec(list_out@)),
                j,
                match targets_out {
                    Some(t) => targets_from(lines_spec(t@)),
                    None => Seq::<Seq<char>>::empty(),
                },
            ),
{
    let names = parse_harmony_list(list_out);
    let targets = match targets_out {
        Some(t) => parse_hdc_targets(t),
        None => Vec::new(),
    };
    proof {
        assert(forall|j: int|
            0 <= j < names@.len() ==> views(names@)[j] == harmony_names_from(
                lines_spec(list_out@),
            )[j]);
    }
    correlate_harmony(&names, &targets)
}

/// The start arguments for one HarmonyOS device: the device selector
/// and the configured emulator and image locations.
pub fn build_harmony_start_args(id: &str, emulator_location: &str, image_location: &str) -> (r:
    Vec<String>)
    ensures
        views(r@) == seq![
            "-hvd"@,
            id@,
            "-path"@,
            emulator_location@,
            "-imageRoot"@,
            image_location@,
        ],
{
    let mut args: Vec<String> = Vec::new();
    args.push("-hvd".to_owned());
    args.push(id.to_owned());
    args.push("-path".to_owned());
    args.push(emulator_location.to_owned());
    args.push("-imageRoot".to_owned());
    args.push(image_location.to_owned());
    proof {
        assert(views(args@) =~= seq![
            "-hvd"@,
            id@,
            "-path"@,
            emulator_location@,
            "-imageRoot"@,
            image_location@,
        ]);
    }
    args
}

/// The graceful stop arguments: ask the target to power off.
pub fn build_harmony_stop_args(id: &str) -> (r: Vec<String>)
    ensures
        views(r@) == seq!["-t"@, id@, "shell"@, "reboot"@, "-p"@],
{
    let mut args: Vec<String> = Vec::new();
    args.push("-t".to_owned());
    args.push(id.to_owned());
    args.push("shell".to_owned());
    args.push("reboot".to_owned());
    args.push("-p".to_owned());
    proof {
        assert(views(args@) =~= seq!["-t"@, id@, "shell"@, "reboot"@, "-p"@]);
    }
    args
}

/// The fallback stop arguments, used when the graceful power-off
/// exits with a failure: kill the device through the emulator binary.
pub fn build_harmony_kill_args(id: &str) -> (r: Vec<String>)
    ensures
        views(r@) == seq!["-kill"@, id@],
{
    let mut args: Vec<String> = Vec::new();
    args.push("-kill".to_owned());
    args.push(id.to_owned());
    proof {
        assert(views(args@) =~= seq!["-kill"@, id@]);
    }
    args
}

proof fn lemma_last_claim_claims(names: Seq<Seq<char>>, j: int, targets: Seq<Seq<char>>)
    ensures
        match last_claim(names, j, targets) {
            Some(t) => claims(names, j, t) && targets.contains(t),
            None => true,
        },
    decreases targets.len(),
{
    if targets.len() > 0 {
        lemma_last_claim_claims(names, j, targets.drop_last());
        if claims(names, j, targets.last()) {
            assert(targets[targets.len() - 1] == targets.last());
        } else {
            match last_claim(names, j, targets.drop_last()) {
                Some(t) => {
                    let k = choose|k: int|
                        0 <= k < targets.drop_last().len() && targets.drop_last()[k] == t;
                    assert(targets[k] == t);
                },
                None => {},
            }
        }
    }
}

proof fn lemma_hm_match_self(x: Seq<char>)
    ensures
        hm_match(x, x),
{
    assert(x.subrange(0, 0 + x.len() as int) =~= x);
    assert(contains_seq(x, x));
}

/// No two devices of a HarmonyOS listing share an id, as long as
/// the declared names are distinct and no connected target
/// correlates with two different declared names: each target then
/// claims at most one device, and an unclaimed device's declared
/// name cannot be the text of a target that claimed another.
pub proof fn lemma_harmony_listing_ids_distinct(
    r: Seq<HarmonyEmulator>,
    names: Seq<Seq<char>>,
    targets: Seq<Seq<char>>,
)
    requires
        r.len() == names.len(),
        forall|j: int| 0 <= j < r.len() ==> harmony_device_ok(#[trigger] r[j], names, j, targets),
        forall|i: int, j: int| 0 <= i < j < names.len() ==> names[i] != names[j],
        forall|t: int, j1: int, j2: int|
            0 <= t < targets.len() && 0 <= j1 < names.len() && 0 <= j2 < names.len() && j1 != j2
                ==> !(#[trigger] hm_match(names[j1], targets[t]) && #[trigger] hm_match(
                names[j2],
                targets[t],
            )),
    ensures
        forall|i: int, j: int| 0 <= i < j < r.len() ==> r[i].id@ != r[j].id@,
{
    assert forall|i: int, j: int| 0 <= i < j < r.len() implies r[i].id@ != r[j].id@ by {
        lemma_last_claim_claims(names, i, targets);
        lemma_last_claim_claims(names, j, targets);
        let ci = last_claim(names, i, targets);
        let cj = last_claim(names, j, targets);
        match (ci, cj) {
            (Some(ti), Some(tj)) => {
                if ti == tj {
                    let k = choose|k: int| 0 <= k < targets.len() && targets[k] == ti;
                    assert(hm_match(names[i], targets[k]) && hm_match(names[j], targets[k]));
                    assert(false);
                }
            },
            (Some(ti), None) => {
                if ti == names[j] {
                    let k = choose|k: int| 0 <= k < targets.len() && targets[k] == ti;
                    lemma_hm_match_self(names[j]);
                    assert(hm_match(names[i], targets[k]) && hm_match(names[j], targets[k]));
                    assert(false);
                }
            },
            (None, Some(tj)) => {
                if tj == names[i] {
                    let k = choose|k: int| 0 <= k < targets.len() && targets[k] == tj;
                    lemma_hm_match_self(names[i]);
                    assert(hm_match(names[i], targets[k]) && hm_match(names[j], targets[k]));
                    assert(false);
                }
            },
            (None, None) => {},
        }
    }
}

} // verus!

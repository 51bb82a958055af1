//! Android device enumeration and correlation.
//!
//! The declared-device listing (`-list-avds` output) yields one
//! provisional stopped device per distinct name; the live-instance
//! listing (`devices` output) and its per-serial identity queries
//! yield serial-to-name pairs; a process-table snapshot backs the
//! fallback pass for freshly started devices the live source has not
//! registered yet.

use vstd::prelude::*;
use vstd::string::*;
use crate::model::{AndroidEmulator, HostOs, LifecycleError};
use crate::num::{all_digits, dec_val, i32_to_dec, int_dec_str, parse_u64};
use crate::settings::EmulatorLaunchParams;
use crate::text::{
    contains_seq, contains_string, lines_spec, split_by, split_by_spec, split_lines, split_tokens,
    str_contains, tokens_spec, trim, trim_spec, views, Separator,
};

verus! {

/// A live serial paired with the declared name its identity query reported.
pub struct IdentityPair {
    pub serial: String,
    pub avd: String,
}

/// The declared names taken from a listing: each line trimmed, empty
/// lines dropped, and later duplicates of an earlier name dropped.
pub open spec fn declared_names_from(lines: Seq<Seq<char>>) -> Seq<Seq<char>>
    decreases lines.len(),
{
    if lines.len() == 0 {
        Seq::empty()
    } else {
        let pre = declared_names_from(lines.drop_last());
        let t = trim_spec(lines.last());
        if t.len() == 0 || pre.contains(t) {
            pre
        } else {
            pre.push(t)
        }
    }
}

/// The declared names of a whole `-list-avds` output.
pub open spec fn declared_names_spec(out: Seq<char>) -> Seq<Seq<char>> {
    declared_names_from(lines_spec(out))
}

/// Declared-name deduplication is first-match: the kept names are distinct.
pub proof fn lemma_declared_names_distinct(lines: Seq<Seq<char>>)
    ensures
        forall|i: int, j: int|
            0 <= i < j < declared_names_from(lines).len() ==> declared_names_from(lines)[i]
                != declared_names_from(lines)[j],
    decreases lines.len(),
{
    if lines.len() > 0 {
        lemma_declared_names_distinct(lines.drop_last());
        let pre = declared_names_from(lines.drop_last());
        let t = trim_spec(lines.last());
        if t.len() == 0 || pre.contains(t) {
        } else {
            assert forall|i: int, j: int|
                0 <= i < j < pre.push(t).len() implies pre.push(t)[i] != pre.push(t)[j] by {
                if j < pre.len() {
                } else {
                    assert(pre.push(t)[j] == t);
                    assert(pre.push(t)[i] == pre[i]);
                    assert(!pre.contains(t));
                }
            }
        }
    }
}

/// Parses a `-list-avds` output into the declared device names,
/// trimmed, without empties, first occurrence of each name kept.
pub fn parse_avd_list(out: &str) -> (r: Vec<String>)
    ensures
        views(r@) == declared_names_spec(out@),
{
    let lines = split_lines(out);
    let lv = Ghost(views(lines@));
    let mut names: Vec<String> = Vec::new();
    let mut i: usize = 0;
    proof {
        assert(lv@.take(0) =~= Seq::<Seq<char>>::empty());
    }
    while i < lines.len()
        invariant
            0 <= i <= lines@.len(),
            lv@ == views(lines@),
            views(names@) == declared_names_from(lv@.take(i as int)),
        decreases lines@.len() - i,
    {
        let t = trim(lines[i].as_str());
        proof {
            assert(lv@.take(i + 1).drop_last() =~= lv@.take(i as int));
            assert(lv@.take(i + 1).last() == lv@[i as int]);
            assert(lv@[i as int] == lines@[i as int]@);
        }
        if !t.as_str().is_empty() && !contains_string(&names, t.as_str()) {
            proof {
                assert(views(names@.push(t)) =~= views(names@).push(t@));
            }
            names.push(t);
        }
        i = i + 1;
    }
    proof {
        assert(lv@.take(lines@.len() as int) =~= lv@);
    }
    names
}

/// Whether a `devices` listing line describes a connected emulator:
/// it mentions an emulator serial and the `device` state.
pub open spec fn is_live_line(l: Seq<char>) -> bool {
    contains_seq(l, "emulator-"@) && contains_seq(l, "device"@)
}

/// The serials of the live lines of a `devices` output: the first
/// whitespace token of every line that describes a connected emulator.
pub open spec fn live_serials_from(lines: Seq<Seq<char>>) -> Seq<Seq<char>>
    decreases lines.len(),
{
    if lines.len() == 0 {
        Seq::empty()
    } else {
        let pre = live_serials_from(lines.drop_last());
        let l = lines.last();
        if is_live_line(l) && tokens_spec(l).len() > 0 {
            pre.push(tokens_spec(l)[0])
        } else {
            pre
        }
    }
}

/// The live serials of a whole `devices` output.
pub open spec fn live_serials_spec(out: Seq<char>) -> Seq<Seq<char>> {
    live_serials_from(lines_spec(out))
}

/// Parses a `devices` output into the serials of the connected
/// emulators, in listing order. The caller asks each serial for its
/// declared identity to build the correlation pairs.
pub fn parse_adb_devices(out: &str) -> (r: Vec<String>)
    ensures
        views(r@) == live_serials_spec(out@),
{
    let lines = split_lines(out);
    let lv = Ghost(views(lines@));
    let mut serials: Vec<String> = Vec::new();
    let mut i: usize = 0;
    proof {
        assert(lv@.take(0) =~= Seq::<Seq<char>>::empty());
    }
    while i < lines.len()
        invariant
            0 <= i <= lines@.len(),
            lv@ == views(lines@),
            views(serials@) == live_serials_from(lv@.take(i as int)),
        decreases lines@.len() - i,
    {
        proof {
            assert(lv@.take(i + 1).drop_last() =~= lv@.take(i as int));
            assert(lv@.take(i + 1).last() == lv@[i as int]);
            assert(lv@[i as int] == lines@[i as int]@);
        }
        let line = lines[i].as_str();
        if str_contains(line, "emulator-") && str_contains(line, "device") {
            let toks = split_tokens(line);
            if toks.len() > 0 {
                let first = toks[0].clone();
                proof {
                    assert(first@ == tokens_spec(lines@[i as int]@)[0]);
                    assert(views(serials@.push(first)) =~= views(serials@).push(first@));
                }
                serials.push(first);
            }
        }
        i = i + 1;
    }
    proof {
        assert(lv@.take(lines@.len() as int) =~= lv@);
    }
    serials
}

/// The serial of the first identity pair whose reported name is `name`.
pub open spec fn first_serial_for(pairs: Seq<IdentityPair>, name: Seq<char>) -> Option<Seq<char>>
    decreases pairs.len(),
{
    if pairs.len() == 0 {
        None
    } else if pairs[0].avd@ == name {
        Some(pairs[0].serial@)
    } else {
        first_serial_for(pairs.skip(1), name)
    }
}

proof fn lemma_first_serial_found(pairs: Seq<IdentityPair>, name: Seq<char>, j: int)
    requires
        0 <= j < pairs.len(),
        forall|k: int| 0 <= k < j ==> (#[trigger] pairs[k]).avd@ != name,
        pairs[j].avd@ == name,
    ensures
        first_serial_for(pairs, name) == Some(pairs[j].serial@),
    decreases j,
{
    if j > 0 {
        assert(pairs.skip(1)[j - 1] == pairs[j]);
        assert forall|k: int| 0 <= k < j - 1 implies (#[trigger] pairs.skip(1)[k]).avd@
            != name by {
            assert(pairs.skip(1)[k] == pairs[k + 1]);
        }
        lemma_first_serial_found(pairs.skip(1), name, j - 1);
    }
}

proof fn lemma_first_serial_missing(pairs: Seq<IdentityPair>, name: Seq<char>)
    requires
        forall|k: int| 0 <= k < pairs.len() ==> (#[trigger] pairs[k]).avd@ != name,
    ensures
        first_serial_for(pairs, name) is None,
    decreases pairs.len(),
{
    if pairs.len() > 0 {
        assert forall|k: int|
            0 <= k < pairs.skip(1).len() implies (#[trigger] pairs.skip(1)[k]).avd@ != name by {
            assert(pairs.skip(1)[k] == pairs[k + 1]);
        }
        lemma_first_serial_missing(pairs.skip(1), name);
    }
}

/// Looks up the live serial correlated to a declared name: the first
/// pair whose identity query reported that name.
pub fn lookup_serial(pairs: &Vec<IdentityPair>, name: &str) -> (r: Option<String>)
    ensures
        match r {
            Some(s) => first_serial_for(pairs@, name@) == Some(s@),
            None => first_serial_for(pairs@, name@) is None,
        },
{
    let mut j: usize = 0;
    while j < pairs.len()
        invariant
            0 <= j <= pairs@.len(),
            forall|k: int| 0 <= k < j ==> (#[trigger] pairs@[k]).avd@ != name@,
        decreases pairs@.len() - j,
    {
        if crate::text::str_eq(pairs[j].avd.as_str(), name) {
            let s = pairs[j].serial.clone();
            proof {
                lemma_first_serial_found(pairs@, name@, j as int);
            }
            return Some(s);
        }
        j = j + 1;
    }
    proof {
        lemma_first_serial_missing(pairs@, name@);
    }
    None
}

/// Whether a process-table snapshot shows a command line that started
/// the named device: it mentions `-avd <name>`, bare or quoted.
pub open spec fn proc_mentions(ps: Seq<char>, name: Seq<char>) -> bool {
    contains_seq(ps, "-avd "@ + name) || contains_seq(ps, "-avd \""@ + name + "\""@)
}

/// Runtime test for [`proc_mentions`].
pub fn proc_table_mentions(ps: &str, name: &str) -> (r: bool)
    ensures
        r == proc_mentions(ps@, name@),
{
    let mut bare = "-avd ".to_owned();
    bare.append(name);
    let mut quoted = "-avd \"".to_owned();
    quoted.append(name);
    quoted.append("\"");
    str_contains(ps, bare.as_str()) || str_contains(ps, quoted.as_str())
}

/// What the device listing must report for one declared name, given
/// the identity pairs and the process-table snapshot: a correlated
/// name carries the live serial and runs; an uncorrelated name whose
/// start shows in the process table runs under its declared name; any
/// other name is stopped under its declared name.
pub open spec fn correlated_device(
    d: AndroidEmulator,
    name: Seq<char>,
    pairs: Seq<IdentityPair>,
    ps: Seq<char>,
) -> bool {
    &&& d.name@ == name
    &&& d.device_type@ == name
    &&& d.os_version@.len() == 0
    &&& match first_serial_for(pairs, name) {
        Some(serial) => d.id@ == serial && d.status@ == "running"@,
        None => d.id@ == name && d.status@ == (if proc_mentions(ps, name) {
            "running"@
        } else {
            "stopped"@
        }),
    }
}

/// Builds the device list for a set of declared names: correlation
/// first (the live serial replaces the declared name as the id), the
/// process-table fallback second (running, id left as the declared name).
pub fn correlate_android(names: &Vec<String>, pairs: &Vec<IdentityPair>, ps: &str) -> (r: Vec<
    AndroidEmulator,
>)
    ensures
        r@.len() == names@.len(),
        forall|i: int|
            0 <= i < names@.len() ==> correlated_device(
                #[trigger] r@[i],
                names@[i]@,
                pairs@,
                ps@,
            ),
{
    let mut out: Vec<AndroidEmulator> = Vec::new();
    let mut i: usize = 0;
    while i < names.len()
        invariant
            0 <= i <= names@.len(),
            out@.len() == i,
            forall|k: int|
                0 <= k < i ==> correlated_device(#[trigger] out@[k], names@[k]@, pairs@, ps@),
        decreases names@.len() - i,
    {
        let name = &names[i];
        let (id, status) = match lookup_serial(pairs, name.as_str()) {
            Some(serial) => (serial, "running".to_owned()),
            None => {
                if proc_table_mentions(ps, name.as_str()) {
                    (name.clone(), "running".to_owned())
                } else {
                    (name.clone(), "stopped".to_owned())
                }
            },
        };
        let d = AndroidEmulator {
            id,
            name: name.clone(),
            device_type: name.clone(),
            os_version: String::new(),
            status,
        };
        out.push(d);
        i = i + 1;
    }
    out
}

proof fn lemma_first_serial_index(pairs: Seq<IdentityPair>, name: Seq<char>)
    requires
        first_serial_for(pairs, name) is Some,
    ensures
        exists|k: int|
            0 <= k < pairs.len() && (#[trigger] pairs[k]).serial@ == first_serial_for(
                pairs,
                name,
            )->0 && pairs[k].avd@ == name,
    decreases pairs.len(),
{
    if pairs.len() > 0 && pairs[0].avd@ != name {
        lemma_first_serial_index(pairs.skip(1), name);
        let k = choose|k: int|
            0 <= k < pairs.skip(1).len() && (#[trigger] pairs.skip(1)[k]).serial@
                == first_serial_for(pairs.skip(1), name)->0 && pairs.skip(1)[k].avd@ == name;
        assert(pairs[k + 1] == pairs.skip(1)[k]);
    }
}

/// No listing holds two devices with the same id: correlated devices
/// carry distinct live serials, uncorrelated ones their distinct
/// declared names, and no serial collides with a declared name.
///
/// The identity pairs must carry pairwise distinct serials, and no
/// serial may equal a declared name; a live source that reported the
/// same serial twice, or a device declared under the text of another
/// device's serial, could make two listing entries share an id.
pub proof fn lemma_listing_ids_distinct(
    r: Seq<AndroidEmulator>,
    names: Seq<Seq<char>>,
    pairs: Seq<IdentityPair>,
    ps: Seq<char>,
)
    requires
        r.len() == names.len(),
        forall|i: int| 0 <= i < r.len() ==> correlated_device(#[trigger] r[i], names[i], pairs, ps),
        forall|i: int, j: int| 0 <= i < j < names.len() ==> names[i] != names[j],
        forall|i: int, j: int|
            0 <= i < j < pairs.len() ==> (#[trigger] pairs[i]).serial@ != (
            #[trigger] pairs[j]).serial@,
        forall|i: int, j: int|
            0 <= i < names.len() && 0 <= j < pairs.len() ==> #[trigger] names[i] != (
            #[trigger] pairs[j]).serial@,
    ensures
        forall|i: int, j: int| 0 <= i < j < r.len() ==> r[i].id@ != r[j].id@,
{
    assert forall|i: int, j: int| 0 <= i < j < r.len() implies r[i].id@ != r[j].id@ by {
        let fi = first_serial_for(pairs, names[i]);
        let fj = first_serial_for(pairs, names[j]);
        if fi is Some {
            lemma_first_serial_index(pairs, names[i]);
            let ki = choose|k: int|
                0 <= k < pairs.len() && (#[trigger] pairs[k]).serial@ == fi->0 && pairs[k].avd@
                    == names[i];
            if fj is Some {
                lemma_first_serial_index(pairs, names[j]);
                let kj = choose|k: int|
                    0 <= k < pairs.len() && (#[trigger] pairs[k]).serial@ == fj->0 && pairs[k].avd@
                        == names[j];
                assert(ki != kj);
            } else {
                assert(r[j].id@ == names[j]);
            }
        } else {
            if fj is Some {
                lemma_first_serial_index(pairs, names[j]);
            } else {
                assert(r[i].id@ == names[i] && r[j].id@ == names[j]);
            }
        }
    }
}

/// No two devices of an Android listing share an id, as long as the
/// identity pairs carry pairwise distinct serials and no serial
/// equals a declared name: the declared names themselves are already
/// distinct by first-match deduplication.
pub proof fn lemma_android_listing_ids_distinct(
    r: Seq<AndroidEmulator>,
    avd_out: Seq<char>,
    pairs: Seq<IdentityPair>,
    ps: Seq<char>,
)
    requires
        r.len() == declared_names_spec(avd_out).len(),
        forall|i: int|
            0 <= i < r.len() ==> correlated_device(
                #[trigger] r[i],
                declared_names_spec(avd_out)[i],
                pairs,
                ps,
            ),
        forall|i: int, j: int|
            0 <= i < j < pairs.len() ==> (#[trigger] pairs[i]).serial@ != (
            #[trigger] pairs[j]).serial@,
        forall|i: int, j: int|
            0 <= i < declared_names_spec(avd_out).len() && 0 <= j < pairs.len()
                ==> #[trigger] declared_names_spec(avd_out)[i] != (#[trigger] pairs[j]).serial@,
    ensures
        forall|i: int, j: int| 0 <= i < j < r.len() ==> r[i].id@ != r[j].id@,
{
    lemma_declared_names_distinct(lines_spec(avd_out));
    lemma_listing_ids_distinct(r, declared_names_spec(avd_out), pairs, ps);
}

/// The full Android listing pass over the captured tool output: the
/// declared names of the `-list-avds` output, correlated against the
/// identity pairs and the process-table snapshot.
pub fn list_android_emulators(avd_out: &str, pairs: &Vec<IdentityPair>, ps: &str) -> (r: Vec<
    AndroidEmulator,
>)
    ensures
        r@.len() == declared_names_spec(avd_out@).len(),
        forall|i: int|
            0 <= i < r@.len() ==> correlated_device(
                #[trigger] r@[i],
                declared_names_spec(avd_out@)[i],
                pairs@,
                ps@,
            ),
{
    let names = parse_avd_list(avd_out);
    proof {
        assert(forall|i: int|
            0 <= i < names@.len() ==> names@[i]@ == declared_names_spec(avd_out@)[i]);
    }
    correlate_android(&names, pairs, ps)
}

/// Whether a `devices` line can resolve the stop target `id`: it
/// mentions the id itself or the serial form `emulator-<id>`.
pub open spec fn stop_line_matches(l: Seq<char>, id: Seq<char>) -> bool {
    contains_seq(l, id) || contains_seq(l, "emulator-"@ + id)
}

/// The serial resolved for a stop target: the first whitespace token
/// of the first matching line that has one.
pub open spec fn target_serial_from(lines: Seq<Seq<char>>, id: Seq<char>) -> Option<Seq<char>>
    decreases lines.len(),
{
    if lines.len() == 0 {
        None
    } else if stop_line_matches(lines[0], id) && tokens_spec(lines[0]).len() > 0 {
        Some(tokens_spec(lines[0])[0])
    } else {
        target_serial_from(lines.skip(1), id)
    }
}

proof fn lemma_target_serial_step(lines: Seq<Seq<char>>, id: Seq<char>, j: int)
    requires
        0 <= j <= lines.len(),
        forall|k: int|
            0 <= k < j ==> !(stop_line_matches(#[trigger] lines[k], id) && tokens_spec(
                lines[k],
            ).len() > 0),
    ensures
        target_serial_from(lines, id) == (if j < lines.len() {
            target_serial_from(lines.skip(j), id)
        } else {
            None::<Seq<char>>
        }),
    decreases j,
{
    if j == 0 {
        assert(lines.skip(0) =~= lines);
    } else {
        assert forall|k: int|
            0 <= k < j - 1 implies !(stop_line_matches(#[trigger] lines.skip(1)[k], id)
            && tokens_spec(lines.skip(1)[k]).len() > 0) by {
            assert(lines.skip(1)[k] == lines[k + 1]);
        }
        lemma_target_serial_step(lines.skip(1), id, j - 1);
        if j < lines.len() {
            assert(lines.skip(1).skip(j - 1) =~= lines.skip(j));
        }
    }
}

/// Resolves the live serial for a stop target from a `devices`
/// output: the first token of the first line that mentions the id or
/// its `emulator-<id>` serial form.
pub fn find_target_serial(out: &str, id: &str) -> (r: Option<String>)
    ensures
        match r {
            Some(s) => target_serial_from(lines_spec(out@), id@) == Some(s@),
            None => target_serial_from(lines_spec(out@), id@) is None,
        },
{
    let mut serial_form = "emulator-".to_owned();
    serial_form.append(id);
    let lines = split_lines(out);
    let lv = Ghost(views(lines@));
    let mut i: usize = 0;
    while i < lines.len()
        invariant
            0 <= i <= lines@.len(),
            lv@ == views(lines@),
            lv@ == lines_spec(out@),
            serial_form@ == "emulator-"@ + id@,
            forall|k: int|
                0 <= k < i ==> !(stop_line_matches(#[trigger] lv@[k], id@) && tokens_spec(
                    lv@[k],
                ).len() > 0),
        decreases lines@.len() - i,
    {
        let line = lines[i].as_str();
        if str_contains(line, id) || str_contains(line, serial_form.as_str()) {
            let toks = split_tokens(line);
            if toks.len() > 0 {
                let first = toks[0].clone();
                proof {
                    lemma_target_serial_step(lv@, id@, i as int);
                    assert(lv@.skip(i as int)[0] == lv@[i as int]);
                    assert(lv@.skip(i as int).skip(1) =~= lv@.skip(i + 1));
                    assert(first@ == tokens_spec(lv@[i as int])[0]);
                }
                return Some(first);
            }
        }
        i = i + 1;
    }
    proof {
        lemma_target_serial_step(lv@, id@, lines@.len() as int);
    }
    None
}

/// The process-table marker of the emulator binary on each host.
pub open spec fn emulator_marker(os: HostOs) -> Seq<char> {
    match os {
        HostOs::Windows => "emulator.exe"@,
        HostOs::MacOs => "/emulator"@,
        HostOs::Linux => "/emulator"@,
    }
}

/// First discovery pass of forced termination: the line names the
/// emulator engine or the emulator binary, and the target id or its
/// resolved serial.
pub open spec fn kill_line_matches(
    l: Seq<char>,
    id: Seq<char>,
    serial: Seq<char>,
    os: HostOs,
) -> bool {
    (contains_seq(l, "qemu-system"@) || contains_seq(l, emulator_marker(os))) && (contains_seq(
        l,
        id,
    ) || contains_seq(l, serial))
}

/// Second discovery pass: any line that looks like an emulator
/// process at all, used only when the first pass found nothing.
pub open spec fn kill_line_generic(l: Seq<char>) -> bool {
    contains_seq(l, "qemu-system"@) || (contains_seq(l, "emulator"@) && contains_seq(l, "-avd"@))
}

/// The process id a process-table line reports: the last
/// comma-separated field (trimmed) of a CSV listing, or the second
/// whitespace column of a `ps`-style listing. Lines whose field is
/// not a decimal in range report none.
pub open spec fn pid_of_line(l: Seq<char>, os: HostOs) -> Option<u32> {
    match os {
        HostOs::Windows => {
            let t = trim_spec(split_by_spec(l, Separator::Exact(',')).last());
            if t.len() > 0 && all_digits(t) && dec_val(t) <= u32::MAX {
                Some(dec_val(t) as u32)
            } else {
                None
            }
        },
        _ => {
            let ts = tokens_spec(l);
            if ts.len() > 1 && all_digits(ts[1]) && ts[1].len() > 0 && dec_val(ts[1]) <= u32::MAX {
                Some(dec_val(ts[1]) as u32)
            } else {
                None
            }
        },
    }
}

/// The process ids collected over the lines a pass matches, in line order.
pub open spec fn collect_pids(
    lines: Seq<Seq<char>>,
    id: Seq<char>,
    serial: Seq<char>,
    os: HostOs,
    generic: bool,
) -> Seq<u32>
    decreases lines.len(),
{
    if lines.len() == 0 {
        Seq::empty()
    } else {
        let pre = collect_pids(lines.drop_last(), id, serial, os, generic);
        let l = lines.last();
        let hit = if generic {
            kill_line_generic(l)
        } else {
            kill_line_matches(l, id, serial, os)
        };
        match pid_of_line(l, os) {
            Some(pid) => if hit {
                pre.push(pid)
            } else {
                pre
            },
            None => pre,
        }
    }
}

/// Extracts the process id of one process-table line.
fn line_pid(line: &str, os: HostOs) -> (r: Option<u32>)
    ensures
        r == pid_of_line(line@, os),
{
    match os {
        HostOs::Windows => {
            let fields = split_by(line, Separator::Exact(','));
            proof {
                crate::text::lemma_split_by_nonempty(line@, Separator::Exact(','));
            }
            let t = trim(fields[fields.len() - 1].as_str());
            proof {
                assert(views(fields@).last() == fields@[fields@.len() - 1]@);
            }
            match parse_u64(t.as_str()) {
                Some(v) => if v <= u32::MAX as u64 {
                    Some(v as u32)
                } else {
                    None
                },
                None => None,
            }
        },
        _ => {
            let toks = split_tokens(line);
            if toks.len() > 1 {
                match parse_u64(toks[1].as_str()) {
                    Some(v) => if v <= u32::MAX as u64 {
                        Some(v as u32)
                    } else {
                        None
                    },
                    None => None,
                }
            } else {
                None
            }
        },
    }
}

/// One discovery pass over the process table.
fn collect_kill_pids(lines: &Vec<String>, id: &str, serial: &str, os: HostOs, generic: bool) -> (r:
    Vec<u32>)
    ensures
        r@ == collect_pids(views(lines@), id@, serial@, os, generic),
{
    let lv = Ghost(views(lines@));
    let mut out: Vec<u32> = Vec::new();
    let mut i: usize = 0;
    proof {
        assert(lv@.take(0) =~= Seq::<Seq<char>>::empty());
    }
    while i < lines.len()
        invariant
            0 <= i <= lines@.len(),
            lv@ == views(lines@),
            out@ == collect_pids(lv@.take(i as int), id@, serial@, os, generic),
        decreases lines@.len() - i,
    {
        proof {
            assert(lv@.take(i + 1).drop_last() =~= lv@.take(i as int));
            assert(lv@.take(i + 1).last() == lv@[i as int]);
            assert(lv@[i as int] == lines@[i as int]@);
        }
        let line = lines[i].as_str();
        let hit = if generic {
            str_contains(line, "qemu-system") || (str_contains(line, "emulator") && str_contains(
                line,
                "-avd",
            ))
        } else {
            let tool = str_contains(line, "qemu-system") || (match os {
                HostOs::Windows => str_contains(line, "emulator.exe"),
                HostOs::MacOs => str_contains(line, "/emulator"),
                HostOs::Linux => str_contains(line, "/emulator"),
            });
            tool && (str_contains(line, id) || str_contains(line, serial))
        };
        match line_pid(line, os) {
            Some(pid) => if hit {
                out.push(pid);
            },
            None => {},
        }
        i = i + 1;
    }
    proof {
        assert(lv@.take(lines@.len() as int) =~= lv@);
    }
    out
}

/// Forced-termination discovery over a process-table snapshot: the
/// exact-match pass first; only if it finds nothing, the generic
/// emulator-signature pass; an error naming the device if both come
/// up empty. Every returned process id comes from a line the pass
/// matched, so no unrelated process is ever targeted.
pub fn force_kill_pids(lines: &Vec<String>, id: &str, serial: &str, os: HostOs) -> (r: Result<
    Vec<u32>,
    LifecycleError,
>)
    ensures
        match r {
            Ok(pids) => pids@.len() > 0 && pids@ == (if collect_pids(
                views(lines@),
                id@,
                serial@,
                os,
                false,
            ).len() > 0 {
                collect_pids(views(lines@), id@, serial@, os, false)
            } else {
                collect_pids(views(lines@), id@, serial@, os, true)
            }),
            Err(e) => collect_pids(views(lines@), id@, serial@, os, false).len() == 0
                && collect_pids(views(lines@), id@, serial@, os, true).len() == 0 && (e matches
                LifecycleError::NotFound { detail } && detail@ == "Cannot find process for emulator: "@
                + id@),
        },
{
    let exact = collect_kill_pids(lines, id, serial, os, false);
    if exact.len() > 0 {
        return Ok(exact);
    }
    let generic = collect_kill_pids(lines, id, serial, os, true);
    if generic.len() > 0 {
        return Ok(generic);
    }
    let mut detail = "Cannot find process for emulator: ".to_owned();
    detail.append(id);
    Err(LifecycleError::NotFound { detail })
}

/// The argument list a start builds from the launch parameters: the
/// device selector first, then one flag pair per customized setting,
/// mapped one to one (windowless to `-no-window`, DNS override to
/// `-dns-server`, the geolocation pair to `-gps`, the memory limit to
/// `-memory`, the proxy to `-http-proxy`).
pub open spec fn emulator_args_spec(id: Seq<char>, p: EmulatorLaunchParams) -> Seq<Seq<char>> {
    let a = seq!["-avd"@, id];
    let a = if p.no_window {
        a.push("-no-window"@)
    } else {
        a
    };
    let a = if p.dns_server@.len() > 0 {
        a.push("-dns-server"@).push(p.dns_server@)
    } else {
        a
    };
    let a = if p.gps_longitude@.len() > 0 && p.gps_latitude@.len() > 0 {
        a.push("-gps"@).push(p.gps_longitude@ + ","@ + p.gps_latitude@)
    } else {
        a
    };
    let a = match p.memory {
        Some(m) => a.push("-memory"@).push(int_dec_str(m as int)),
        None => a,
    };
    if p.http_proxy@.len() > 0 {
        a.push("-http-proxy"@).push(p.http_proxy@)
    } else {
        a
    }
}

/// Builds the start arguments for one device from its launch parameters.
pub fn build_emulator_args(id: &str, params: &EmulatorLaunchParams) -> (r: Vec<String>)
    ensures
        views(r@) == emulator_args_spec(id@, *params),
{
    let mut args: Vec<String> = Vec::new();
    args.push("-avd".to_owned());
    args.push(id.to_owned());
    proof {
        assert(views(args@) =~= seq!["-avd"@, id@]);
    }
    if params.no_window {
        let ghost before = views(args@);
        args.push("-no-window".to_owned());
        proof {
            assert(views(args@) =~= before.push("-no-window"@));
        }
    }
    if !params.dns_server.as_str().is_empty() {
        let ghost before = views(args@);
        args.push("-dns-server".to_owned());
        args.push(params.dns_server.clone());
        proof {
            assert(views(args@) =~= before.push("-dns-server"@).push(params.dns_server@));
        }
    }
    if !params.gps_longitude.as_str().is_empty() && !params.gps_latitude.as_str().is_empty() {
        let ghost before = views(args@);
        let mut gps = params.gps_longitude.clone();
        gps.append(",");
        gps.append(params.gps_latitude.as_str());
        args.push("-gps".to_owned());
        args.push(gps);
        proof {
            assert(views(args@) =~= before.push("-gps"@).push(
                params.gps_longitude@ + ","@ + params.gps_latitude@,
            ));
        }
    }
    if let Some(m) = params.memory {
        let ghost before = views(args@);
        args.push("-memory".to_owned());
        args.push(i32_to_dec(m));
        proof {
            assert(views(args@) =~= before.push("-memory"@).push(int_dec_str(m as int)));
        }
    }
    if !params.http_proxy.as_str().is_empty() {
        let ghost before = views(args@);
        args.push("-http-proxy".to_owned());
        args.push(params.http_proxy.clone());
        proof {
            assert(views(args@) =~= before.push("-http-proxy"@).push(params.http_proxy@));
        }
    }
    args
}

/// What the settle check observed about a child that already exited:
/// its captured streams and the display text of its exit status.
pub struct ExitCapture {
    pub success: bool,
    pub stderr: String,
    pub stdout: String,
    pub status_text: String,
}

/// What follows the settle interval after a spawn.
pub enum SettleDecision {
    /// The child is still running: enter the readiness polling loop.
    Poll,
    /// The child already exited cleanly: the start is done.
    Done,
    /// The child already exited with a failure: surface its output.
    Fail { error: LifecycleError },
}

/// Decides the step after the settle interval: a child still running
/// is polled for readiness; one that exited cleanly ends the start;
/// one that exited with a failure surfaces its stderr, else its
/// stdout, else its exit status text.
pub fn settle_decision(exit: Option<ExitCapture>) -> (r: SettleDecision)
    ensures
        match exit {
            None => r is Poll,
            Some(e) => if e.success {
                r is Done
            } else {
                r matches SettleDecision::Fail { error } && error matches LifecycleError::ExitFailure { detail }
                    && detail@ == crate::model::exit_message_spec(
                    e.stderr@,
                    e.stdout@,
                    "Emulator exited with status: "@ + e.status_text@,
                )
            },
        },
{
    match exit {
        None => SettleDecision::Poll,
        Some(e) => {
            if e.success {
                SettleDecision::Done
            } else {
                let mut fallback = "Emulator exited with status: ".to_owned();
                fallback.append(e.status_text.as_str());
                let detail = crate::model::exit_failure_message(
                    e.stderr.as_str(),
                    e.stdout.as_str(),
                    fallback,
                );
                SettleDecision::Fail { error: LifecycleError::ExitFailure { detail } }
            }
        },
    }
}

/// Whether a `devices` output shows the started device ready: it
/// mentions the device id, or any line reports a `device` state
/// (the header line that mentions `List` does not count).
pub open spec fn ready_spec(out: Seq<char>, id: Seq<char>) -> bool {
    contains_seq(out, id) || exists|i: int|
        0 <= i < lines_spec(out).len() && contains_seq(#[trigger] lines_spec(out)[i], "device"@)
            && !contains_seq(lines_spec(out)[i], "List"@)
}

/// Runtime test for [`ready_spec`].
pub fn adb_shows_ready(out: &str, id: &str) -> (r: bool)
    ensures
        r == ready_spec(out@, id@),
{
    if str_contains(out, id) {
        return true;
    }
    let lines = split_lines(out);
    let lv = Ghost(views(lines@));
    let mut i: usize = 0;
    while i < lines.len()
        invariant
            0 <= i <= lines@.len(),
            lv@ == views(lines@),
            lv@ == lines_spec(out@),
            forall|k: int|
                0 <= k < i ==> !(contains_seq(#[trigger] lv@[k], "device"@) && !contains_seq(
                    lv@[k],
                    "List"@,
                )),
        decreases lines@.len() - i,
    {
        let line = lines[i].as_str();
        if str_contains(line, "device") && !str_contains(line, "List") {
            proof {
                assert(contains_seq(lv@[i as int], "device"@) && !contains_seq(
                    lv@[i as int],
                    "List"@,
                ));
            }
            return true;
        }
        i = i + 1;
    }
    false
}

/// One round of the readiness poll: what the live listing showed, and
/// whether the child was seen to exit.
#[derive(Clone, Copy, Debug)]
pub struct PollObservation {
    pub ready: bool,
    pub child_exited: bool,
}

/// Whether a start succeeds over a poll budget and a run of
/// observations: readiness ends it at once; a child exit before
/// readiness fails it; running out of budget, or out of
/// observations, succeeds. Exhausting the budget without confirmed
/// readiness is deliberately a success, not a timeout error: a
/// slow-booting device must not block the caller once the spawn held.
pub open spec fn poll_ok(budget: nat, obs: Seq<PollObservation>) -> bool
    decreases budget,
{
    if budget == 0 || obs.len() == 0 {
        true
    } else if obs[0].ready {
        true
    } else if obs[0].child_exited {
        false
    } else {
        poll_ok((budget - 1) as nat, obs.skip(1))
    }
}

/// Replays the readiness polling loop over captured observations,
/// consuming at most `budget` of them.
pub fn evaluate_start_poll(budget: u32, obs: &Vec<PollObservation>) -> (r: Result<
    (),
    LifecycleError,
>)
    ensures
        r is Ok <==> poll_ok(budget as nat, obs@),
        r matches Err(e) ==> (e matches LifecycleError::ExitFailure { detail } && detail@
            == "Emulator process terminated unexpectedly"@),
{
    let mut i: usize = 0;
    let ghost full = obs@;
    proof {
        assert(full.skip(0) =~= full);
    }
    while i < obs.len() && (i as u64) < (budget as u64)
        invariant
            0 <= i <= obs@.len(),
            i <= budget,
            full == obs@,
            poll_ok(budget as nat, full) == poll_ok((budget - i) as nat, full.skip(i as int)),
        decreases obs@.len() - i,
    {
        proof {
            assert(full.skip(i as int)[0] == full[i as int]);
            assert(full.skip(i as int).skip(1) =~= full.skip(i + 1));
        }
        if obs[i].ready {
            return Ok(());
        }
        if obs[i].child_exited {
            return Err(
                LifecycleError::ExitFailure {
                    detail: "Emulator process terminated unexpectedly".to_owned(),
                },
            );
        }
        i = i + 1;
    }
    proof {
        if i == budget {
        } else {
            assert(full.skip(i as int).len() == 0);
        }
    }
    Ok(())
}

/// The start timeout policy: a child that stays alive through the
/// whole polling budget without confirmed readiness still counts as
/// a successful start.
pub proof fn lemma_start_timeout_is_success(budget: nat, obs: Seq<PollObservation>)
    requires
        forall|i: int|
            0 <= i < obs.len() ==> !(#[trigger] obs[i]).ready && !obs[i].child_exited,
    ensures
        poll_ok(budget, obs),
    decreases budget,
{
    if budget > 0 && obs.len() > 0 {
        assert forall|i: int|
            0 <= i < obs.skip(1).len() implies !(#[trigger] obs.skip(1)[i]).ready && !obs.skip(
            1,
        )[i].child_exited by {
            assert(obs.skip(1)[i] == obs[i + 1]);
        }
        lemma_start_timeout_is_success((budget - 1) as nat, obs.skip(1));
    }
}

/// Resolves the stop target to a live serial, or reports the
/// correlation miss: a device absent from the live listing cannot
/// be stopped.
pub fn resolve_stop_serial(devices_out: &str, id: &str) -> (r: Result<String, LifecycleError>)
    ensures
        match r {
            Ok(s) => target_serial_from(lines_spec(devices_out@), id@) == Some(s@),
            Err(e) => target_serial_from(lines_spec(devices_out@), id@) is None && (e matches
            LifecycleError::NotFound { detail } && detail@ == "Emulator '"@ + id@
                + "' not found in running devices"@),
        },
{
    match find_target_serial(devices_out, id) {
        Some(s) => Ok(s),
        None => {
            let mut detail = "Emulator '".to_owned();
            detail.append(id);
            detail.append("' not found in running devices");
            Err(LifecycleError::NotFound { detail })
        },
    }
}

/// The error text of a graceful stop whose kill command failed.
pub fn stop_failure_message(serial: &str, stderr: &str) -> (r: String)
    ensures
        r@ == "Failed to stop emulator "@ + serial@ + ": "@ + stderr@,
{
    let mut m = "Failed to stop emulator ".to_owned();
    m.append(serial);
    m.append(": ");
    m.append(stderr);
    m
}

/// The error text of a deletion that exited with a failure: the
/// tool's stderr, else its stdout, else a synthesized message
/// naming the device.
pub fn delete_failure_message(id: &str, stderr: &str, stdout: &str) -> (r: String)
    ensures
        r@ == crate::model::exit_message_spec(stderr@, stdout@, "Failed to delete AVD: "@ + id@),
{
    let mut fallback = "Failed to delete AVD: ".to_owned();
    fallback.append(id);
    crate::model::exit_failure_message(stderr, stdout, fallback)
}

} // verus!

//! iOS simulator enumeration.
//!
//! The platform toolchain reports simulators as one JSON document:
//! a `devices` object keyed by runtime identifier, each runtime
//! holding an array of device objects. An outside parser turns the
//! document into flat records; everything decided from the records
//! is verified here.

use vstd::prelude::*;
use vstd::string::*;
use crate::model::IOSSimulator;
use crate::text::{remove_all, remove_all_spec, str_eq};

verus! {

/// One simulator entry of the JSON document, as plain values: the
/// runtime key it sat under, and the fields of its device object,
/// each absent when the object lacks it.
pub struct SimRecord {
    pub runtime: String,
    pub udid: Option<String>,
    pub name: Option<String>,
    pub state: Option<String>,
    pub device_type: Option<String>,
}

/// The simulator records of a `simctl list devices --json` document:
/// a function of the document text alone. A text that is not valid
/// JSON, or lacks the `devices` object, yields no records.
pub uninterp spec fn simctl_records_of(s: Seq<char>) -> Seq<SimRecord>;

/// Relies on serde_json::from_str: parses the listing document and
/// flattens its `devices` object into records, one per device object,
/// in document order.
#[verifier::external_body]
pub fn parse_simctl_json(out: &str) -> (r: Vec<SimRecord>)
    ensures
        r@ == simctl_records_of(out@),
{
    let mut recs = Vec::new();
    let v: serde_json::Value = match serde_json::from_str(out) { Ok(v) => v, Err(_) => return recs };
    if let Some(devs) = v["devices"].as_object() {
        for (rt, arr) in devs {
            for d in arr.as_array().into_iter().flatten() {
                recs.push(SimRecord { runtime: rt.clone(), udid: d["udid"].as_str().map(String::from),
                    name: d["name"].as_str().map(String::from), state: d["state"].as_str().map(String::from),
                    device_type: d["deviceTypeIdentifier"].as_str().map(String::from) });
            }
        }
    }
    recs
}

/// Whether a record carries the three fields a listing entry needs.
pub open spec fn is_complete(rec: SimRecord) -> bool {
    rec.udid is Some && rec.name is Some && rec.state is Some
}

/// The records complete enough to list, in order.
pub open spec fn complete_recs(recs: Seq<SimRecord>) -> Seq<SimRecord>
    decreases recs.len(),
{
    if recs.len() == 0 {
        Seq::empty()
    } else {
        let pre = complete_recs(recs.drop_last());
        if is_complete(recs.last()) {
            pre.push(recs.last())
        } else {
            pre
        }
    }
}

/// The prefix the toolchain puts before every device-type identifier.
pub open spec fn device_type_prefix() -> Seq<char> {
    "com.apple.CoreSimulator.SimDeviceType."@
}

/// The prefix the toolchain puts before every runtime identifier.
pub open spec fn runtime_prefix() -> Seq<char> {
    "com.apple.CoreSimulator.SimRuntime."@
}

/// What the listing must report for one complete record: the device
/// id is the udid; a `Booted` state means running, any other state
/// stopped; the device type is the identifier (the reported name
/// when the object lacks one) with the toolchain prefix removed; the
/// runtime key with its prefix removed is the OS version.
pub open spec fn ios_sim_ok(d: IOSSimulator, rec: SimRecord) -> bool {
    &&& d.id@ == rec.udid->0@
    &&& d.name@ == rec.name->0@
    &&& d.status@ == (if rec.state->0@ == "Booted"@ {
        "running"@
    } else {
        "stopped"@
    })
    &&& d.device_type@ == remove_all_spec(
        match rec.device_type {
            Some(t) => t@,
            None => rec.name->0@,
        },
        device_type_prefix(),
    )
    &&& d.os_version@ == remove_all_spec(rec.runtime@, runtime_prefix())
}

/// Builds the simulator listing from the parsed records: one entry
/// per complete record, in document order.
pub fn build_ios_simulators(records: &Vec<SimRecord>) -> (r: Vec<IOSSimulator>)
    ensures
        r@.len() == complete_recs(records@).len(),
        forall|k: int|
            0 <= k < r@.len() ==> ios_sim_ok(#[trigger] r@[k], complete_recs(records@)[k]),
{
    let mut out: Vec<IOSSimulator> = Vec::new();
    let mut i: usize = 0;
    let ghost full = records@;
    proof {
        assert(full.take(0) =~= Seq::<SimRecord>::empty());
    }
    while i < records.len()
        invariant
            0 <= i <= full.len(),
            full == records@,
            out@.len() == complete_recs(full.take(i as int)).len(),
            forall|k: int|
                0 <= k < out@.len() ==> ios_sim_ok(
                    #[trigger] out@[k],
                    complete_recs(full.take(i as int))[k],
                ),
        decreases full.len() - i,
    {
        proof {
            assert(full.take(i + 1).drop_last() =~= full.take(i as int));
            assert(full.take(i + 1).last() == full[i as int]);
        }
        let rec = &records[i];
        match (&rec.udid, &rec.name, &rec.state) {
            (Some(udid), Some(name), Some(state)) => {
                let status = if str_eq(state.as_str(), "Booted") {
                    "running".to_owned()
                } else {
                    "stopped".to_owned()
                };
                let type_src = match &rec.device_type {
                    Some(t) => t.as_str(),
                    None => name.as_str(),
                };
                let device_type = remove_all(
                    type_src,
                    "com.apple.CoreSimulator.SimDeviceType.",
                );
                let os_version = remove_all(
                    rec.runtime.as_str(),
                    "com.apple.CoreSimulator.SimRuntime.",
                );
                let d = IOSSimulator {
                    id: udid.clone(),
                    name: name.clone(),
                    device_type,
                    os_version,
                    status,
                };
                proof {
                    assert(is_complete(full[i as int]));
                    assert(ios_sim_ok(d, full[i as int]));
                }
                out.push(d);
            },
            _ => {
                proof {
                    assert(!is_complete(full[i as int]));
                }
            },
        }
        i = i + 1;
    }
    proof {
        assert(full.take(full.len() as int) =~= full);
    }
    out
}

/// The full iOS listing pass over the captured listing document.
pub fn list_ios_simulators(json_out: &str) -> (r: Vec<IOSSimulator>)
    ensures
        r@.len() == complete_recs(simctl_records_of(json_out@)).len(),
        forall|k: int|
            0 <= k < r@.len() ==> ios_sim_ok(
                #[trigger] r@[k],
                complete_recs(simctl_records_of(json_out@))[k],
            ),
{
    let records = parse_simctl_json(json_out);
    build_ios_simulators(&records)
}

/// No two entries of an iOS listing share an id, as long as the
/// document reports pairwise distinct udids: the id of every entry
/// is its record's udid.
pub proof fn lemma_ios_listing_ids_distinct(r: Seq<IOSSimulator>, recs: Seq<SimRecord>)
    requires
        r.len() == complete_recs(recs).len(),
        forall|k: int| 0 <= k < r.len() ==> ios_sim_ok(#[trigger] r[k], complete_recs(recs)[k]),
        forall|i: int, j: int|
            0 <= i < j < complete_recs(recs).len() ==> (#[trigger] complete_recs(
                recs,
            )[i]).udid->0@ != (#[trigger] complete_recs(recs)[j]).udid->0@,
    ensures
        forall|i: int, j: int| 0 <= i < j < r.len() ==> r[i].id@ != r[j].id@,
{
}

} // verus!

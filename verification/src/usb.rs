//! Decoding the native USB probe's fixed-layout device records.
//!
//! The probe fills an array of fixed-size records: a type tag,
//! null-terminated byte buffers for the text fields, and two flags.
//! This module owns the decoding: buffer truncation at the first
//! null, byte decoding (the system-local code page on Windows,
//! UTF-8 elsewhere), the tag-to-platform mapping, and which flag
//! applies to which platform.

use vstd::prelude::*;
use vstd::string::*;

verus! {

/// The platform tags the probe reports.
pub const DEV_ANDROID: i32 = 0;

pub const DEV_IOS: i32 = 1;

pub const DEV_HARMONY: i32 = 2;

/// One record of the probe, as plain values.
pub struct UsbRecord {
    pub device_type: i32,
    pub name: Vec<u8>,
    pub serial: Vec<u8>,
    pub brand: Vec<u8>,
    pub vendor_id: Vec<u8>,
    pub product_id: Vec<u8>,
    pub usb_debugging: bool,
    pub trusted: bool,
}

/// One connected device, decoded for the caller.
#[derive(Debug)]
pub struct UsbDevice {
    pub device_type: String,
    pub name: String,
    pub serial: String,
    pub brand: String,
    pub vendor_id: String,
    pub product_id: String,
    pub usb_debugging: Option<bool>,
    pub trusted: Option<bool>,
}

/// Where the first null byte sits, or the buffer's end.
pub open spec fn nul_pos(b: Seq<u8>) -> int
    decreases b.len(),
{
    if b.len() == 0 || b[0] == 0 {
        0
    } else {
        1 + nul_pos(b.skip(1))
    }
}

pub proof fn lemma_nul_pos(b: Seq<u8>, i: int)
    requires
        0 <= i <= b.len(),
        forall|k: int| 0 <= k < i ==> b[k] != 0,
        i < b.len() ==> b[i] == 0,
    ensures
        nul_pos(b) == i,
    decreases i,
{
    if i > 0 {
        assert forall|k: int| 0 <= k < i - 1 implies b.skip(1)[k] != 0 by {
            assert(b.skip(1)[k] == b[k + 1]);
        }
        if i - 1 < b.skip(1).len() {
            assert(b.skip(1)[i - 1] == b[i]);
        }
        lemma_nul_pos(b.skip(1), i - 1);
    }
}

/// The bytes of a null-terminated buffer: everything before the
/// first null, or the whole buffer when none occurs.
pub open spec fn c_bytes(b: Seq<u8>) -> Seq<u8> {
    b.take(nul_pos(b))
}

/// Truncates a probe buffer at its first null byte.
pub fn c_buf_to_bytes(buf: &[u8]) -> (r: Vec<u8>)
    ensures
        r@ == c_bytes(buf@),
{
    let n = buf.len();
    let mut i: usize = 0;
    while i < n && buf[i] != 0
        invariant
            0 <= i <= n == buf@.len(),
            forall|k: int| 0 <= k < i ==> buf@[k] != 0,
        decreases n - i,
    {
        i = i + 1;
    }
    proof {
        lemma_nul_pos(buf@, i as int);
    }
    let mut out: Vec<u8> = Vec::new();
    let mut k: usize = 0;
    while k < i
        invariant
            0 <= k <= i <= buf@.len(),
            out@ == buf@.take(i as int).take(k as int),
        decreases i - k,
    {
        out.push(buf[k]);
        proof {
            assert(out@ =~= buf@.take(i as int).take(k + 1));
        }
        k = k + 1;
    }
    proof {
        assert(buf@.take(i as int).take(i as int) =~= buf@.take(i as int));
    }
    out
}

/// Whether every byte is plain ASCII.
pub open spec fn ascii_bytes(b: Seq<u8>) -> bool {
    forall|k: int| 0 <= k < b.len() ==> (#[trigger] b[k]) < 0x80
}

/// The characters of an ASCII byte sequence.
pub open spec fn ascii_chars(b: Seq<u8>) -> Seq<char> {
    b.map_values(|x: u8| x as char)
}

/// The lossy UTF-8 reading of a byte sequence: a function of the
/// bytes alone.
pub uninterp spec fn utf8_lossy_of(b: Seq<u8>) -> Seq<char>;

/// Relies on String::from_utf8_lossy: valid UTF-8 decodes to its
/// own characters — so plain ASCII bytes decode one to one — and
/// invalid sequences become replacement characters.
#[verifier::external_body]
fn utf8_lossy(b: &[u8]) -> (r: String)
    ensures
        r@ == utf8_lossy_of(b@),
        ascii_bytes(b@) ==> r@ == ascii_chars(b@),
        b@.len() == 0 ==> r@.len() == 0,
{
    String::from_utf8_lossy(b).into_owned()
}

/// The system-local (GBK) reading of a byte sequence: a function of
/// the bytes alone.
pub uninterp spec fn gbk_decoded(b: Seq<u8>) -> Seq<char>;

/// Relies on encoding_rs::GBK, method decode: the decoded text of
/// the bytes, with malformed sequences replaced; empty input decodes
/// to empty text.
#[verifier::external_body]
fn gbk_decode(b: &[u8]) -> (r: String)
    ensures
        r@ == gbk_decoded(b@),
        b@.len() == 0 ==> r@.len() == 0,
{
    let (decoded, _, _) = encoding_rs::GBK.decode(b);
    decoded.into_owned()
}

/// Decodes a plain-ASCII probe field (serial, vendor and product
/// ids) after null truncation.
pub fn decode_ascii_string(buf: &[u8]) -> (r: String)
    ensures
        r@ == utf8_lossy_of(c_bytes(buf@)),
        ascii_bytes(c_bytes(buf@)) ==> r@ == ascii_chars(c_bytes(buf@)),
{
    let bytes = c_buf_to_bytes(buf);
    utf8_lossy(bytes.as_slice())
}

/// Decodes a text probe field after null truncation: the
/// system-local code page on Windows, UTF-8 elsewhere; an empty
/// buffer decodes to empty text either way.
pub fn decode_c_string(buf: &[u8], windows: bool) -> (r: String)
    ensures
        windows ==> r@ == gbk_decoded(c_bytes(buf@)),
        !windows ==> r@ == utf8_lossy_of(c_bytes(buf@)),
        c_bytes(buf@).len() == 0 ==> r@.len() == 0,
{
    let bytes = c_buf_to_bytes(buf);
    if windows {
        gbk_decode(bytes.as_slice())
    } else {
        utf8_lossy(bytes.as_slice())
    }
}

/// The platform name of a probe tag.
pub open spec fn type_name_spec(t: i32) -> Seq<char> {
    if t == DEV_ANDROID {
        "android"@
    } else if t == DEV_IOS {
        "ios"@
    } else if t == DEV_HARMONY {
        "harmony"@
    } else {
        "unknown"@
    }
}

/// Maps a probe tag to its platform name.
pub fn usb_type_name(t: i32) -> (r: String)
    ensures
        r@ == type_name_spec(t),
{
    if t == DEV_ANDROID {
        "android".to_owned()
    } else if t == DEV_IOS {
        "ios".to_owned()
    } else if t == DEV_HARMONY {
        "harmony".to_owned()
    } else {
        "unknown".to_owned()
    }
}

/// What the decoding of one record must yield: each text field
/// truncated and decoded, the tag mapped to its platform name, the
/// debugging flag reported for every platform but iOS, and the
/// trust flag for iOS alone.
pub open spec fn usb_device_ok(d: UsbDevice, rec: UsbRecord, windows: bool) -> bool {
    &&& d.device_type@ == type_name_spec(rec.device_type)
    &&& d.name@ == (if windows {
        gbk_decoded(c_bytes(rec.name@))
    } else {
        utf8_lossy_of(c_bytes(rec.name@))
    })
    &&& d.brand@ == (if windows {
        gbk_decoded(c_bytes(rec.brand@))
    } else {
        utf8_lossy_of(c_bytes(rec.brand@))
    })
    &&& d.serial@ == utf8_lossy_of(c_bytes(rec.serial@))
    &&& d.vendor_id@ == utf8_lossy_of(c_bytes(rec.vendor_id@))
    &&& d.product_id@ == utf8_lossy_of(c_bytes(rec.product_id@))
    &&& d.usb_debugging == (if rec.device_type == DEV_IOS {
        None::<bool>
    } else {
        Some(rec.usb_debugging)
    })
    &&& d.trusted == (if rec.device_type == DEV_IOS {
        Some(rec.trusted)
    } else {
        None::<bool>
    })
}

/// Decodes one probe record.
pub fn decode_usb_device(rec: &UsbRecord, windows: bool) -> (r: UsbDevice)
    ensures
        usb_device_ok(r, *rec, windows),
{
    UsbDevice {
        device_type: usb_type_name(rec.device_type),
        name: decode_c_string(rec.name.as_slice(), windows),
        serial: decode_ascii_string(rec.serial.as_slice()),
        brand: decode_c_string(rec.brand.as_slice(), windows),
        vendor_id: decode_ascii_string(rec.vendor_id.as_slice()),
        product_id: decode_ascii_string(rec.product_id.as_slice()),
        usb_debugging: if rec.device_type == DEV_IOS {
            None
        } else {
            Some(rec.usb_debugging)
        },
        trusted: if rec.device_type == DEV_IOS {
            Some(rec.trusted)
        } else {
            None
        },
    }
}

/// Decodes a probe scan: a failed scan (the probe reported a
/// negative count) is the fixed error; a successful one decodes the
/// records the probe filled, in order.
pub fn list_usb_devices(scan: Option<&Vec<UsbRecord>>, windows: bool) -> (r: Result<
    Vec<UsbDevice>,
    String,
>)
    ensures
        match scan {
            None => (r matches Err(m) && m@ == "USB scan failed"@),
            Some(records) => r matches Ok(devices) && devices@.len() == records@.len() && (forall|
                i: int,
            |
                0 <= i < records@.len() ==> usb_device_ok(
                    #[trigger] devices@[i],
                    records@[i],
                    windows,
                )),
        },
{
    let records = match scan {
        None => {
            return Err("USB scan failed".to_owned());
        },
        Some(records) => records,
    };
    let mut out: Vec<UsbDevice> = Vec::new();
    let mut i: usize = 0;
    while i < records.len()
        invariant
            0 <= i <= records@.len(),
            out@.len() == i,
            forall|k: int| 0 <= k < i ==> usb_device_ok(#[trigger] out@[k], records@[k], windows),
        decreases records@.len() - i,
    {
        out.push(decode_usb_device(&records[i], windows));
        i = i + 1;
    }
    Ok(out)
}

} // verus!

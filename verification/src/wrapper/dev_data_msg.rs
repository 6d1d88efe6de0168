//! Device-data route messages: the distance-measurement envelope, its
//! parser, and the outbound description serialization.
//!
//! A frame is first checked as a whole for JSON validity; only then are
//! the envelope fields read, so a malformed frame is always told apart
//! from a well-formed one with missing or unexpected fields. The
//! envelope is the object `{"cmd": <n>, "data": {"id": [<a>, <b>],
//! "timestamp": <t>, "distance": <d>}}`: members may come in any order
//! and unknown members are ignored; `<d>` is a JSON number (exponent
//! form included) read in thousandths of a coordinate unit.

use vstd::prelude::*;
use vstd::string::StringSliceAdditionalSpecFns;

use crate::device::Description;
use crate::json::find_field;
use crate::json::is_digit_spec;
use crate::json::json_ok;
use crate::json::parse_milli;
use crate::json::parse_u32;
use crate::json::push_coord_dec;
use crate::json::push_dec_u32;
use crate::json::push_str_bytes;
use crate::json::skip_ws;
use crate::json::spec_coord_dec;
use crate::json::spec_dec;
use crate::json::spec_find_field;
use crate::json::spec_json_gas;
use crate::json::spec_json_ok;
use crate::json::spec_parse_milli;
use crate::json::spec_parse_u32;
use crate::json::spec_skip_ws;
use crate::json::spec_top_field;
use crate::json::spec_u32_token;
use crate::json::top_field;
use crate::json::u32_token;
use crate::utils::DevId;

verus! {

/// The message types of the device-data route, by their `cmd` value.
pub enum DevDataMsgType {
    DistMeasure,
}

/// The message type selected by a `cmd` value; `1` is a distance
/// measurement.
pub open spec fn spec_msg_type(cmd: u32) -> Option<DevDataMsgType> {
    if cmd == 1 {
        Some(DevDataMsgType::DistMeasure)
    } else {
        None
    }
}

pub fn msg_type_from_cmd(cmd: u32) -> (r: Option<DevDataMsgType>)
    ensures
        r == spec_msg_type(cmd),
{
    if cmd == 1 {
        Some(DevDataMsgType::DistMeasure)
    } else {
        None
    }
}

/// A distance measurement from the wire: the device pair, the sample
/// timestamp, and the distance in thousandths of a coordinate unit.
pub struct DevDataDistMeasure {
    pub id: [DevId; 2],
    pub timestamp: u32,
    pub distance: i64,
}

/// Outcome of parsing one device-data text frame.
pub enum DevDataParse {
    Measure(DevDataDistMeasure),
    UnknownCmd,
    LackCmd,
    BadMeasure,
    Invalid,
}

/// The id pair: an array of exactly two unsigned integer tokens.
pub open spec fn spec_id_pair(s: Seq<u8>, i: int) -> Option<(u32, u32)> {
    if !(0 <= i < s.len() && s[i] == 91) {
        None
    } else {
        let p1 = spec_skip_ws(s, i + 1);
        match spec_parse_u32(s, p1) {
            None => None,
            Some((a, e1)) => {
                let c = spec_skip_ws(s, e1);
                if !(c < s.len() && s[c] == 44) {
                    None
                } else {
                    let p2 = spec_skip_ws(s, c + 1);
                    match spec_parse_u32(s, p2) {
                        None => None,
                        Some((b, e2)) => {
                            let cl = spec_skip_ws(s, e2);
                            if cl < s.len() && s[cl] == 93 {
                                Some((a, b))
                            } else {
                                None
                            }
                        },
                    }
                }
            },
        }
    }
}

/// The measurement read from the `data` object's member list starting
/// at `i` (just after its opening brace).
pub open spec fn spec_extract_measure(s: Seq<u8>, i: int) -> Option<DevDataDistMeasure> {
    match spec_find_field(s, i, "id".spec_bytes(), spec_json_gas(s)) {
        None => None,
        Some(ip) => match spec_id_pair(s, ip) {
            None => None,
            Some((a, b)) => match spec_find_field(
                s,
                i,
                "timestamp".spec_bytes(),
                spec_json_gas(s),
            ) {
                None => None,
                Some(tp) => match spec_u32_token(s, tp) {
                    None => None,
                    Some(t) => match spec_find_field(
                        s,
                        i,
                        "distance".spec_bytes(),
                        spec_json_gas(s),
                    ) {
                        None => None,
                        Some(dp) => match spec_parse_milli(s, dp) {
                            None => None,
                            Some((d, _e)) => Some(
                                DevDataDistMeasure { id: [a, b], timestamp: t, distance: d as i64 },
                            ),
                        },
                    },
                },
            },
        },
    }
}

/// A measurement frame's `data` object, once the `cmd` selected a
/// distance measurement.
pub open spec fn spec_parse_measure(s: Seq<u8>) -> DevDataParse {
    match spec_top_field(s, "data".spec_bytes()) {
        None => DevDataParse::BadMeasure,
        Some(dp) => if !(dp < s.len() && s[dp] == 123) {
            DevDataParse::BadMeasure
        } else {
            match spec_extract_measure(s, dp + 1) {
                Some(m) => DevDataParse::Measure(m),
                None => DevDataParse::BadMeasure,
            }
        },
    }
}

/// One device-data text frame. JSON validity decides first: an invalid
/// frame is reported as such. A valid frame whose top level has no
/// numeric `cmd` member lacks its command; a numeric `cmd` that selects
/// no message type is unknown; a measurement frame must carry a
/// well-formed `data` object.
pub open spec fn spec_parse_envelope(s: Seq<u8>) -> DevDataParse {
    if !spec_json_ok(s) {
        DevDataParse::Invalid
    } else {
        match spec_top_field(s, "cmd".spec_bytes()) {
            None => DevDataParse::LackCmd,
            Some(p) => if !(p < s.len() && (s[p] == 45 || is_digit_spec(s[p]))) {
                DevDataParse::LackCmd
            } else {
                match spec_u32_token(s, p) {
                    Some(cmd) => match spec_msg_type(cmd) {
                        Some(DevDataMsgType::DistMeasure) => spec_parse_measure(s),
                        None => DevDataParse::UnknownCmd,
                    },
                    None => DevDataParse::UnknownCmd,
                }
            },
        }
    }
}

fn id_pair(s: &Vec<u8>, i: usize) -> (r: Option<(u32, u32)>)
    requires
        i <= s@.len(),
    ensures
        r == spec_id_pair(s@, i as int),
{
    if !(i < s.len() && s[i] == 91) {
        return None;
    }
    let p1 = skip_ws(s, i + 1);
    let (a, e1) = match parse_u32(s, p1) {
        Some(p) => p,
        None => {
            return None;
        },
    };
    let c = skip_ws(s, e1);
    if !(c < s.len() && s[c] == 44) {
        return None;
    }
    let p2 = skip_ws(s, c + 1);
    let (b, e2) = match parse_u32(s, p2) {
        Some(p) => p,
        None => {
            return None;
        },
    };
    let cl = skip_ws(s, e2);
    if cl < s.len() && s[cl] == 93 {
        Some((a, b))
    } else {
        None
    }
}

fn extract_measure(s: &Vec<u8>, i: usize) -> (r: Option<DevDataDistMeasure>)
    requires
        i <= s@.len(),
    ensures
        r == spec_extract_measure(s@, i as int),
{
    let ip = match find_field(s, i, "id", Ghost(spec_json_gas(s@))) {
        Some(p) => p,
        None => {
            return None;
        },
    };
    let ab = match id_pair(s, ip) {
        Some(p) => p,
        None => {
            return None;
        },
    };
    let tp = match find_field(s, i, "timestamp", Ghost(spec_json_gas(s@))) {
        Some(p) => p,
        None => {
            return None;
        },
    };
    let t = match u32_token(s, tp) {
        Some(t) => t,
        None => {
            return None;
        },
    };
    let dp = match find_field(s, i, "distance", Ghost(spec_json_gas(s@))) {
        Some(p) => p,
        None => {
            return None;
        },
    };
    let d = match parse_milli(s, dp) {
        Some(p) => p.0,
        None => {
            return None;
        },
    };
    Some(DevDataDistMeasure { id: [ab.0, ab.1], timestamp: t, distance: d })
}

/// Parses one device-data text frame.
pub fn parse_envelope(s: &Vec<u8>) -> (r: DevDataParse)
    ensures
        r == spec_parse_envelope(s@),
{
    if !json_ok(s) {
        return DevDataParse::Invalid;
    }
    let p = match top_field(s, "cmd") {
        Some(p) => p,
        None => {
            return DevDataParse::LackCmd;
        },
    };
    if !(p < s.len() && (s[p] == 45 || (48 <= s[p] && s[p] <= 57))) {
        return DevDataParse::LackCmd;
    }
    let cmd = match u32_token(s, p) {
        Some(c) => c,
        None => {
            return DevDataParse::UnknownCmd;
        },
    };
    match msg_type_from_cmd(cmd) {
        None => DevDataParse::UnknownCmd,
        Some(DevDataMsgType::DistMeasure) => {
            let dp = match top_field(s, "data") {
                Some(d) => d,
                None => {
                    return DevDataParse::BadMeasure;
                },
            };
            if !(dp < s.len() && s[dp] == 123) {
                return DevDataParse::BadMeasure;
            }
            match extract_measure(s, dp + 1) {
                Some(m) => DevDataParse::Measure(m),
                None => DevDataParse::BadMeasure,
            }
        },
    }
}

/// The JSON rendering of one description: coordinates go out on the
/// wire scale (units of one thousand, three fraction digits):
/// `{"pos":{"coords":[<x>,<y>,<z>],"timestamp":<t>},"id":<n>,"timestamp":<u>}`.
pub open spec fn spec_desc_json(d: Description) -> Seq<u8> {
    "{\"pos\":{\"coords\":[".spec_bytes() + spec_coord_dec(d.pos.coords.x as int) + ",".spec_bytes()
        + spec_coord_dec(d.pos.coords.y as int) + ",".spec_bytes() + spec_coord_dec(
        d.pos.coords.z as int,
    ) + "],\"timestamp\":".spec_bytes() + spec_dec(d.pos.timestamp as nat) + "},\"id\":".spec_bytes()
        + spec_dec(d.id as nat) + ",\"timestamp\":".spec_bytes() + spec_dec(d.timestamp as nat)
        + "}".spec_bytes()
}

/// The JSON rendering of a list of descriptions.
pub open spec fn spec_desc_items(ds: Seq<Description>, n: int) -> Seq<u8>
    decreases n,
{
    if n <= 0 {
        Seq::<u8>::empty()
    } else if n == 1 {
        spec_desc_json(ds[0])
    } else {
        spec_desc_items(ds, n - 1) + ",".spec_bytes() + spec_desc_json(ds[n - 1])
    }
}

pub open spec fn spec_desc_list_json(ds: Seq<Description>) -> Seq<u8> {
    "[".spec_bytes() + spec_desc_items(ds, ds.len() as int) + "]".spec_bytes()
}

fn push_desc_json(out: &mut Vec<u8>, d: &Description)
    ensures
        final(out)@ == old(out)@ + spec_desc_json(*d),
{
    push_str_bytes(out, "{\"pos\":{\"coords\":[");
    push_coord_dec(out, d.pos.coords.x);
    push_str_bytes(out, ",");
    push_coord_dec(out, d.pos.coords.y);
    push_str_bytes(out, ",");
    push_coord_dec(out, d.pos.coords.z);
    push_str_bytes(out, "],\"timestamp\":");
    push_dec_u32(out, d.pos.timestamp);
    push_str_bytes(out, "},\"id\":");
    push_dec_u32(out, d.id);
    push_str_bytes(out, ",\"timestamp\":");
    push_dec_u32(out, d.timestamp);
    push_str_bytes(out, "}");
    proof {
        assert(final(out)@ =~= old(out)@ + spec_desc_json(*d));
    }
}

/// Serializes a list of descriptions as a JSON array.
pub fn desc_list_json(ds: &Vec<Description>) -> (r: Vec<u8>)
    ensures
        r@ == spec_desc_list_json(ds@),
{
    let mut out: Vec<u8> = Vec::new();
    push_str_bytes(&mut out, "[");
    let n = ds.len();
    let mut i: usize = 0;
    while i < n
        invariant
            i <= n,
            n == ds@.len(),
            out@ == "[".spec_bytes() + spec_desc_items(ds@, i as int),
        decreases n - i,
    {
        if i > 0 {
            push_str_bytes(&mut out, ",");
        }
        push_desc_json(&mut out, &ds[i]);
        i += 1;
        proof {
            assert(out@ =~= "[".spec_bytes() + spec_desc_items(ds@, i as int));
        }
    }
    push_str_bytes(&mut out, "]");
    proof {
        assert(out@ =~= spec_desc_list_json(ds@));
    }
    out
}

} // verus!

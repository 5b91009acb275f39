//! The recognized session options and metadata, with their verified JSON
//! renderings for `options.json` and `meta.json`.

use vstd::prelude::*;
use crate::json::{json_string, json_string_of};
use crate::strutil::dec_digits;
use crate::strutil::u64_to_dec;

verus! {

/// Frame capture settings: the recorded resolution and the encoder rate.
#[derive(Clone, Debug)]
pub struct CaptureOptions {
    pub record_width: u32,
    pub record_height: u32,
    pub fps: u32,
}

/// Step timing: the step duration in milliseconds.
#[derive(Clone, Copy, PartialEq, Eq, Structural, Debug)]
pub struct TimingOptions {
    pub step_ms: u32,
}

/// The recognized session options.
#[derive(Clone, Debug)]
pub struct Options {
    pub capture: CaptureOptions,
    pub timing: TimingOptions,
}

/// The session metadata written once at the start.
#[derive(Clone, Debug)]
pub struct Meta {
    pub session_name: String,
    pub long_goal: String,
    pub mid_goal: String,
}

/// The `options.json` object of the recognized options.
pub open spec fn json_of_options(o: &Options) -> Seq<char> {
    "{\"capture\":{\"record_resolution\":["@ + dec_digits(o.capture.record_width as nat) + ","@
        + dec_digits(o.capture.record_height as nat) + "],\"fps\":"@ + dec_digits(
        o.capture.fps as nat,
    ) + "},\"timing\":{\"step_ms\":"@ + dec_digits(o.timing.step_ms as nat) + "}}"@
}

/// Renders the options object.
pub fn render_options_json(o: &Options) -> (r: String)
    ensures
        r@ == json_of_options(o),
{
    let mut out = "{\"capture\":{\"record_resolution\":[".to_owned();
    let w = u64_to_dec(o.capture.record_width as u64);
    out.append(w.as_str());
    out.append(",");
    let h = u64_to_dec(o.capture.record_height as u64);
    out.append(h.as_str());
    out.append("],\"fps\":");
    let f = u64_to_dec(o.capture.fps as u64);
    out.append(f.as_str());
    out.append("},\"timing\":{\"step_ms\":");
    let m = u64_to_dec(o.timing.step_ms as u64);
    out.append(m.as_str());
    out.append("}}");
    proof {
        assert(out@ =~= json_of_options(o));
    }
    out
}

/// The `meta.json` object of the session metadata.
pub open spec fn json_of_meta(m: &Meta) -> Seq<char> {
    "{\"session_name\":"@ + json_string(m.session_name@) + ",\"long_goal\":"@ + json_string(
        m.long_goal@,
    ) + ",\"mid_goal\":"@ + json_string(m.mid_goal@) + "}"@
}

/// Renders the metadata object.
pub fn render_meta_json(m: &Meta) -> (r: String)
    ensures
        r@ == json_of_meta(m),
{
    let mut out = "{\"session_name\":".to_owned();
    let n = json_string_of(m.session_name.as_str());
    out.append(n.as_str());
    out.append(",\"long_goal\":");
    let l = json_string_of(m.long_goal.as_str());
    out.append(l.as_str());
    out.append(",\"mid_goal\":");
    let g = json_string_of(m.mid_goal.as_str());
    out.append(g.as_str());
    out.append("}");
    proof {
        assert(out@ =~= json_of_meta(m));
    }
    out
}

} // verus!

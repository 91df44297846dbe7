//! The structured transcription report: decoded text, per-stage
//! wall-clock timings, and the provider summary, with its flat JSON
//! rendering.

use vstd::prelude::*;
use vstd::string::*;

use crate::text::{dec_str, u128_to_string};

verus! {

/// Wall-clock milliseconds per stage; purely observational.
#[derive(Debug, Clone)]
pub struct NativeTranscriptionTimings {
    pub feature_extraction_ms: u128,
    pub ort_run_ms: u128,
    pub decode_ms: u128,
    pub total_ms: u128,
}

impl Default for NativeTranscriptionTimings {
    fn default() -> (r: Self)
        ensures
            r.feature_extraction_ms == 0,
            r.ort_run_ms == 0,
            r.decode_ms == 0,
            r.total_ms == 0,
    {
        Self { feature_extraction_ms: 0, ort_run_ms: 0, decode_ms: 0, total_ms: 0 }
    }
}

/// What one transcription call reports back.
#[derive(Debug, Clone)]
pub struct NativeTranscriptionReport {
    pub text: String,
    pub timings: NativeTranscriptionTimings,
    pub provider_summary: String,
}

/// JSON escaping of the text from index `i` on: backslashes and double
/// quotes get a leading backslash, everything else passes through.
pub open spec fn escape_json_from(s: Seq<char>, i: int) -> Seq<char>
    decreases s.len() - i,
{
    if i < 0 || i >= s.len() {
        Seq::empty()
    } else {
        let head = if s[i] == '\\' {
            seq!['\\', '\\']
        } else if s[i] == '"' {
            seq!['\\', '"']
        } else {
            seq![s[i]]
        };
        head + escape_json_from(s, i + 1)
    }
}

pub open spec fn escape_json_spec(s: Seq<char>) -> Seq<char> {
    escape_json_from(s, 0)
}

/// Escapes backslashes and double quotes for embedding in JSON.
pub fn escape_json_string(value: &str) -> (r: String)
    ensures
        r@ == escape_json_spec(value@),
{
    let len = value.unicode_len();
    let mut out = String::new();
    let mut i: usize = 0;
    proof {
        assert(out@ + escape_json_from(value@, 0) =~= escape_json_from(value@, 0));
    }
    while i < len
        invariant
            i <= len,
            len == value@.len(),
            out@ + escape_json_from(value@, i as int) == escape_json_spec(value@),
        decreases len - i,
    {
        let ghost old_out = out@;
        let ghost head = if value@[i as int] == '\\' {
            seq!['\\', '\\']
        } else if value@[i as int] == '"' {
            seq!['\\', '"']
        } else {
            seq![value@[i as int]]
        };
        let c = value.get_char(i);
        if c == '\\' {
            out.append("\\\\");
            proof {
                reveal_strlit("\\\\");
                assert("\\\\"@ =~= seq!['\\', '\\']);
            }
        } else if c == '"' {
            out.append("\\\"");
            proof {
                reveal_strlit("\\\"");
                assert("\\\""@ =~= seq!['\\', '"']);
            }
        } else {
            let piece = value.substring_char(i, i + 1);
            proof {
                assert(piece@ =~= seq![value@[i as int]]);
            }
            out.append(piece);
        }
        proof {
            assert(out@ =~= old_out + head);
            assert((old_out + head) + escape_json_from(value@, i + 1) =~= old_out + (head
                + escape_json_from(value@, i + 1)));
        }
        i += 1;
    }
    proof {
        assert(escape_json_from(value@, i as int) =~= Seq::<char>::empty());
        assert(out@ + Seq::<char>::empty() =~= out@);
    }
    out
}

/// The flat JSON record consumed by the surrounding application.
pub open spec fn report_json_spec(
    provider: Seq<char>,
    feature_extraction_ms: int,
    ort_run_ms: int,
    decode_ms: int,
    total_ms: int,
) -> Seq<char> {
    "{\"provider\":\""@ + escape_json_spec(provider) + "\",\"feature_extraction_ms\":"@ + dec_str(
        feature_extraction_ms,
    ) + ",\"ort_run_ms\":"@ + dec_str(ort_run_ms) + ",\"decode_ms\":"@ + dec_str(decode_ms)
        + ",\"total_ms\":"@ + dec_str(total_ms) + "}"@
}

impl NativeTranscriptionReport {
    /// Renders the report as a flat JSON record with the provider
    /// summary escaped.
    pub fn to_json(&self) -> (r: String)
        ensures
            r@ == report_json_spec(
                self.provider_summary@,
                self.timings.feature_extraction_ms as int,
                self.timings.ort_run_ms as int,
                self.timings.decode_ms as int,
                self.timings.total_ms as int,
            ),
    {
        let safe_provider = escape_json_string(self.provider_summary.as_str());
        let mut out = String::new();
        out.append("{\"provider\":\"");
        out.append(safe_provider.as_str());
        out.append("\",\"feature_extraction_ms\":");
        out.append(u128_to_string(self.timings.feature_extraction_ms).as_str());
        out.append(",\"ort_run_ms\":");
        out.append(u128_to_string(self.timings.ort_run_ms).as_str());
        out.append(",\"decode_ms\":");
        out.append(u128_to_string(self.timings.decode_ms).as_str());
        out.append(",\"total_ms\":");
        out.append(u128_to_string(self.timings.total_ms).as_str());
        out.append("}");
        proof {
            assert(out@ =~= report_json_spec(
                self.provider_summary@,
                self.timings.feature_extraction_ms as int,
                self.timings.ort_run_ms as int,
                self.timings.decode_ms as int,
                self.timings.total_ms as int,
            ));
        }
        out
    }

    /// The report returned when the input yields zero frames: empty
    /// text, inference and decode timings at zero, and the inference
    /// backend never consulted.
    pub fn empty(provider_summary: String, feature_extraction_ms: u128, total_ms: u128) -> (r:
        Self)
        ensures
            r.text@ == Seq::<char>::empty(),
            r.timings.feature_extraction_ms == feature_extraction_ms,
            r.timings.ort_run_ms == 0,
            r.timings.decode_ms == 0,
            r.timings.total_ms == total_ms,
            r.provider_summary == provider_summary,
    {
        Self {
            text: String::new(),
            timings: NativeTranscriptionTimings {
                feature_extraction_ms,
                ort_run_ms: 0,
                decode_ms: 0,
                total_ms,
            },
            provider_summary,
        }
    }
}

} // verus!

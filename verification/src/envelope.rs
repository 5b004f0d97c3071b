//! The venue's response envelope.
//!
//! Every REST reply is `{status, data|messages, responsetime}`. Splitting
//! the JSON text into plain fields is the serde_json crate's work behind
//! one trusted wrapper; what the fields *mean* — when a reply is success,
//! which error it becomes otherwise — is decided here, verified, for every
//! value the wrapper could hand back. A success status without `data` is a
//! protocol violation surfaced as `Unknown`, never silently defaulted.

use vstd::prelude::*;
use crate::errors::GmocoinError;

verus! {

/// The envelope's plain fields as parsed, before any meaning is assigned:
/// the `status` number if one is there, the `data` field re-serialized as
/// JSON text, and each entry of `messages` reduced to its `message_string`
/// (or nothing, where an entry lacks one).
pub struct RawEnvelope {
    pub status: Option<i64>,
    pub data: Option<String>,
    pub messages: Option<Vec<Option<String>>>,
}

/// What parsing a reply yields: a function of the text alone. Its value
/// is not axiomatized here; it is the serde_json crate's computation.
pub uninterp spec fn raw_envelope_of(text: Seq<char>) -> Result<RawEnvelope, String>;

/// Relies on `serde_json::from_str` and `serde_json::Value`'s accessors
/// (`get`, `as_i64`, `as_array`, `as_str`, `to_string`): splits the reply
/// into its plain envelope fields, or hands back the parse error's text.
/// The outcome depends on the text alone.
#[verifier::external_body]
fn parse_envelope_fields(text: &str) -> (r: Result<RawEnvelope, String>)
    ensures
        r == raw_envelope_of(text@),
{
    let val: serde_json::Value = serde_json::from_str(text).map_err(|e| e.to_string())?;
    Ok(RawEnvelope {
        status: val.get("status").and_then(|v| v.as_i64()),
        data: val.get("data").map(|d| d.to_string()),
        messages: val.get("messages").and_then(|m| m.as_array()).map(|arr| {
            arr.iter()
                .map(|m| m.get("message_string").and_then(|s| s.as_str()).map(|s| s.to_string()))
                .collect()
        }),
    })
}

/// The message texts that are present, in order.
pub open spec fn spec_present(msgs: Seq<Option<String>>) -> Seq<Seq<char>>
    decreases msgs.len(),
{
    if msgs.len() == 0 {
        Seq::empty()
    } else {
        let rest = spec_present(msgs.drop_last());
        match msgs.last() {
            Some(m) => rest.push(m@),
            None => rest,
        }
    }
}

/// Message texts joined by a semicolon and a space.
pub open spec fn spec_join_semis(parts: Seq<Seq<char>>) -> Seq<char>
    decreases parts.len(),
{
    if parts.len() == 0 {
        Seq::empty()
    } else if parts.len() == 1 {
        parts[0]
    } else {
        spec_join_semis(parts.drop_last()) + "; "@ + parts.last()
    }
}

/// Join the present message texts with `"; "`, skipping absent ones.
pub fn join_messages(msgs: &Vec<Option<String>>) -> (r: String)
    ensures
        r@ == spec_join_semis(spec_present(msgs@)),
{
    let mut out = String::new();
    let mut count: usize = 0;
    let mut i: usize = 0;
    while i < msgs.len()
        invariant
            0 <= i <= msgs@.len(),
            count <= i,
            count == spec_present(msgs@.take(i as int)).len(),
            out@ == spec_join_semis(spec_present(msgs@.take(i as int))),
        decreases msgs@.len() - i,
    {
        proof {
            let t = msgs@.take(i + 1);
            assert(t.drop_last() == msgs@.take(i as int));
            assert(t.last() == msgs@[i as int]);
        }
        if let Some(m) = &msgs[i] {
            if count > 0 {
                out.append("; ");
            }
            out.append(m.as_str());
            count = count + 1;
            proof {
                let parts = spec_present(msgs@.take(i as int));
                let t = spec_present(msgs@.take(i + 1));
                assert(t == parts.push(msgs@[i as int]->0@));
                assert(t.drop_last() == parts);
            }
        }
        i = i + 1;
    }
    proof {
        assert(msgs@.take(i as int) == msgs@);
    }
    out
}

/// The envelope's `status` as the venue's signed code: absent or
/// non-numeric becomes -1, and a wider number is truncated.
pub open spec fn spec_status_code(status: Option<i64>) -> i32 {
    match status {
        Some(s) => s as i32,
        None => -1i32,
    }
}

/// What classifying an envelope yields.
///
/// A parse failure is a `ParseError` carrying the parser's text. A zero
/// status with data succeeds with the data's JSON text; without data it is
/// the `Unknown` protocol violation naming the reply. Any other status is
/// an `ExchangeError` holding the status and the joined message texts, or
/// a fallback naming the reply when `messages` is absent.
pub open spec fn spec_classifies(
    raw: Result<RawEnvelope, String>,
    text: Seq<char>,
    r: Result<String, GmocoinError>,
) -> bool {
    match raw {
        Err(e) => match r {
            Err(GmocoinError::ParseError(m)) => m@ == e@,
            _ => false,
        },
        Ok(env) => {
            let status = spec_status_code(env.status);
            if status == 0 {
                match env.data {
                    Some(d) => match r {
                        Ok(o) => o@ == d@,
                        _ => false,
                    },
                    None => match r {
                        Err(GmocoinError::Unknown(m)) => m@ == "status=0 but no data. Body: "@
                            + text,
                        _ => false,
                    },
                }
            } else {
                match r {
                    Err(GmocoinError::ExchangeError { status: st, messages: m }) => st == status
                        && m@ == (match env.messages {
                        Some(ms) => spec_join_semis(spec_present(ms@)),
                        None => "Unknown error. Body: "@ + text,
                    }),
                    _ => false,
                }
            }
        },
    }
}

/// Assign the envelope's meaning: success exactly when the status is zero
/// and data is present; every other shape is the error the envelope calls
/// for. Verified for every value of the parsed fields.
pub fn classify_envelope(raw: Result<RawEnvelope, String>, text: &str) -> (r: Result<
    String,
    GmocoinError,
>)
    ensures
        spec_classifies(raw, text@, r),
{
    match raw {
        Err(e) => Err(GmocoinError::ParseError(e)),
        Ok(env) => {
            let status: i32 = match env.status {
                Some(s) => #[verifier::truncate] (s as i32),
                None => -1,
            };
            if status == 0 {
                match env.data {
                    Some(d) => Ok(d),
                    None => {
                        let m = String::from_str("status=0 but no data. Body: ").concat(text);
                        Err(GmocoinError::Unknown(m))
                    },
                }
            } else {
                let messages = match &env.messages {
                    Some(ms) => join_messages(ms),
                    None => String::from_str("Unknown error. Body: ").concat(text),
                };
                Err(GmocoinError::ExchangeError { status, messages })
            }
        },
    }
}

/// Parse a reply and assign its meaning: the verified classification of
/// exactly what the parser yields for this text.
pub fn parse_response(text: &str) -> (r: Result<String, GmocoinError>)
    ensures
        spec_classifies(raw_envelope_of(text@), text@, r),
{
    let raw = parse_envelope_fields(text);
    classify_envelope(raw, text)
}

} // verus!

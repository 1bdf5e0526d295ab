//! The server status document: fields picked out of the JSON text a
//! status response carries. serde_json does the reading behind one
//! trusted extraction whose outcome is a function of the text alone;
//! shaping the result is verified against it.

use vstd::prelude::*;
use crate::Error;

verus! {

/// Whether serde_json parses the text as one JSON document; a function
/// of the text alone.
pub uninterp spec fn json_parses(s: Seq<char>) -> bool;

/// The status fields serde_json finds in the text, where it is a JSON
/// document carrying them: version name, protocol number, maximum and
/// online player counts, the description member's JSON text, and the
/// favicon string if one is present. A function of the text alone.
pub uninterp spec fn spec_status_fields(s: Seq<char>) -> Option<
    (Seq<char>, i64, i64, i64, Seq<char>, Option<Seq<char>>),
>;

/// Relies on serde_json (from_str::<Value>, Value::get, Value::as_str,
/// Value::as_i64, to_string): every call is deterministic in the
/// document text, so the whole extraction is a function of it. It
/// yields the fields exactly when the text is a JSON document whose
/// `version` member carries a string `name` and an integer `protocol`
/// and whose `players` member carries integer `max` and `online`, with
/// a `description` member present (kept as its JSON text); a `favicon`
/// member is passed through when it is a string. Printing a `Value`
/// back to text cannot fail.
#[verifier::external_body]
fn status_fields(s: &str) -> (r: Option<(String, i64, i64, i64, String, Option<String>)>)
    ensures
        (r is Some) == (spec_status_fields(s@) is Some),
        r matches Some(t) ==> spec_status_fields(s@) == Some(
            (
                t.0@,
                t.1,
                t.2,
                t.3,
                t.4@,
                match t.5 {
                    Some(f) => Some(f@),
                    None => None,
                },
            ),
        ),
        r is Some ==> json_parses(s@),
        !json_parses(s@) ==> r is None,
{
    let v: serde_json::Value = serde_json::from_str(s).ok()?;
    let version = v.get("version")?;
    let players = v.get("players")?;
    let name = version.get("name")?.as_str()?.to_owned();
    let protocol = version.get("protocol")?.as_i64()?;
    let max = players.get("max")?.as_i64()?;
    let online = players.get("online")?.as_i64()?;
    let description = serde_json::to_string(v.get("description")?).ok()?;
    let favicon = v.get("favicon").and_then(serde_json::Value::as_str).map(str::to_owned);
    Some((name, protocol, max, online, description, favicon))
}

/// One sampled player of the status document.
#[derive(Debug)]
pub struct StatusPlayer {
    name: String,
    id: String,
}

/// The player counts of the status document.
#[derive(Debug)]
pub struct StatusPlayers {
    pub max: i32,
    pub online: i32,
    pub sample: Vec<StatusPlayer>,
}

/// The version stanza of the status document.
#[derive(Debug)]
pub struct StatusVersion {
    pub name: String,
    pub protocol: i32,
}

/// A parsed server status: version, player counts, the description
/// component (kept as its JSON text) and the optional favicon data URL.
#[derive(Debug)]
pub struct Status {
    pub version: StatusVersion,
    pub players: StatusPlayers,
    pub description: String,
    pub favicon: Option<String>,
}

/// Pick the status fields out of a status response's JSON text: exactly
/// when the document carries them, the result holds them (counts
/// truncated to their 32-bit wire form). Text that is no JSON at all,
/// like a document missing a required member, is a `Json` error.
pub fn parse_status(s: &str) -> (r: Result<Status, Error>)
    ensures
        (r is Ok) <==> spec_status_fields(s@) is Some,
        r matches Ok(st) ==> (spec_status_fields(s@) matches Some(f) && st.version.name@ == f.0
            && st.version.protocol == f.1 as i32 && st.players.max == f.2 as i32
            && st.players.online == f.3 as i32 && st.players.sample@.len() == 0
            && st.description@ == f.4 && (match (st.favicon, f.5) {
            (Some(a), Some(b)) => a@ == b,
            (None, None) => true,
            _ => false,
        })),
        r matches Err(e) ==> e == Error::Json,
        !json_parses(s@) ==> r is Err,
{
    match status_fields(s) {
        None => Err(Error::Json),
        Some(t) => {
            let (name, protocol, max, online, description, favicon) = t;
            Ok(
                Status {
                    version: StatusVersion {
                        name,
                        protocol: #[verifier::truncate] (protocol as i32),
                    },
                    players: StatusPlayers {
                        max: #[verifier::truncate] (max as i32),
                        online: #[verifier::truncate] (online as i32),
                        sample: Vec::new(),
                    },
                    description,
                    favicon,
                },
            )
        },
    }
}

} // verus!

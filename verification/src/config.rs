//! Process configuration and presence values.
//!
//! Configuration is supplied once at startup: the chat-platform
//! credentials, a default presence, and the log verbosity. The presence
//! value itself belongs to the chat platform; this module treats it as
//! an opaque value and verifies only the logic around obtaining one.

use vstd::prelude::*;
use vstd::string::StringExecFns;

verus! {

#[verifier::external_type_specification]
#[verifier::external_body]
pub struct ExActivity(serenity::model::gateway::Activity);

/// Settings for the chat-platform connection.
pub struct Discord {
    pub token: String,
    pub appid: u64,
    pub status: serenity::model::gateway::Activity,
}

/// General process settings.
pub struct General {
    pub log: String,
}

/// The whole startup configuration.
pub struct Config {
    pub discord: Discord,
    pub general: General,
}

impl Default for General {
    /// By default no log filter is set.
    fn default() -> (r: General)
        ensures
            r.log@ == Seq::<char>::empty(),
    {
        General { log: String::new() }
    }
}

/// Relies on `serenity::model::gateway::Activity::playing`: builds the
/// presence advertised when no other status is configured.
#[verifier::external_body]
pub fn default_status() -> serenity::model::gateway::Activity {
    serenity::model::gateway::Activity::playing("\u{1fa90}\u{2728}")
}

/// Outcome of reading a presence value from JSON text: `None` when the
/// text is accepted, otherwise the diagnostic the reader reports.
pub uninterp spec fn presence_parse_diag(s: Seq<char>) -> Option<Seq<char>>;

/// Relies on `serde_json::from_str` together with serenity's
/// `Deserialize` impl for `Activity`: both read the input text alone,
/// so the outcome, and the diagnostic on rejection, are functions of it.
#[verifier::external_body]
fn parse_presence(s: &str) -> (r: Result<serenity::model::gateway::Activity, String>)
    ensures
        r is Ok <==> presence_parse_diag(s@) is None,
        r matches Err(e) ==> presence_parse_diag(s@) matches Some(d) && e@ == d,
{
    match serde_json::from_str::<serenity::model::gateway::Activity>(s) {
        Ok(a) => Ok(a),
        Err(e) => Err(format!("{}", e)),
    }
}

/// The reply shown when a requested presence value cannot be read.
pub open spec fn bad_parse_message(diag: Seq<char>) -> Seq<char> {
    "Bad parse: `"@ + diag + "`"@
}

/// Read an operator-supplied presence value. Returns the presence to
/// set, or the user-visible report naming the diagnostic.
pub fn parse_status(text: &str) -> (r: Result<serenity::model::gateway::Activity, String>)
    ensures
        r is Ok <==> presence_parse_diag(text@) is None,
        r matches Err(m) ==> presence_parse_diag(text@) matches Some(d) && m@ == bad_parse_message(
            d,
        ),
{
    match parse_presence(text) {
        Ok(a) => Ok(a),
        Err(e) => {
            let mut m = String::from_str("Bad parse: `");
            m.append(e.as_str());
            m.append("`");
            Err(m)
        },
    }
}

} // verus!

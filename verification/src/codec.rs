//! Line framing and decoding: one JSON value per newline-terminated line.
//!
//! The JSON syntax itself is serde_json's business; this module names what
//! its deterministic functions return over the text of a line, and builds
//! the verified framing and dispatch decisions on those names.

use vstd::prelude::*;
use vstd::string::StringExecFns;

verus! {

/// Whether one line of text is a well-formed JSON value.
pub uninterp spec fn json_parses(s: Seq<char>) -> bool;

/// The canonical text form of the line's identifier field, when the line
/// is well-formed JSON carrying one: a numeric identifier renders as its
/// digits, a string identifier with its quotes, so the two never collide.
pub uninterp spec fn json_id_of(s: Seq<char>) -> Option<Seq<char>>;

/// The canonical compact rendering of the JSON value a well-formed line
/// carries: no whitespace of its own, and every control character inside
/// string literals escaped, so the rendering never spans more than a line.
pub uninterp spec fn json_compact_of(s: Seq<char>) -> Seq<char>;

/// The optional result.userAgent string of a handshake response line.
pub uninterp spec fn json_user_agent_of(s: Seq<char>) -> Option<Seq<char>>;

/// The view of an optional string as an optional character sequence.
pub open spec fn opt_text(o: Option<String>) -> Option<Seq<char>> {
    match o {
        Some(s) => Some(s@),
        None => None,
    }
}

/// Text that stays on one line: it contains no newline character.
pub open spec fn one_line(s: Seq<char>) -> bool {
    forall|i: int| 0 <= i < s.len() ==> s[i] != '\n'
}

/// Two pieces of newline-free text concatenate to newline-free text.
pub proof fn lemma_one_line_concat(a: Seq<char>, b: Seq<char>)
    requires
        one_line(a),
        one_line(b),
    ensures
        one_line(a + b),
{
    assert forall|i: int| 0 <= i < (a + b).len() implies (a + b)[i] != '\n' by {
        if i < a.len() {
            assert((a + b)[i] == a[i]);
        } else {
            assert((a + b)[i] == b[i - a.len()]);
        }
    }
}

/// A well-formed inbound line, reduced to what routing reads of it: the
/// canonical compact rendering of its value and the canonical text of its
/// identifier field, if it has one.
pub struct DecodedLine {
    pub compact: String,
    pub id: Option<String>,
}

/// Relies on serde_json::from_str::<Value> to decide whether the line is a
/// well-formed JSON value, on Value::get to look up its "id" field, and on
/// Value's Display (the compact serializer) to render the whole value and
/// the identifier in canonical text form. All three are deterministic
/// functions of the text alone (objects are kept as ordered maps), and the
/// compact rendering writes no raw newline: the formatter emits no
/// whitespace of its own and escapes every control character inside string
/// literals. On a parse failure the error's rendering is returned instead.
#[verifier::external_body]
pub(crate) fn decode_json_line(line: &str) -> (r: Result<DecodedLine, String>)
    ensures
        (r is Ok) <==> json_parses(line@),
        r matches Ok(d) ==> d.compact@ == json_compact_of(line@) && opt_text(d.id) == json_id_of(
            line@,
        ) && d.compact@.len() > 0 && one_line(d.compact@),
{
    match serde_json::from_str::<serde_json::Value>(line) {
        Ok(v) => {
            let id = match v.get("id") {
                Some(i) => Some(i.to_string()),
                None => None,
            };
            Ok(DecodedLine { compact: v.to_string(), id })
        },
        Err(e) => Err(e.to_string()),
    }
}

/// Relies on serde_json::from_str::<Value>, Value::get and Value::as_str to
/// read the optional result.userAgent string out of a handshake response
/// line; a deterministic function of the text alone, None when the line
/// does not parse or carries no such string.
#[verifier::external_body]
pub(crate) fn read_user_agent(line: &str) -> (r: Option<String>)
    ensures
        opt_text(r) == json_user_agent_of(line@),
{
    let v: serde_json::Value = serde_json::from_str(line).ok()?;
    let ua = v.get("result")?.get("userAgent")?.as_str()?;
    Some(ua.to_owned())
}

/// How one caller-supplied payload is dispatched: rejected outright, written
/// as a fire-and-forget notification, or written as a request whose response
/// must be awaited under the payload's canonical identifier.
pub enum SendPlan {
    /// The payload is not one well-formed JSON value; `error` describes why.
    Invalid { error: String },
    /// The payload carries no identifier: write `line`, await nothing.
    Notify { line: String },
    /// The payload carries identifier `id`: register a waiter under it,
    /// then write `line`.
    Request { id: String, line: String },
}

/// Decides how a payload is sent. The returned line is the payload's
/// canonical compact rendering, which stays on one line, and the returned
/// identifier is the payload's own in canonical text form, so the response
/// that carries the same identifier resolves exactly this request.
pub fn plan_send(payload: &str) -> (r: SendPlan)
    ensures
        (r is Invalid) <==> !json_parses(payload@),
        (r is Notify) <==> (json_parses(payload@) && json_id_of(payload@) is None),
        (r is Request) <==> (json_parses(payload@) && json_id_of(payload@) is Some),
        r matches SendPlan::Notify { line } ==> line@ == json_compact_of(payload@) && one_line(
            line@,
        ),
        r matches SendPlan::Request { id, line } ==> Some(id@) == json_id_of(payload@) && line@
            == json_compact_of(payload@) && one_line(line@),
{
    match decode_json_line(payload) {
        Err(error) => SendPlan::Invalid { error },
        Ok(d) => match d.id {
            Some(id) => SendPlan::Request { id, line: d.compact },
            None => SendPlan::Notify { line: d.compact },
        },
    }
}

/// Frames one outbound message: the line followed by the single newline
/// terminator that delimits messages on the wire.
pub fn frame_line(line: &str) -> (r: String)
    ensures
        r@ == line@ + seq!['\n'],
{
    let mut out = String::from_str(line);
    out.append("\n");
    proof {
        reveal_strlit("\n");
        assert(line@ + "\n"@ =~= line@ + seq!['\n']);
    }
    out
}

} // verus!


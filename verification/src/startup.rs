//! Start-time decisions: the client identity and its handshake lines, the
//! binary path's resolution, the working-directory check, and the start
//! result handed back to the caller.

use vstd::prelude::*;
use vstd::string::StringExecFns;
use crate::codec::json_user_agent_of;
use crate::codec::lemma_one_line_concat;
use crate::codec::one_line;
use crate::codec::opt_text;
use crate::codec::read_user_agent;
use crate::escape::escape_text;
use crate::escape::json_escape;
use crate::escape::lemma_escape_text_no_control;
use crate::is_blank;
use crate::is_blank_text;

verus! {

/// The static descriptor sent once during the initialization handshake.
#[derive(Debug, Clone)]
pub struct ClientInfo {
    pub name: String,
    pub title: String,
    pub version: String,
}

impl Default for ClientInfo {
    /// The identity used when the caller supplies none.
    fn default() -> (r: Self)
        ensures
            r.name@ == "codexeasy"@,
            r.title@ == "Codex Easy GUI"@,
            r.version@ == "0.1.0"@,
    {
        ClientInfo {
            name: String::from_str("codexeasy"),
            title: String::from_str("Codex Easy GUI"),
            version: String::from_str("0.1.0"),
        }
    }
}

/// What a successful start reports back: the user agent the subprocess
/// negotiated (if any), the binary that was launched, and the working
/// directory it was launched in (if one was given).
#[derive(Debug)]
pub struct StartResult {
    pub user_agent: Option<String>,
    pub binary_path: String,
    pub working_directory: Option<String>,
}

/// The binary launched for a given optional path: the path itself when one
/// was supplied and is not whitespace only, the default name otherwise.
pub open spec fn resolved_binary_text(binary_path: Option<Seq<char>>) -> Seq<char> {
    match binary_path {
        Some(p) => if !is_blank_text(p) {
            p
        } else {
            "codex"@
        },
        None => "codex"@,
    }
}

/// Resolves which binary to launch.
pub fn resolve_binary(binary_path: &Option<String>) -> (r: String)
    ensures
        r@ == resolved_binary_text(match binary_path {
            Some(p) => Some(p@),
            None => None,
        }),
{
    match binary_path {
        Some(p) => {
            if !is_blank(p.as_str()) {
                p.clone()
            } else {
                String::from_str("codex")
            }
        },
        None => String::from_str("codex"),
    }
}

/// Checks a caller-supplied working directory ahead of the spawn. The
/// caller of this decision reports what the filesystem says of the path:
/// whether it exists, and whether it is a directory. No directory at all is
/// acceptable; a supplied one must exist and be a directory, and each
/// failure is reported with the offending path.
pub fn validate_working_directory(path: &Option<String>, exists: bool, is_dir: bool) -> (r: Result<
    (),
    String,
>)
    ensures
        path is None ==> r is Ok,
        exists && is_dir ==> r is Ok,
        path matches Some(dir) ==> (!exists ==> (r matches Err(m) && m@
            == "Workspace path does not exist: "@ + dir@)),
        path matches Some(dir) ==> (exists && !is_dir ==> (r matches Err(m) && m@
            == "Workspace path is not a directory: "@ + dir@)),
{
    match path {
        Some(dir) => {
            if !exists {
                let mut m = String::from_str("Workspace path does not exist: ");
                m.append(dir.as_str());
                Err(m)
            } else if !is_dir {
                let mut m = String::from_str("Workspace path is not a directory: ");
                m.append(dir.as_str());
                Err(m)
            } else {
                Ok(())
            }
        },
        None => Ok(()),
    }
}

/// The one line of the initialization request: identifier 0, method
/// "initialize", and the client identity under params.clientInfo, each
/// string embedded in escaped form.
pub open spec fn init_request_text(name: Seq<char>, title: Seq<char>, version: Seq<char>) -> Seq<
    char,
> {
    "{\"id\":0,\"method\":\"initialize\",\"params\":{\"clientInfo\":{\"name\":\""@ + escape_text(
        name,
    ) + "\",\"title\":\""@ + escape_text(title) + "\",\"version\":\""@ + escape_text(version)
        + "\"}}}"@
}

/// Whatever strings the client identity holds, its initialization request
/// is one line: escaping leaves no newline anywhere in it.
pub proof fn lemma_init_request_is_one_line(name: Seq<char>, title: Seq<char>, version: Seq<char>)
    ensures
        one_line(init_request_text(name, title, version)),
{
    let l1 = "{\"id\":0,\"method\":\"initialize\",\"params\":{\"clientInfo\":{\"name\":\""@;
    let l2 = "\",\"title\":\""@;
    let l3 = "\",\"version\":\""@;
    let l4 = "\"}}}"@;
    reveal_strlit("{\"id\":0,\"method\":\"initialize\",\"params\":{\"clientInfo\":{\"name\":\"");
    reveal_strlit("\",\"title\":\"");
    reveal_strlit("\",\"version\":\"");
    reveal_strlit("\"}}}");
    assert(one_line(l1));
    assert(one_line(l2));
    assert(one_line(l3));
    assert(one_line(l4));
    lemma_escape_text_no_control(name);
    lemma_escape_text_no_control(title);
    lemma_escape_text_no_control(version);
    assert(one_line(escape_text(name)));
    assert(one_line(escape_text(title)));
    assert(one_line(escape_text(version)));
    lemma_one_line_concat(l1, escape_text(name));
    lemma_one_line_concat(l1 + escape_text(name), l2);
    lemma_one_line_concat(l1 + escape_text(name) + l2, escape_text(title));
    lemma_one_line_concat(l1 + escape_text(name) + l2 + escape_text(title), l3);
    lemma_one_line_concat(
        l1 + escape_text(name) + l2 + escape_text(title) + l3,
        escape_text(version),
    );
    lemma_one_line_concat(
        l1 + escape_text(name) + l2 + escape_text(title) + l3 + escape_text(version),
        l4,
    );
}

/// Builds the initialization request line for a client identity.
pub fn init_request_line(client: &ClientInfo) -> (r: String)
    ensures
        r@ == init_request_text(client.name@, client.title@, client.version@),
        one_line(r@),
{
    proof {
        lemma_init_request_is_one_line(client.name@, client.title@, client.version@);
    }
    let mut r = String::from_str(
        "{\"id\":0,\"method\":\"initialize\",\"params\":{\"clientInfo\":{\"name\":\"",
    );
    let name = json_escape(client.name.as_str());
    r.append(name.as_str());
    r.append("\",\"title\":\"");
    let title = json_escape(client.title.as_str());
    r.append(title.as_str());
    r.append("\",\"version\":\"");
    let version = json_escape(client.version.as_str());
    r.append(version.as_str());
    r.append("\"}}}");
    r
}

/// The one line of the "initialized" notification that follows the
/// handshake response; it carries no identifier.
pub fn initialized_notification_line() -> (r: String)
    ensures
        r@ == "{\"method\":\"initialized\",\"params\":{}}"@,
        one_line(r@),
{
    proof {
        reveal_strlit("{\"method\":\"initialized\",\"params\":{}}");
    }
    String::from_str("{\"method\":\"initialized\",\"params\":{}}")
}

/// The one line of the synthetic error payload delivered to every request
/// still outstanding when the supervised process is stopped.
pub fn stopped_error_line() -> (r: String)
    ensures
        r@ == "{\"error\":{\"message\":\"codex app-server stopped\"}}"@,
        one_line(r@),
{
    proof {
        reveal_strlit("{\"error\":{\"message\":\"codex app-server stopped\"}}");
    }
    String::from_str("{\"error\":{\"message\":\"codex app-server stopped\"}}")
}

/// Concludes a successful start: reads the negotiated user agent out of the
/// handshake response line and assembles the start result around the
/// resolved binary and the working directory the caller supplied.
pub fn complete_handshake(response_line: &str, binary_path: String, working_directory: Option<
    String,
>) -> (r: StartResult)
    ensures
        opt_text(r.user_agent) == json_user_agent_of(response_line@),
        r.binary_path == binary_path,
        r.working_directory == working_directory,
{
    StartResult {
        user_agent: read_user_agent(response_line),
        binary_path,
        working_directory,
    }
}

} // verus!

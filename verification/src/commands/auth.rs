//! `dopbase login`, `logout` and `project delete`: the checks on a typed
//! runner token and the messages these commands print.

use crate::client::{trimmed, trim_chars};
use crate::text::{decimal, string_from_chars, u64_to_string};
use vstd::prelude::*;
use vstd::string::*;

verus! {

/// The message for an empty runner token.
pub open spec fn empty_runner_token_message() -> Seq<char> {
    "Runner token cannot be empty."@
}

/// A runner token read from standard input, without surrounding
/// whitespace; an empty token is refused.
pub fn piped_runner_token(input: &str) -> (res: Result<String, String>)
    ensures
        trimmed(input@).len() == 0 ==> (res matches Err(m) && m@ == empty_runner_token_message()),
        trimmed(input@).len() > 0 ==> (res matches Ok(t) && t@ == trimmed(input@)),
{
    let chars = trim_chars(input);
    if chars.len() == 0 {
        return Err("Runner token cannot be empty.".to_owned());
    }
    Ok(string_from_chars(&chars))
}

/// A runner token typed at a prompt is kept as typed; an empty token is
/// refused.
pub fn typed_runner_token(input: String) -> (res: Result<String, String>)
    ensures
        input@.len() == 0 ==> (res matches Err(m) && m@ == empty_runner_token_message()),
        input@.len() > 0 ==> res == Ok::<String, String>(input),
{
    if input.as_str().unicode_len() == 0 {
        return Err("Runner token cannot be empty.".to_owned());
    }
    Ok(input)
}

/// What `dopbase login` reports.
pub fn login_message(runner_token: bool, server_url: &str) -> (res: String)
    ensures
        runner_token ==> res@ == "Saved a runner token for "@ + server_url@ + "."@,
        !runner_token ==> res@ == "Logged in to "@ + server_url@ + "."@,
{
    let mut res = if runner_token {
        "Saved a runner token for ".to_owned()
    } else {
        "Logged in to ".to_owned()
    };
    res.append(server_url);
    res.append(".");
    res
}

/// What `dopbase logout` reports.
pub fn logout_message(server_url: &str) -> (res: String)
    ensures
        res@ == "Logged out from "@ + server_url@ + "."@,
{
    let mut res = "Logged out from ".to_owned();
    res.append(server_url);
    res.append(".");
    res
}

/// The confirmation asked before deleting a project with its environments.
pub fn delete_project_prompt(name: &str, environments: usize) -> (res: String)
    ensures
        res@ == "Delete project "@ + name@ + " and its "@ + decimal(environments as nat)
            + " environment(s)?"@,
{
    let mut res = "Delete project ".to_owned();
    res.append(name);
    res.append(" and its ");
    let n = u64_to_string(environments as u64);
    res.append(n.as_str());
    res.append(" environment(s)?");
    res
}

/// The path that lists a project's environments, its reference encoded for
/// the query.
pub fn project_environments_path(project: &str) -> (res: String)
    ensures
        res@ == "/api/v1/environments?project="@ + crate::client::urlencoded(project.spec_bytes()),
{
    let mut res = "/api/v1/environments?project=".to_owned();
    let encoded = crate::client::encode_query(project);
    res.append(encoded.as_str());
    res
}

} // verus!

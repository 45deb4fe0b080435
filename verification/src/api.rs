//! The paths of the server's REST API that the client calls.

use crate::client::{encode_query, urlencoded};
use vstd::prelude::*;
use vstd::string::*;

verus! {

/// The health check.
pub const HEALTH: &'static str = "/api/v1/health";

/// Password login.
pub const AUTH_LOGIN: &'static str = "/api/v1/auth/login";

/// The current session.
pub const AUTH_SESSION: &'static str = "/api/v1/auth/session";

/// Password confirmation for plaintext access.
pub const AUTH_REAUTHENTICATE: &'static str = "/api/v1/auth/reauthenticate";

/// The projects.
pub const PROJECTS: &'static str = "/api/v1/projects";

/// A project with its first environment and secrets, in one request.
pub const PROJECTS_INIT: &'static str = "/api/v1/projects/init";

fn concat3(a: &str, b: &str, c: &str) -> (res: String)
    ensures
        res@ == a@ + b@ + c@,
{
    let mut res = a.to_owned();
    res.append(b);
    res.append(c);
    res
}

/// One project, by ID or name.
pub fn project_item(project: &str) -> (res: String)
    ensures
        res@ == "/api/v1/projects/"@ + project@,
{
    let mut res = "/api/v1/projects/".to_owned();
    res.append(project);
    res
}

/// The environments of one project.
pub fn project_environments(project: &str) -> (res: String)
    ensures
        res@ == "/api/v1/projects/"@ + project@ + "/environments"@,
{
    concat3("/api/v1/projects/", project, "/environments")
}

/// All environments, or those of one project.
pub fn environments(project: Option<&str>) -> (res: String)
    ensures
        match project {
            Some(p) => res@ == "/api/v1/environments?project="@ + urlencoded(p.spec_bytes()),
            None => res@ == "/api/v1/environments"@,
        },
{
    match project {
        Some(p) => {
            let encoded = encode_query(p);
            let mut res = "/api/v1/environments?project=".to_owned();
            res.append(encoded.as_str());
            res
        },
        None => "/api/v1/environments".to_owned(),
    }
}

/// The environment a reference (ID or `project/environment`) names.
pub fn resolve_environment(reference: &str) -> (res: String)
    ensures
        res@ == "/api/v1/environments/resolve?reference="@ + urlencoded(reference.spec_bytes()),
{
    let encoded = encode_query(reference);
    let mut res = "/api/v1/environments/resolve?reference=".to_owned();
    res.append(encoded.as_str());
    res
}

/// One environment.
pub fn environment_item(id: &str) -> (res: String)
    ensures
        res@ == "/api/v1/environments/"@ + id@,
{
    let mut res = "/api/v1/environments/".to_owned();
    res.append(id);
    res
}

/// The secrets of an environment.
pub fn secrets(id: &str) -> (res: String)
    ensures
        res@ == "/api/v1/environments/"@ + id@ + "/secrets"@,
{
    concat3("/api/v1/environments/", id, "/secrets")
}

/// One secret of an environment.
pub fn secret_item(id: &str, key: &str) -> (res: String)
    ensures
        res@ == "/api/v1/environments/"@ + id@ + "/secrets/"@ + key@,
{
    let mut res = "/api/v1/environments/".to_owned();
    res.append(id);
    res.append("/secrets/");
    res.append(key);
    res
}

/// The plaintext of one secret.
pub fn secret_reveal(id: &str, key: &str) -> (res: String)
    ensures
        res@ == "/api/v1/environments/"@ + id@ + "/secrets/"@ + key@ + "/reveal"@,
{
    let mut res = "/api/v1/environments/".to_owned();
    res.append(id);
    res.append("/secrets/");
    res.append(key);
    res.append("/reveal");
    res
}

/// The bulk import of an environment's secrets.
pub fn secrets_import(id: &str) -> (res: String)
    ensures
        res@ == "/api/v1/environments/"@ + id@ + "/secrets/import"@,
{
    concat3("/api/v1/environments/", id, "/secrets/import")
}

/// The plaintext export of an environment's secrets.
pub fn secrets_export(id: &str) -> (res: String)
    ensures
        res@ == "/api/v1/environments/"@ + id@ + "/secrets/export"@,
{
    concat3("/api/v1/environments/", id, "/secrets/export")
}

/// The runner tokens of an environment.
pub fn tokens(id: &str) -> (res: String)
    ensures
        res@ == "/api/v1/environments/"@ + id@ + "/tokens"@,
{
    concat3("/api/v1/environments/", id, "/tokens")
}

/// The revocation of a token.
pub fn token_revoke(token_id: &str) -> (res: String)
    ensures
        res@ == "/api/v1/tokens/"@ + token_id@ + "/revoke"@,
{
    concat3("/api/v1/tokens/", token_id, "/revoke")
}

} // verus!

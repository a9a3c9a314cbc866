//! SSH target resolution: how a bare id, a project, or a server turns into a
//! connectable target.

use vstd::prelude::*;

use crate::error::{Error, ErrorCode};
use crate::server::Server;

verus! {

/// What the caller asked to connect to.
#[derive(Debug, Clone)]
pub struct SshResolveArgs {
    pub id: Option<String>,
    pub project: Option<String>,
    pub server: Option<String>,
}

/// A resolved, ready-to-connect target.
#[derive(Debug, Clone)]
pub struct SshResolveResult {
    pub resolved_type: String,
    pub project_id: Option<String>,
    pub server_id: String,
    pub server: Server,
    pub base_path: Option<String>,
}

/// At least one of the three ways of naming a target must be given.
pub fn ssh_args_named(args: &SshResolveArgs) -> (r: bool)
    ensures
        r == (args.id is Some || args.project is Some || args.server is Some),
{
    args.id.is_some() || args.project.is_some() || args.server.is_some()
}

/// The slice of a project record that target resolution reads.
#[derive(Debug, Clone)]
pub struct ProjectRef {
    pub id: String,
    pub server_id: Option<String>,
    pub base_path: Option<String>,
}

/// How a target was chosen: through a project's configured server, or as a
/// server named directly.
#[derive(Debug, Clone)]
pub enum SshTarget {
    ViaProject { project: ProjectRef },
    ViaServer { server_id: String },
}

/// Chooses what to connect to. A forced project or server wins; a bare id
/// tries the project records first, then the servers; naming nothing at all
/// is rejected before any lookup matters.
pub fn choose_ssh_target(
    args: &SshResolveArgs,
    project_lookup: Option<ProjectRef>,
    server_found: bool,
) -> (r: Result<SshTarget, Error>)
    ensures
        (args.id is None && args.project is None && args.server is None) ==> (r matches Err(e)
            && e.code == ErrorCode::ValidationMissingArgument),
        args.project is Some ==> (match r {
            Ok(t) => project_lookup matches Some(p) && t matches SshTarget::ViaProject {
                project,
            } && project.id@ == p.id@,
            Err(e) => project_lookup is None && e.code == ErrorCode::ProjectNotFound,
        }),
        args.project is None ==> (args.server matches Some(sid) ==> (match r {
            Ok(t) => server_found && (t matches SshTarget::ViaServer { server_id }
                && server_id@ == sid@),
            Err(e) => !server_found && e.code == ErrorCode::ServerNotFound,
        })),
        args.project is None && args.server is None ==> (args.id matches Some(bare) ==> (match r {
            Ok(t) => match t {
                SshTarget::ViaProject { project } => project_lookup matches Some(p)
                    && project.id@ == p.id@,
                SshTarget::ViaServer { server_id } => project_lookup is None && server_found
                    && server_id@ == bare@,
            },
            Err(e) => project_lookup is None && !server_found && e.code
                == ErrorCode::ValidationInvalidArgument && e.message@
                == "No matching project or server"@,
        })),
{
    if args.id.is_none() && args.project.is_none() && args.server.is_none() {
        let mut accepted: Vec<String> = Vec::new();
        accepted.push(String::from_str("<id>"));
        accepted.push(String::from_str("--project"));
        accepted.push(String::from_str("--server"));
        return Err(Error::validation_missing_argument(accepted));
    }
    if let Some(project_id) = &args.project {
        return match project_lookup {
            Some(p) => Ok(SshTarget::ViaProject { project: p }),
            None => Err(Error::project_not_found(project_id.clone())),
        };
    }
    if let Some(server_id) = &args.server {
        return if server_found {
            Ok(SshTarget::ViaServer { server_id: server_id.clone() })
        } else {
            Err(Error::server_not_found(server_id.clone()))
        };
    }
    let bare = match &args.id {
        Some(b) => b,
        None => {
            proof {
                assert(false);
            }
            return Err(Error::other(String::from_str("No matching project or server")));
        },
    };
    match project_lookup {
        Some(p) => Ok(SshTarget::ViaProject { project: p }),
        None => {
            if server_found {
                Ok(SshTarget::ViaServer { server_id: bare.clone() })
            } else {
                Err(
                    Error::validation_invalid_argument(
                        "id",
                        String::from_str("No matching project or server"),
                        Some(bare.clone()),
                        None,
                    ),
                )
            }
        },
    }
}

/// The server a project connects through: its configured server id, or a
/// validation error when none is configured.
pub fn project_server_id(project: &ProjectRef) -> (r: Result<String, Error>)
    ensures
        r is Ok <==> project.server_id is Some,
        match r {
            Ok(sid) => project.server_id matches Some(s) && sid@ == s@,
            Err(e) => e.code == ErrorCode::ValidationInvalidArgument && e.message@
                == "Server not configured for project"@,
        },
{
    match &project.server_id {
        Some(sid) => Ok(sid.clone()),
        None => Err(
            Error::validation_invalid_argument(
                "project.server_id",
                String::from_str("Server not configured for project"),
                None,
                None,
            ),
        ),
    }
}

/// Finishes resolution once the server record is loaded: a server missing
/// its host or user is rejected, with the empty fields named; otherwise the
/// ready-to-connect result carries the project context when there was one.
pub fn finish_ssh_resolution(
    via_project: Option<ProjectRef>,
    server_id: String,
    server: Server,
) -> (r: Result<SshResolveResult, Error>)
    ensures
        r is Ok <==> (server.host@.len() > 0 && server.user@.len() > 0),
        match r {
            Ok(res) => {
                &&& res.resolved_type@ == (if via_project is Some {
                    "project"@
                } else {
                    "server"@
                })
                &&& (match via_project {
                    Some(p) => res.project_id matches Some(pid) && pid@ == p.id@
                        && crate::version::opt_string_view(res.base_path)
                        == crate::version::opt_string_view(p.base_path),
                    None => res.project_id is None && res.base_path is None,
                })
                &&& res.server_id@ == server_id@
                &&& res.server.host@ == server.host@
                &&& res.server.user@ == server.user@
            },
            Err(e) => {
                &&& e.code == ErrorCode::SshServerInvalid
                &&& e.hints.deep_view() == (if server.host@.len() == 0 {
                    seq!["host"@]
                } else {
                    Seq::<Seq<char>>::empty()
                }) + (if server.user@.len() == 0 {
                    seq!["user"@]
                } else {
                    Seq::<Seq<char>>::empty()
                })
            },
        },
{
    if !server.is_valid() {
        let mut missing: Vec<String> = Vec::new();
        if server.host.as_str().is_empty() {
            missing.push(String::from_str("host"));
        }
        if server.user.as_str().is_empty() {
            missing.push(String::from_str("user"));
        }
        proof {
            assert(missing.deep_view() =~~= (if server.host@.len() == 0 {
                seq!["host"@]
            } else {
                Seq::<Seq<char>>::empty()
            }) + (if server.user@.len() == 0 {
                seq!["user"@]
            } else {
                Seq::<Seq<char>>::empty()
            }));
        }
        return Err(Error::ssh_server_invalid(server_id, missing));
    }
    match via_project {
        Some(p) => Ok(
            SshResolveResult {
                resolved_type: String::from_str("project"),
                project_id: Some(p.id),
                server_id,
                server,
                base_path: p.base_path,
            },
        ),
        None => Ok(
            SshResolveResult {
                resolved_type: String::from_str("server"),
                project_id: None,
                server_id,
                server,
                base_path: None,
            },
        ),
    }
}

} // verus!

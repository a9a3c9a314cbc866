//! The command-line surface: argument and output records for each command.

pub mod api_cmd;
pub mod deploy_cmd;
pub mod deploy_run;
pub mod docs_cmd;
pub mod fleet_cmd;
pub mod git_cmd;
pub mod init_cmd;
pub mod lint_cmd;
pub mod pin_cmd;
pub mod project_cmd;
pub mod projects_cmd;
pub mod ssh_cmd;
pub mod version_cmd;
pub mod wp_cmd;

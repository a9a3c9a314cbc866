use vstd::prelude::*;

pub mod bulk;
pub mod changelog;
pub mod cli;
pub mod config;
pub mod deploy;
pub mod docs;
pub mod error;
pub mod files;
pub mod module_config;
pub mod pipeline;
pub mod release;
pub mod release_plan;
pub mod release_steps;
pub mod server;
pub mod shell;
pub mod ssh;
pub mod text;
pub mod token;
pub mod version;

verus! {

/// Clamps a process exit code into the range a shell exit status can carry.
pub fn exit_code_to_u8(code: i32) -> (r: u8)
    ensures
        code <= 0 ==> r == 0,
        code >= 255 ==> r == 255,
        0 < code < 255 ==> r == code,
{
    if code <= 0 {
        0
    } else if code >= 255 {
        255
    } else {
        code as u8
    }
}

/// The process exit code of a command result: the carried code on success,
/// one on error.
pub fn extract_exit_code<T>(result: &Result<(T, i32), error::Error>) -> (r: i32)
    ensures
        result matches Ok(p) ==> r == p.1,
        result is Err ==> r == 1,
{
    match result {
        Ok((_, code)) => *code,
        Err(_) => 1,
    }
}

} // verus!

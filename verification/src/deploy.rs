//! Deployment planning: what to do with an artifact, and the exact remote
//! commands each method runs. Executing the commands (ssh, scp) is the
//! caller's job; everything decided here is a plain value.

use vstd::prelude::*;

use crate::shell::{quote_path, spec_quote_path};
use crate::text::{spec_ends_with, str_ends_with};

verus! {

/// The outcome of one deployment, as the caller reports it.
#[derive(Debug, Clone)]
pub struct DeployResult {
    pub success: bool,
    pub exit_code: i32,
    pub error: Option<String>,
}

impl DeployResult {
    /// A successful deployment with the given exit code.
    pub fn success(exit_code: i32) -> (r: DeployResult)
        ensures
            r.success == true,
            r.exit_code == exit_code,
            r.error is None,
    {
        DeployResult { success: true, exit_code, error: None }
    }

    /// A failed deployment with its exit code and error text.
    pub fn failure(exit_code: i32, error: String) -> (r: DeployResult)
        ensures
            r.success == false,
            r.exit_code == exit_code,
            r.error matches Some(e) && e@ == error@,
    {
        DeployResult { success: false, exit_code, error: Some(error) }
    }
}

/// Whether a path carries one of the given suffixes.
pub fn is_tarball(path: &str, extensions: &Vec<&str>) -> (r: bool)
    ensures
        r == exists|i: int|
            0 <= i < extensions@.len() && spec_ends_with(path@, (#[trigger] extensions@[i])@),
{
    let mut i: usize = 0;
    while i < extensions.len()
        invariant
            0 <= i <= extensions@.len(),
            forall|j: int|
                0 <= j < i ==> !spec_ends_with(path@, (#[trigger] extensions@[j])@),
        decreases extensions@.len() - i,
    {
        if str_ends_with(path, extensions[i]) {
            proof {
                assert(spec_ends_with(path@, (extensions@[i as int])@));
            }
            return true;
        }
        i = i + 1;
    }
    false
}

/// How an artifact is deployed, decided from its path.
#[derive(Debug, Clone, PartialEq, Eq, Structural)]
pub enum DeployMethod {
    /// A directory is copied recursively.
    Directory,
    /// A zip archive is uploaded, unzipped remotely, and removed.
    Zip,
    /// A tar archive is uploaded, extracted with these semantics, and removed.
    TarGz,
    TarBz2,
    Tar,
    /// Anything else is copied as a single file.
    File,
}

/// The method chosen for a local path. The caller says whether the path is a
/// directory, since only the file system knows.
pub fn deploy_artifact(local_path: &str, is_directory: bool) -> (r: DeployMethod)
    ensures
        is_directory ==> r == DeployMethod::Directory,
        !is_directory && spec_ends_with(local_path@, ".zip"@) ==> r == DeployMethod::Zip,
        !is_directory && !spec_ends_with(local_path@, ".zip"@) && (spec_ends_with(
            local_path@,
            ".tar.gz"@,
        ) || spec_ends_with(local_path@, ".tgz"@)) ==> r == DeployMethod::TarGz,
        !is_directory && !spec_ends_with(local_path@, ".zip"@) && !spec_ends_with(
            local_path@,
            ".tar.gz"@,
        ) && !spec_ends_with(local_path@, ".tgz"@) && (spec_ends_with(local_path@, ".tar.bz2"@)
            || spec_ends_with(local_path@, ".tbz2"@)) ==> r == DeployMethod::TarBz2,
        !is_directory && !spec_ends_with(local_path@, ".zip"@) && !spec_ends_with(
            local_path@,
            ".tar.gz"@,
        ) && !spec_ends_with(local_path@, ".tgz"@) && !spec_ends_with(local_path@, ".tar.bz2"@)
            && !spec_ends_with(local_path@, ".tbz2"@) && spec_ends_with(local_path@, ".tar"@)
            ==> r == DeployMethod::Tar,
        !is_directory && !spec_ends_with(local_path@, ".zip"@) && !spec_ends_with(
            local_path@,
            ".tar.gz"@,
        ) && !spec_ends_with(local_path@, ".tgz"@) && !spec_ends_with(local_path@, ".tar.bz2"@)
            && !spec_ends_with(local_path@, ".tbz2"@) && !spec_ends_with(local_path@, ".tar"@)
            ==> r == DeployMethod::File,
{
    if is_directory {
        DeployMethod::Directory
    } else if str_ends_with(local_path, ".zip") {
        DeployMethod::Zip
    } else if str_ends_with(local_path, ".tar.gz") || str_ends_with(local_path, ".tgz") {
        DeployMethod::TarGz
    } else if str_ends_with(local_path, ".tar.bz2") || str_ends_with(local_path, ".tbz2") {
        DeployMethod::TarBz2
    } else if str_ends_with(local_path, ".tar") {
        DeployMethod::Tar
    } else {
        DeployMethod::File
    }
}

/// The command that creates a remote directory.
pub open spec fn spec_mkdir_cmd(path: Seq<char>) -> Seq<char> {
    "mkdir -p "@ + spec_quote_path(path)
}

/// Builds `mkdir -p '<path>'`.
pub fn mkdir_command(path: &str) -> (r: String)
    ensures
        r@ == spec_mkdir_cmd(path@),
{
    let q = quote_path(path);
    let mut out = String::from_str("mkdir -p ");
    out.append(q.as_str());
    out
}

/// The staged name an uploaded archive gets in the target directory.
pub open spec fn spec_staged_name(file_name: Seq<char>) -> Seq<char> {
    ".homeboy-"@ + file_name
}

/// Builds the temporary name an archive is uploaded under.
pub fn staged_archive_name(file_name: &str) -> (r: String)
    ensures
        r@ == spec_staged_name(file_name@),
{
    let mut out = String::from_str(".homeboy-");
    out.append(file_name);
    out
}

/// The plan for copying a directory: make the parent, then copy recursively.
#[derive(Debug, Clone)]
pub struct DirectoryDeployPlan {
    pub mkdir_command: String,
    pub remote_path: String,
}

/// Plans a recursive directory deployment; `remote_parent` is the directory
/// that must exist before the copy.
pub fn deploy_directory(remote_parent: &str, remote_path: &str) -> (r: DirectoryDeployPlan)
    ensures
        r.mkdir_command@ == spec_mkdir_cmd(remote_parent@),
        r.remote_path@ == remote_path@,
{
    DirectoryDeployPlan {
        mkdir_command: mkdir_command(remote_parent),
        remote_path: String::from_str(remote_path),
    }
}

/// The plan for an archive deployment: make the directory, upload to the
/// staged name, then run the extract-and-cleanup command.
#[derive(Debug, Clone)]
pub struct ArchiveDeployPlan {
    pub mkdir_command: String,
    pub upload_path: String,
    pub extract_command: String,
}

/// The command that unpacks and removes a staged zip archive.
pub open spec fn spec_unzip_cmd(dir: Seq<char>, staged: Seq<char>) -> Seq<char> {
    "cd "@ + spec_quote_path(dir) + " && unzip -o "@ + spec_quote_path(staged) + " && rm "@
        + spec_quote_path(staged)
}

/// Plans a zip deployment into `remote_path`, staging the archive under the
/// hidden name derived from its file name.
pub fn deploy_zip(remote_path: &str, zip_file_name: &str) -> (r: ArchiveDeployPlan)
    ensures
        r.mkdir_command@ == spec_mkdir_cmd(remote_path@),
        r.upload_path@ == remote_path@ + "/"@ + spec_staged_name(zip_file_name@),
        r.extract_command@ == spec_unzip_cmd(remote_path@, spec_staged_name(zip_file_name@)),
{
    let staged = staged_archive_name(zip_file_name);
    let mut upload = String::from_str(remote_path);
    upload.append("/");
    upload.append(staged.as_str());
    let qdir = quote_path(remote_path);
    let qstaged = quote_path(staged.as_str());
    let mut extract = String::from_str("cd ");
    extract.append(qdir.as_str());
    extract.append(" && unzip -o ");
    extract.append(qstaged.as_str());
    extract.append(" && rm ");
    extract.append(qstaged.as_str());
    ArchiveDeployPlan {
        mkdir_command: mkdir_command(remote_path),
        upload_path: upload,
        extract_command: extract,
    }
}

/// The command that unpacks and removes a staged tar archive with the given
/// extraction flags.
pub open spec fn spec_untar_cmd(dir: Seq<char>, flags: Seq<char>, staged: Seq<char>) -> Seq<
    char,
> {
    "cd "@ + spec_quote_path(dir) + " && tar "@ + flags + " "@ + spec_quote_path(staged)
        + " && rm "@ + spec_quote_path(staged)
}

/// Plans a tarball deployment into `remote_path` with the given tar flags.
pub fn deploy_tarball(remote_path: &str, tar_file_name: &str, tar_flags: &str) -> (r:
    ArchiveDeployPlan)
    ensures
        r.mkdir_command@ == spec_mkdir_cmd(remote_path@),
        r.upload_path@ == remote_path@ + "/"@ + spec_staged_name(tar_file_name@),
        r.extract_command@ == spec_untar_cmd(
            remote_path@,
            tar_flags@,
            spec_staged_name(tar_file_name@),
        ),
{
    let staged = staged_archive_name(tar_file_name);
    let mut upload = String::from_str(remote_path);
    upload.append("/");
    upload.append(staged.as_str());
    let qdir = quote_path(remote_path);
    let qstaged = quote_path(staged.as_str());
    let mut extract = String::from_str("cd ");
    extract.append(qdir.as_str());
    extract.append(" && tar ");
    extract.append(tar_flags);
    extract.append(" ");
    extract.append(qstaged.as_str());
    extract.append(" && rm ");
    extract.append(qstaged.as_str());
    ArchiveDeployPlan {
        mkdir_command: mkdir_command(remote_path),
        upload_path: upload,
        extract_command: extract,
    }
}

/// The plan for a single-file deployment: make the parent, then copy.
#[derive(Debug, Clone)]
pub struct FileDeployPlan {
    pub mkdir_command: String,
    pub remote_path: String,
}

/// Plans a single-file deployment; `remote_parent` is the directory that
/// must exist before the copy.
pub fn deploy_file(remote_parent: &str, remote_path: &str) -> (r: FileDeployPlan)
    ensures
        r.mkdir_command@ == spec_mkdir_cmd(remote_parent@),
        r.remote_path@ == remote_path@,
{
    FileDeployPlan {
        mkdir_command: mkdir_command(remote_parent),
        remote_path: String::from_str(remote_path),
    }
}

/// The two permission-fixing commands run after a deployment: group write on
/// directories first (some hosts refuse it), then on files.
pub open spec fn spec_fix_perm_cmd(kind: Seq<char>, path: Seq<char>) -> Seq<char> {
    "find "@ + spec_quote_path(path) + " -type "@ + kind
        + " -exec chmod g+w {} + 2>/dev/null || true"@
}

/// Builds the directory and file permission-fix commands for a remote path.
pub fn fix_deployed_permissions(remote_path: &str) -> (r: (String, String))
    ensures
        r.0@ == spec_fix_perm_cmd("d"@, remote_path@),
        r.1@ == spec_fix_perm_cmd("f"@, remote_path@),
{
    let q = quote_path(remote_path);
    let mut dirs = String::from_str("find ");
    dirs.append(q.as_str());
    dirs.append(" -type d -exec chmod g+w {} + 2>/dev/null || true");
    let mut files = String::from_str("find ");
    files.append(q.as_str());
    files.append(" -type f -exec chmod g+w {} + 2>/dev/null || true");
    proof {
        reveal_strlit(" -type d -exec chmod g+w {} + 2>/dev/null || true");
        reveal_strlit(" -type f -exec chmod g+w {} + 2>/dev/null || true");
        reveal_strlit(" -type ");
        reveal_strlit("d");
        reveal_strlit("f");
        reveal_strlit(" -exec chmod g+w {} + 2>/dev/null || true");
        assert(dirs@ =~= spec_fix_perm_cmd("d"@, remote_path@));
        assert(files@ =~= spec_fix_perm_cmd("f"@, remote_path@));
    }
    (dirs, files)
}

/// A stage of an archive or file deployment whose failure has its own
/// wording.
#[derive(Debug, Clone, Copy, PartialEq, Eq, Structural)]
pub enum DeployStage {
    CreateRemoteDir,
    ExtractZip,
    ExtractTarball,
}

/// The error prefix each failing stage reports.
pub open spec fn spec_stage_prefix(stage: DeployStage) -> Seq<char> {
    match stage {
        DeployStage::CreateRemoteDir => "Failed to create remote directory: "@,
        DeployStage::ExtractZip => "Failed to extract ZIP: "@,
        DeployStage::ExtractTarball => "Failed to extract tarball: "@,
    }
}

/// Maps what a deployment stage's remote command returned into a structured
/// result: a failing stage yields a failure carrying the stage's wording and
/// the command's error output, never an error of the library's own.
pub fn deploy_stage_result(
    stage: DeployStage,
    success: bool,
    exit_code: i32,
    stderr: &str,
) -> (r: DeployResult)
    ensures
        success ==> (r.success && r.exit_code == 0 && r.error is None),
        !success ==> (!r.success && r.exit_code == exit_code && (r.error matches Some(e) && e@
            == spec_stage_prefix(stage) + stderr@)),
{
    if success {
        DeployResult::success(0)
    } else {
        let mut msg = match stage {
            DeployStage::CreateRemoteDir => String::from_str(
                "Failed to create remote directory: ",
            ),
            DeployStage::ExtractZip => String::from_str("Failed to extract ZIP: "),
            DeployStage::ExtractTarball => String::from_str("Failed to extract tarball: "),
        };
        msg.append(stderr);
        DeployResult::failure(exit_code, msg)
    }
}

/// The tar extraction flags each archive kind is unpacked with; the
/// non-archive kinds have none.
pub fn tar_extraction_flags(method: DeployMethod) -> (r: Option<&'static str>)
    ensures
        method == DeployMethod::TarGz ==> (r matches Some(f) && f@ == "xzf"@),
        method == DeployMethod::TarBz2 ==> (r matches Some(f) && f@ == "xjf"@),
        method == DeployMethod::Tar ==> (r matches Some(f) && f@ == "xf"@),
        (method == DeployMethod::Directory || method == DeployMethod::Zip || method
            == DeployMethod::File) ==> r is None,
{
    match method {
        DeployMethod::TarGz => Some("xzf"),
        DeployMethod::TarBz2 => Some("xjf"),
        DeployMethod::Tar => Some("xf"),
        _ => None,
    }
}

} // verus!

//! Decisions of the release step executor: what each built-in step does,
//! computed from the step's configuration, the shared release context, and
//! what the git collaborator reports. The collaborators themselves (git, the
//! build runner, module runtimes) stay outside; callers perform the decided
//! action and feed results back.

use vstd::prelude::*;

use crate::config::{config_get_str, spec_lookup, ConfigValueModel, StepConfig};
use crate::error::{Error, ErrorCode};
use crate::release::ReleaseArtifact;
use crate::text::{spec_contains, spec_starts_with, str_contains, str_starts_with};

verus! {

/// The shared mutable state of one release run: set by the version step, read
/// by the tag, push, and publish steps. One value exists per run, owned by
/// the run loop, so access is serialized by construction.
#[derive(Debug, Clone)]
pub struct ReleaseContext {
    pub version: Option<String>,
    pub tag: Option<String>,
    pub notes: Option<String>,
    pub artifacts: Vec<ReleaseArtifact>,
}

/// The tag derived from a version.
pub open spec fn spec_version_tag(version: Seq<char>) -> Seq<char> {
    "v"@ + version
}

fn version_tag(version: &str) -> (r: String)
    ensures
        r@ == spec_version_tag(version@),
{
    let mut out = String::from_str("v");
    out.append(version);
    out
}

impl ReleaseContext {
    /// An empty context, as each run starts with.
    pub fn new() -> (r: ReleaseContext)
        ensures
            r.version is None,
            r.tag is None,
            r.notes is None,
            r.artifacts@.len() == 0,
    {
        ReleaseContext { version: None, tag: None, notes: None, artifacts: Vec::new() }
    }

    /// Records what the version step produced: the new version, its derived
    /// tag, and the release notes.
    pub fn store_version(&mut self, version: &str, notes: Option<String>)
        ensures
            final(self).version matches Some(v) && v@ == version@,
            final(self).tag matches Some(t) && t@ == spec_version_tag(version@),
            crate::version::opt_string_view(final(self).notes) == crate::version::opt_string_view(
                notes,
            ),
            final(self).artifacts@ == old(self).artifacts@,
    {
        self.version = Some(String::from_str(version));
        self.tag = Some(version_tag(version));
        self.notes = notes;
    }

    /// Records the tag that was actually created or found.
    pub fn store_tag(&mut self, tag: &str)
        ensures
            final(self).tag matches Some(t) && t@ == tag@,
            final(self).version == old(self).version,
            final(self).notes == old(self).notes,
            final(self).artifacts@ == old(self).artifacts@,
    {
        self.tag = Some(String::from_str(tag));
    }

    /// Replaces the artifact list with what a packaging step reported.
    pub fn store_artifacts(&mut self, artifacts: Vec<ReleaseArtifact>)
        ensures
            final(self).artifacts@ == artifacts@,
            final(self).version == old(self).version,
            final(self).tag == old(self).tag,
            final(self).notes == old(self).notes,
    {
        self.artifacts = artifacts;
    }
}

/// The tag name a tag step resolves, in order of preference: the explicit
/// `name` or `versionTag` configuration, the context's tag, or the context's
/// version with a `v` prefix.
pub open spec fn spec_release_tag(
    config: Seq<(Seq<char>, ConfigValueModel)>,
    ctx: ReleaseContext,
) -> Option<Seq<char>> {
    match spec_lookup(config, "name"@) {
        Some(ConfigValueModel::Str(n)) => Some(n),
        _ => match spec_lookup(config, "versionTag"@) {
            Some(ConfigValueModel::Str(n)) => Some(n),
            _ => match ctx.tag {
                Some(t) => Some(t@),
                None => match ctx.version {
                    Some(v) => Some(spec_version_tag(v@)),
                    None => None,
                },
            },
        },
    }
}

/// Resolves the tag name for a tag step; fails, naming both remediation
/// paths, when neither the configuration nor the context determines one.
pub fn get_release_tag(config: &StepConfig, context: &ReleaseContext) -> (r: Result<
    String,
    Error,
>)
    ensures
        match r {
            Ok(t) => spec_release_tag(config.deep_view(), *context) == Some(t@),
            Err(e) => {
                &&& spec_release_tag(config.deep_view(), *context) is None
                &&& e.code == ErrorCode::ValidationInvalidArgument
                &&& e.message@ == "Cannot determine release tag - version context not set"@
                &&& e.hints.deep_view() == seq![
                    "Ensure version step runs before git.tag step"@,
                    "Or specify tag explicitly in step config: { \"name\": \"v1.2.3\" }"@,
                ]
            },
        },
{
    if let Some(name) = config_get_str(config, "name") {
        return Ok(name.clone());
    }
    if let Some(name) = config_get_str(config, "versionTag") {
        return Ok(name.clone());
    }
    if let Some(tag) = &context.tag {
        return Ok(tag.clone());
    }
    if let Some(version) = &context.version {
        return Ok(version_tag(version.as_str()));
    }
    let mut hints: Vec<String> = Vec::new();
    hints.push(String::from_str("Ensure version step runs before git.tag step"));
    hints.push(
        String::from_str("Or specify tag explicitly in step config: { \"name\": \"v1.2.3\" }"),
    );
    proof {
        assert(hints.deep_view() =~~= seq![
            "Ensure version step runs before git.tag step"@,
            "Or specify tag explicitly in step config: { \"name\": \"v1.2.3\" }"@,
        ]);
    }
    Err(
        Error::validation_invalid_argument(
            "tag",
            String::from_str("Cannot determine release tag - version context not set"),
            None,
            Some(hints),
        ),
    )
}

/// What a tag step decides once the tag name and the repository state are
/// known.
#[derive(Debug, Clone)]
pub enum TagDecision {
    /// The tag exists and already points at HEAD: succeed without touching
    /// anything, marked skipped.
    AlreadySkipped { name: String },
    /// The tag exists but points elsewhere: fail with remediation hints.
    Conflict { name: String },
    /// Create the tag with this name and message.
    Create { name: String, message: String },
}

/// What the repository reports about a candidate tag.
#[derive(Debug, Clone)]
pub struct TagFacts {
    pub exists_locally: bool,
    pub tag_commit: String,
    pub head_commit: String,
}

/// The message used when a tag is created and none is configured.
pub open spec fn spec_tag_message(
    config: Seq<(Seq<char>, ConfigValueModel)>,
    name: Seq<char>,
) -> Seq<char> {
    match spec_lookup(config, "message"@) {
        Some(ConfigValueModel::Str(m)) => m,
        _ => "Release "@ + name,
    }
}

/// Decides the tag step. Re-running it for an unchanged HEAD after a prior
/// successful tag yields the skipped success, never a failure; a tag that
/// moved is a conflict, never silently retagged.
pub fn decide_git_tag(
    config: &StepConfig,
    context: &ReleaseContext,
    facts: &TagFacts,
) -> (r: Result<TagDecision, Error>)
    ensures
        match r {
            Ok(d) => spec_release_tag(config.deep_view(), *context) matches Some(name) && match d {
                TagDecision::AlreadySkipped { name: n } => n@ == name && facts.exists_locally
                    && facts.tag_commit@ == facts.head_commit@,
                TagDecision::Conflict { name: n } => n@ == name && facts.exists_locally
                    && facts.tag_commit@ != facts.head_commit@,
                TagDecision::Create { name: n, message } => n@ == name
                    && !facts.exists_locally && message@ == spec_tag_message(
                    config.deep_view(),
                    name,
                ),
            },
            Err(e) => spec_release_tag(config.deep_view(), *context) is None && e.code
                == ErrorCode::ValidationInvalidArgument,
        },
{
    let name = match get_release_tag(config, context) {
        Ok(n) => n,
        Err(e) => {
            return Err(e);
        },
    };
    if facts.exists_locally {
        if facts.tag_commit.eq(&facts.head_commit) {
            Ok(TagDecision::AlreadySkipped { name })
        } else {
            Ok(TagDecision::Conflict { name })
        }
    } else {
        let message = match config_get_str(config, "message") {
            Some(m) => m.clone(),
            None => {
                let mut m = String::from_str("Release ");
                m.append(name.as_str());
                m
            },
        };
        Ok(TagDecision::Create { name, message })
    }
}

/// The default message of a release commit: the context's version, or the
/// word unknown when none is recorded.
pub open spec fn spec_default_commit_message(ctx: ReleaseContext) -> Seq<char> {
    match ctx.version {
        Some(v) => "release: v"@ + v@,
        None => "release: vunknown"@,
    }
}

/// The default message for the release commit.
pub fn default_commit_message(context: &ReleaseContext) -> (r: String)
    ensures
        r@ == spec_default_commit_message(*context),
{
    let mut out = String::from_str("release: v");
    match &context.version {
        Some(v) => {
            out.append(v.as_str());
        },
        None => {
            out.append("unknown");
            proof {
                reveal_strlit("release: v");
                reveal_strlit("unknown");
                reveal_strlit("release: vunknown");
                assert(out@ =~= "release: vunknown"@);
            }
        },
    }
    out
}

/// The amend heuristic: the previous commit was an unpushed release commit.
/// It looks only at the last commit message's prefix and whether the branch
/// is ahead of its upstream, a deliberate approximation kept for
/// compatibility; a manual amend or rebase between releases can mislead it.
pub open spec fn spec_should_amend(last_message: Seq<char>, branch_status: Seq<char>) -> bool {
    spec_starts_with(last_message, "release: v"@) && spec_contains(branch_status, "[ahead"@)
}

/// Whether the commit step amends rather than creating a new commit: the
/// prior commit message starts with `release: v` and the branch is ahead of
/// its upstream (the prior release commit was never pushed).
pub fn should_amend_release_commit(last_message: &str, branch_status: &str) -> (r: bool)
    ensures
        r == spec_should_amend(last_message@, branch_status@),
{
    let prefixed = str_starts_with(last_message, "release: v");
    if !prefixed {
        return false;
    }
    str_contains(branch_status, "[ahead")
}

/// What a commit step decides.
#[derive(Debug, Clone)]
pub enum CommitDecision {
    /// The working tree is clean: succeed without committing, marked skipped.
    SkipClean,
    /// Commit with this message, amending when the prior release commit was
    /// never pushed.
    Commit { amend: bool, message: String },
}

/// Decides the commit step. A clean tree is a skipped success; otherwise the
/// step amends exactly when the prior commit is an unpushed release commit,
/// so repeated release attempts do not pile up release commits.
pub fn decide_git_commit(
    config: &StepConfig,
    context: &ReleaseContext,
    tree_clean: bool,
    last_message: &str,
    branch_status: &str,
) -> (r: CommitDecision)
    ensures
        tree_clean ==> r is SkipClean,
        !tree_clean ==> (r matches CommitDecision::Commit { amend, message } && amend
            == spec_should_amend(last_message@, branch_status@) && message@ == (
        match spec_lookup(config.deep_view(), "message"@) {
            Some(ConfigValueModel::Str(m)) => m,
            _ => spec_default_commit_message(*context),
        })),
{
    if tree_clean {
        return CommitDecision::SkipClean;
    }
    let amend = should_amend_release_commit(last_message, branch_status);
    let message = match config_get_str(config, "message") {
        Some(m) => m.clone(),
        None => default_commit_message(context),
    };
    CommitDecision::Commit { amend, message }
}

/// Remediation hints after a failed tag creation whose error output says the
/// tag already exists: what to do depends on where it exists.
pub fn tag_failure_hints(
    stderr: &str,
    name: &str,
    local_exists: bool,
    remote_exists: bool,
) -> (r: Vec<String>)
    ensures
        !spec_contains(stderr@, "already exists"@) ==> r.deep_view() == Seq::<Seq<char>>::empty(),
        spec_contains(stderr@, "already exists"@) && local_exists && !remote_exists
            ==> r.deep_view() == seq![
            "Tag '"@ + name@ + "' exists locally but not on remote. Push it with: git push origin "@
                + name@,
        ],
        spec_contains(stderr@, "already exists"@) && local_exists && remote_exists
            ==> r.deep_view() == seq![
            "Tag '"@ + name@
                + "' already exists locally and on remote. Delete local tag first: git tag -d "@
                + name@,
        ],
        spec_contains(stderr@, "already exists"@) && !local_exists ==> r.deep_view()
            == Seq::<Seq<char>>::empty(),
{
    let mut hints: Vec<String> = Vec::new();
    proof {
        assert(hints.deep_view() =~= Seq::<Seq<char>>::empty());
    }
    if !str_contains(stderr, "already exists") {
        return hints;
    }
    if local_exists && !remote_exists {
        let mut m = String::from_str("Tag '");
        m.append(name);
        m.append("' exists locally but not on remote. Push it with: git push origin ");
        m.append(name);
        hints.push(m);
        proof {
            assert(hints.deep_view() =~~= seq![
                "Tag '"@ + name@
                    + "' exists locally but not on remote. Push it with: git push origin "@
                    + name@,
            ]);
        }
    } else if local_exists && remote_exists {
        let mut m = String::from_str("Tag '");
        m.append(name);
        m.append("' already exists locally and on remote. Delete local tag first: git tag -d ");
        m.append(name);
        hints.push(m);
        proof {
            assert(hints.deep_view() =~~= seq![
                "Tag '"@ + name@
                    + "' already exists locally and on remote. Delete local tag first: git tag -d "@
                    + name@,
            ]);
        }
    }
    hints
}

/// The first characters of a commit id, as much as eight.
pub open spec fn spec_short_commit(s: Seq<char>) -> Seq<char> {
    if s.len() <= 8 {
        s
    } else {
        s.subrange(0, 8)
    }
}

fn short_commit(s: &str) -> (r: String)
    ensures
        r@ == spec_short_commit(s@),
{
    let v = crate::text::chars_of(s);
    let keep: usize = if v.len() <= 8 {
        v.len()
    } else {
        8
    };
    let mut out: Vec<char> = Vec::new();
    let mut i: usize = 0;
    while i < keep
        invariant
            0 <= i <= keep <= v@.len(),
            out@ == v@.subrange(0, i as int),
        decreases keep - i,
    {
        out.push(v[i]);
        proof {
            assert(out@ =~= v@.subrange(0, i + 1));
        }
        i = i + 1;
    }
    proof {
        if v@.len() <= 8 {
            assert(out@ =~= v@.subrange(0, v@.len() as int));
            assert(out@ =~= v@);
        }
    }
    crate::text::string_of(&out)
}

/// The error raised for a tag that exists but points at another commit: it
/// names both commits, shortened, and gives the delete-and-retry remediation.
pub fn tag_conflict_error(
    name: &str,
    tag_commit: &str,
    head_commit: &str,
    component_id: &str,
) -> (r: Error)
    ensures
        r.code == ErrorCode::ValidationInvalidArgument,
        r.message@ == "Tag '"@ + name@ + "' exists but points to different commit"@,
        r.details@ == "Tag points to "@ + spec_short_commit(tag_commit@) + ", HEAD is "@
            + spec_short_commit(head_commit@),
        r.hints.deep_view() == seq![
            "Delete stale tag: git tag -d "@ + name@,
            "Then retry: homeboy release "@ + component_id@ + " <bump>"@,
        ],
{
    let mut message = String::from_str("Tag '");
    message.append(name);
    message.append("' exists but points to different commit");
    let mut details = String::from_str("Tag points to ");
    let tc = short_commit(tag_commit);
    details.append(tc.as_str());
    details.append(", HEAD is ");
    let hc = short_commit(head_commit);
    details.append(hc.as_str());
    let mut hints: Vec<String> = Vec::new();
    let mut h1 = String::from_str("Delete stale tag: git tag -d ");
    h1.append(name);
    hints.push(h1);
    let mut h2 = String::from_str("Then retry: homeboy release ");
    h2.append(component_id);
    h2.append(" <bump>");
    hints.push(h2);
    proof {
        assert(hints.deep_view() =~~= seq![
            "Delete stale tag: git tag -d "@ + name@,
            "Then retry: homeboy release "@ + component_id@ + " <bump>"@,
        ]);
    }
    Error {
        code: ErrorCode::ValidationInvalidArgument,
        message,
        details,
        hints,
    }
}

/// Whether a publish step's structured response replaces the context's
/// artifact list: only the delegated `package` action does, and only when it
/// reported at least one artifact.
pub fn decide_artifact_update(step_type: &str, parsed: &Vec<ReleaseArtifact>) -> (r: bool)
    ensures
        r == (step_type@ == "package"@ && parsed@.len() > 0),
{
    let st = String::from_str(step_type);
    let package = String::from_str("package");
    st.eq(&package) && parsed.len() > 0
}


/// The release payload handed to module actions and runtimes; the step's own
/// configuration rides along for the module to read.
#[derive(Debug, Clone)]
pub struct ReleasePayload {
    pub version: String,
    pub tag: String,
    pub notes: String,
    pub component_id: String,
    pub local_path: String,
    pub artifacts: Vec<ReleaseArtifact>,
    pub config: StepConfig,
}

/// Builds the payload for a publish step from the context and the step's
/// configuration. Fails when the version step has not run; the tag falls
/// back to the version with a `v` prefix, and missing notes become empty
/// text.
pub fn build_release_payload(
    component_id: &str,
    local_path: &str,
    context: &ReleaseContext,
    config: &StepConfig,
) -> (r: Result<ReleasePayload, Error>)
    ensures
        r is Ok <==> context.version is Some,
        match r {
            Ok(p) => context.version matches Some(v) && {
                &&& p.version@ == v@
                &&& p.tag@ == (match context.tag {
                    Some(t) => t@,
                    None => spec_version_tag(v@),
                })
                &&& p.notes@ == (match context.notes {
                    Some(n) => n@,
                    None => Seq::<char>::empty(),
                })
                &&& p.component_id@ == component_id@
                &&& p.local_path@ == local_path@
                &&& p.artifacts@ == context.artifacts@
                &&& p.config.deep_view() == config.deep_view()
            },
            Err(e) => {
                &&& context.version is None
                &&& e.code == ErrorCode::ValidationInvalidArgument
                &&& e.message@ == "Version context not set for release step"@
                &&& e.hints.deep_view() == seq!["Ensure version step runs before this step"@]
            },
        },
{
    let version = match &context.version {
        Some(v) => v.clone(),
        None => {
            let mut hints: Vec<String> = Vec::new();
            hints.push(String::from_str("Ensure version step runs before this step"));
            proof {
                assert(hints.deep_view() =~~= seq![
                    "Ensure version step runs before this step"@,
                ]);
            }
            return Err(
                Error::validation_invalid_argument(
                    "version",
                    String::from_str("Version context not set for release step"),
                    None,
                    Some(hints),
                ),
            );
        },
    };
    let tag = match &context.tag {
        Some(t) => t.clone(),
        None => version_tag(version.as_str()),
    };
    let notes = match &context.notes {
        Some(n) => n.clone(),
        None => String::new(),
    };
    let mut artifacts: Vec<ReleaseArtifact> = Vec::new();
    let mut i: usize = 0;
    while i < context.artifacts.len()
        invariant
            0 <= i <= context.artifacts@.len(),
            artifacts@ =~= context.artifacts@.subrange(0, i as int),
        decreases context.artifacts@.len() - i,
    {
        let a = &context.artifacts[i];
        artifacts.push(
            ReleaseArtifact {
                path: a.path.clone(),
                artifact_type: match &a.artifact_type {
                    Some(t) => Some(t.clone()),
                    None => None,
                },
                platform: match &a.platform {
                    Some(p) => Some(p.clone()),
                    None => None,
                },
            },
        );
        proof {
            assert(artifacts@ =~= context.artifacts@.subrange(0, i + 1));
        }
        i = i + 1;
    }
    proof {
        assert(context.artifacts@.subrange(0, context.artifacts@.len() as int)
            =~= context.artifacts@);
    }
    Ok(
        ReleasePayload {
            version,
            tag,
            notes,
            component_id: String::from_str(component_id),
            local_path: String::from_str(local_path),
            artifacts,
            config: crate::pipeline::clone_step_config(config),
        },
    )
}

/// The bump word a version step uses: its `bump` configuration, or `patch`.
pub fn bump_from_config(config: &StepConfig) -> (r: String)
    ensures
        r@ == (match spec_lookup(config.deep_view(), "bump"@) {
            Some(ConfigValueModel::Str(b)) => b,
            _ => "patch"@,
        }),
{
    match config_get_str(config, "bump") {
        Some(b) => b.clone(),
        None => String::from_str("patch"),
    }
}

/// One artifact entry as a packaging step reports it: a bare path, a record
/// of fields, or something else entirely.
#[derive(Debug, Clone)]
pub enum ArtifactEntry {
    Path(String),
    Record(Vec<(String, String)>),
    Other,
}

/// The first value stored under a key of an artifact record.
pub open spec fn spec_record_get(
    fields: Seq<(Seq<char>, Seq<char>)>,
    key: Seq<char>,
) -> Option<Seq<char>>
    decreases fields.len(),
{
    if fields.len() == 0 {
        None
    } else if fields[0].0 == key {
        Some(fields[0].1)
    } else {
        spec_record_get(fields.drop_first(), key)
    }
}

proof fn lemma_record_get_skip(fields: Seq<(Seq<char>, Seq<char>)>, key: Seq<char>, i: int)
    requires
        0 <= i <= fields.len(),
        forall|j: int| 0 <= j < i ==> fields[j].0 != key,
    ensures
        spec_record_get(fields, key) == spec_record_get(
            fields.subrange(i, fields.len() as int),
            key,
        ),
    decreases i,
{
    if i == 0 {
        assert(fields.subrange(0, fields.len() as int) =~= fields);
    } else {
        assert(fields.len() > 0);
        assert(fields[0].0 != key);
        assert(fields.drop_first() =~= fields.subrange(1, fields.len() as int));
        assert forall|j: int| 0 <= j < i - 1 implies fields.drop_first()[j].0 != key by {
            assert(fields.drop_first()[j] == fields[j + 1]);
        }
        lemma_record_get_skip(fields.drop_first(), key, i - 1);
        assert(fields.drop_first().subrange(i - 1, fields.drop_first().len() as int)
            =~= fields.subrange(i, fields.len() as int));
    }
}

/// Looks up a field of an artifact record: the first entry under the key.
fn record_get<'a>(fields: &'a Vec<(String, String)>, key: &str) -> (r: Option<&'a String>)
    ensures
        match r {
            Some(v) => spec_record_get(fields.deep_view(), key@) == Some(v@),
            None => spec_record_get(fields.deep_view(), key@) is None,
        },
{
    let k = String::from_str(key);
    let ghost fv = fields.deep_view();
    let mut i: usize = 0;
    while i < fields.len()
        invariant
            0 <= i <= fields@.len(),
            fv == fields.deep_view(),
            fv.len() == fields@.len(),
            k@ == key@,
            forall|j: int| 0 <= j < i ==> fv[j].0 != key@,
        decreases fields@.len() - i,
    {
        proof {
            assert(fv[i as int] == (fields@[i as int].0@, fields@[i as int].1@));
        }
        if fields[i].0.eq(&k) {
            proof {
                lemma_record_get_skip(fv, key@, i as int);
                let tail = fv.subrange(i as int, fv.len() as int);
                assert(tail[0] == fv[i as int]);
            }
            return Some(&fields[i].1);
        }
        i = i + 1;
    }
    proof {
        lemma_record_get_skip(fv, key@, i as int);
        assert(fv.subrange(i as int, fv.len() as int).len() == 0);
    }
    None
}

/// An entry a packaging step may report: a bare path is always usable, a
/// record needs a `path` field, anything else is invalid.
pub open spec fn spec_artifact_entry_ok(e: ArtifactEntry) -> bool {
    match e {
        ArtifactEntry::Path(_) => true,
        ArtifactEntry::Record(fields) => spec_record_get(fields.deep_view(), "path"@) is Some,
        ArtifactEntry::Other => false,
    }
}

/// The artifact a usable entry stands for: its path and, for a record, the
/// optional type and platform fields.
pub open spec fn spec_artifact_of(e: ArtifactEntry) -> (
    Seq<char>,
    Option<Seq<char>>,
    Option<Seq<char>>,
) {
    match e {
        ArtifactEntry::Path(p) => (p@, None, None),
        ArtifactEntry::Record(fields) => (
            match spec_record_get(fields.deep_view(), "path"@) {
                Some(p) => p,
                None => Seq::empty(),
            },
            spec_record_get(fields.deep_view(), "type"@),
            spec_record_get(fields.deep_view(), "platform"@),
        ),
        ArtifactEntry::Other => (Seq::empty(), None, None),
    }
}

/// The ghost form of a parsed artifact.
pub open spec fn artifact_model(a: ReleaseArtifact) -> (
    Seq<char>,
    Option<Seq<char>>,
    Option<Seq<char>>,
) {
    (
        a.path@,
        match a.artifact_type {
            Some(t) => Some(t@),
            None => None,
        },
        match a.platform {
            Some(p) => Some(p@),
            None => None,
        },
    )
}

/// Parses what a packaging step reported into artifacts. Succeeds exactly
/// when every entry is a bare path or a record with a `path` field; each
/// artifact then mirrors its entry, index by index.
pub fn parse_release_artifacts(entries: &Vec<ArtifactEntry>) -> (r: Result<
    Vec<ReleaseArtifact>,
    Error,
>)
    ensures
        r is Ok <==> (forall|i: int|
            0 <= i < entries@.len() ==> spec_artifact_entry_ok(#[trigger] entries@[i])),
        match r {
            Ok(arts) => arts@.len() == entries@.len() && (forall|i: int|
                0 <= i < entries@.len() ==> artifact_model(#[trigger] arts@[i])
                    == spec_artifact_of(entries@[i])),
            Err(e) => e.code == ErrorCode::ValidationInvalidArgument,
        },
{
    let mut out: Vec<ReleaseArtifact> = Vec::new();
    let mut i: usize = 0;
    while i < entries.len()
        invariant
            0 <= i <= entries@.len(),
            out@.len() == i,
            forall|j: int| 0 <= j < i ==> spec_artifact_entry_ok(#[trigger] entries@[j]),
            forall|j: int|
                0 <= j < i ==> artifact_model(#[trigger] out@[j]) == spec_artifact_of(
                    entries@[j],
                ),
        decreases entries@.len() - i,
    {
        match &entries[i] {
            ArtifactEntry::Path(p) => {
                out.push(
                    ReleaseArtifact { path: p.clone(), artifact_type: None, platform: None },
                );
            },
            ArtifactEntry::Record(fields) => {
                let path = match record_get(fields, "path") {
                    Some(p) => p.clone(),
                    None => {
                        proof {
                            assert(!spec_artifact_entry_ok(entries@[i as int]));
                        }
                        return Err(
                            Error::validation_invalid_argument(
                                "release.artifacts",
                                String::from_str("Artifact is missing 'path'"),
                                None,
                                None,
                            ),
                        );
                    },
                };
                let artifact_type = match record_get(fields, "type") {
                    Some(t) => Some(t.clone()),
                    None => None,
                };
                let platform = match record_get(fields, "platform") {
                    Some(p) => Some(p.clone()),
                    None => None,
                };
                out.push(ReleaseArtifact { path, artifact_type, platform });
            },
            ArtifactEntry::Other => {
                proof {
                    assert(!spec_artifact_entry_ok(entries@[i as int]));
                }
                return Err(
                    Error::validation_invalid_argument(
                        "release.artifacts",
                        String::from_str("Artifact entry is invalid"),
                        None,
                        None,
                    ),
                );
            },
        }
        i = i + 1;
    }
    Ok(out)
}

fn clone_pairs(v: &Vec<(String, String)>) -> (r: Vec<(String, String)>)
    ensures
        r.deep_view() == v.deep_view(),
{
    let mut out: Vec<(String, String)> = Vec::new();
    let mut i: usize = 0;
    while i < v.len()
        invariant
            0 <= i <= v@.len(),
            out@.len() == i,
            forall|k: int|
                0 <= k < i ==> (#[trigger] out@[k]).0@ == v@[k].0@ && out@[k].1@ == v@[k].1@,
        decreases v@.len() - i,
    {
        let pair = (v[i].0.clone(), v[i].1.clone());
        out.push(pair);
        i = i + 1;
    }
    proof {
        assert forall|k: int| 0 <= k < v@.len() implies out.deep_view()[k]
            == v.deep_view()[k] by {
            assert(out@[k].0@ == v@[k].0@ && out@[k].1@ == v@[k].1@);
        }
        assert(out.deep_view() =~= v.deep_view());
    }
    out
}

/// What a `module.run` step resolves to: the module id named by its
/// configuration, the declared inputs, and the extra arguments. Succeeds
/// exactly when the module id is a string and the inputs and arguments, if
/// given, have their declared shapes.
pub fn module_run_config(config: &StepConfig) -> (r: Result<
    (String, Vec<(String, String)>, Vec<String>),
    Error,
>)
    ensures
        r is Ok <==> ((spec_lookup(config.deep_view(), "module"@) matches Some(
            ConfigValueModel::Str(_),
        )) && (match spec_lookup(config.deep_view(), "inputs"@) {
            Some(ConfigValueModel::IdValuePairs(_)) => true,
            None => true,
            _ => false,
        }) && (match spec_lookup(config.deep_view(), "args"@) {
            Some(ConfigValueModel::StrList(_)) => true,
            None => true,
            _ => false,
        })),
        match r {
            Ok(p) => {
                &&& (spec_lookup(config.deep_view(), "module"@) matches Some(
                    ConfigValueModel::Str(m),
                ) && p.0@ == m)
                &&& p.1.deep_view() == (match spec_lookup(config.deep_view(), "inputs"@) {
                    Some(ConfigValueModel::IdValuePairs(l)) => l,
                    _ => Seq::<(Seq<char>, Seq<char>)>::empty(),
                })
                &&& p.2.deep_view() == (match spec_lookup(config.deep_view(), "args"@) {
                    Some(ConfigValueModel::StrList(l)) => l,
                    _ => Seq::<Seq<char>>::empty(),
                })
            },
            Err(e) => e.code == ErrorCode::ValidationInvalidArgument,
        },
{
    let module = match crate::config::config_get(config, "module") {
        Some(crate::config::ConfigValue::Str(m)) => m.clone(),
        _ => {
            return Err(
                Error::validation_invalid_argument(
                    "release.steps",
                    String::from_str("module.run requires config.module"),
                    None,
                    None,
                ),
            );
        },
    };
    let inputs: Vec<(String, String)> = match crate::config::config_get(config, "inputs") {
        Some(crate::config::ConfigValue::IdValuePairs(l)) => clone_pairs(l),
        None => Vec::new(),
        _ => {
            return Err(
                Error::validation_invalid_argument(
                    "release.steps",
                    String::from_str("module.run inputs must be objects with 'id' and 'value'"),
                    None,
                    None,
                ),
            );
        },
    };
    let args: Vec<String> = match crate::config::config_get(config, "args") {
        Some(crate::config::ConfigValue::StrList(l)) => crate::pipeline::clone_string_vec(l),
        None => Vec::new(),
        _ => {
            return Err(
                Error::validation_invalid_argument(
                    "release.steps",
                    String::from_str("module.run args must be strings"),
                    None,
                    None,
                ),
            );
        },
    };
    proof {
        assert(inputs.deep_view() =~~= (match spec_lookup(config.deep_view(), "inputs"@) {
            Some(ConfigValueModel::IdValuePairs(l)) => l,
            _ => Seq::<(Seq<char>, Seq<char>)>::empty(),
        }));
        assert(args.deep_view() =~~= (match spec_lookup(config.deep_view(), "args"@) {
            Some(ConfigValueModel::StrList(l)) => l,
            _ => Seq::<Seq<char>>::empty(),
        }));
    }
    Ok((module, inputs, args))
}

} // verus!

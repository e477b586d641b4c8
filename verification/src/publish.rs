use vstd::prelude::*;

use crate::command::CommandError;
use crate::index::{PackageReleaseEntry, PackageType};
use crate::manifest::{ModuleManifest, PublishOptions};
use crate::platform::{archive_format_for_host, ArchiveFormat, Platform};
use crate::semver::{spec_parse, SemVer};

verus! {

/// Whether every character is in the class `[a-z0-9._]` and the name is
/// non-empty.
pub open spec fn spec_name_valid(s: Seq<char>) -> bool {
    s.len() > 0 && forall|i: int|
        0 <= i < s.len() ==> {
            let c = #[trigger] s[i];
            c == '.' || c == '_' || ('0' as u32 <= c as u32 && c as u32 <= '9' as u32) || (
            'a' as u32 <= c as u32 && c as u32 <= 'z' as u32)
        }
}

/// The publish command. The work itself is driven step by step through
/// `publish_step`; the surrounding layer performs each returned action and
/// feeds the outcome back as the next event.
pub struct PublishCommand {}

impl PublishCommand {
    /// Whether a package name is acceptable: non-empty, lowercase
    /// alphanumeric, with only `.` and `_` as symbols.
    pub fn is_name_valid(name: &String) -> (r: bool)
        ensures
            r == spec_name_valid(name@),
    {
        let s = name.as_str();
        let n = s.unicode_len();
        if n == 0 {
            return false;
        }
        let mut i: usize = 0;
        while i < n
            invariant
                0 <= i <= n,
                n == s@.len(),
                s@ == name@,
                forall|j: int|
                    0 <= j < i ==> {
                        let c = #[trigger] s@[j];
                        c == '.' || c == '_' || ('0' as u32 <= c as u32 && c as u32 <= '9' as u32)
                            || ('a' as u32 <= c as u32 && c as u32 <= 'z' as u32)
                    },
            decreases n - i,
        {
            let c = s.get_char(i);
            let cv = c as u32;
            let ok = c == '.' || c == '_' || ('0' as u32 <= cv && cv <= '9' as u32) || ('a' as u32
                <= cv && cv <= 'z' as u32);
            if !ok {
                return false;
            }
            i = i + 1;
        }
        true
    }
}

/// The concatenation of a version and a caller-supplied suffix, kept
/// verbatim: no normalization is applied, so a non-numeric suffix will fail
/// the strict version parse at the identity check.
pub fn final_version_text(version: &str, suffix: &str) -> (r: String)
    ensures
        r@ == version@ + suffix@,
{
    let mut s = version.to_owned();
    s.append(suffix);
    s
}

/// The hosted-release tag: `{name}-{version}-{platform}`, each part verbatim.
pub fn make_tag(name: &str, version: &str, platform_text: &str) -> (r: String)
    ensures
        r@ == name@ + seq!['-'] + version@ + seq!['-'] + platform_text@,
{
    proof {
        reveal_strlit("-");
        assert("-"@ =~= seq!['-']);
    }
    let mut s = name.to_owned();
    s.append("-");
    s.append(version);
    s.append("-");
    s.append(platform_text);
    proof {
        assert(s@ =~= name@ + seq!['-'] + version@ + seq!['-'] + platform_text@);
    }
    s
}

/// The artifact file name of an archived release: the tag plus the archive
/// container's suffix.
pub fn archive_file_name(tag: &str, format: ArchiveFormat) -> (r: String)
    ensures
        format is Zip ==> r@ == tag@ + seq!['.'] + "zip"@,
        format is TarGz ==> r@ == tag@ + seq!['.'] + "tar.gz"@,
{
    proof {
        reveal_strlit(".");
        assert("."@ =~= seq!['.']);
    }
    let mut s = tag.to_owned();
    s.append(".");
    s.append(format.extension());
    proof {
        assert(format is Zip ==> s@ =~= tag@ + seq!['.'] + "zip"@);
        assert(format is TarGz ==> s@ =~= tag@ + seq!['.'] + "tar.gz"@);
    }
    s
}

/// The hosted-release download URL:
/// `{remote_url}/releases/download/{tag}/{artifact_file_name}`.
pub fn release_url(remote_url: &str, tag: &str, artifact_file_name: &str) -> (r: String)
    ensures
        r@ == remote_url@ + "/releases/download/"@ + tag@ + seq!['/'] + artifact_file_name@,
{
    proof {
        reveal_strlit("/releases/download/");
        reveal_strlit("/");
        assert("/"@ =~= seq!['/']);
    }
    let mut s = remote_url.to_owned();
    s.append("/releases/download/");
    s.append(tag);
    s.append("/");
    s.append(artifact_file_name);
    proof {
        assert(s@ =~= remote_url@ + "/releases/download/"@ + tag@ + seq!['/']
            + artifact_file_name@);
    }
    s
}

/// The native entry point returning the three-component API version for the
/// package kind, where the kind has one.
pub fn api_version_symbol(package_type: PackageType) -> (r: Option<&'static str>)
    ensures
        package_type is Plugin ==> r is Some && r.unwrap()@ == "nosGetPluginAPIVersion"@,
        package_type is Subsystem ==> r is Some && r.unwrap()@ == "nosGetSubsystemAPIVersion"@,
        package_type is Nodos || package_type is Engine ==> r is None,
{
    match package_type {
        PackageType::Plugin => Some("nosGetPluginAPIVersion"),
        PackageType::Subsystem => Some("nosGetSubsystemAPIVersion"),
        PackageType::Nodos => None,
        PackageType::Engine => None,
    }
}

/// The optional native entry point naming the minimum required API minor
/// version; one name serves both probed package kinds.
pub fn min_required_symbol() -> (r: &'static str)
    ensures
        r@ == "nosGetMinimumRequiredPluginAPIMinorVersion"@,
{
    "nosGetMinimumRequiredPluginAPIMinorVersion"
}

/// One request to publish a package, as resolved by the surrounding layer
/// before the pipeline starts.
pub struct PublishRequest {
    pub dry_run: bool,
    /// Whether the input path exists at all.
    pub path_exists: bool,
    /// Whether the input path is a directory (to be archived) or a single
    /// file (published verbatim).
    pub path_is_dir: bool,
    /// The file-name component of the input path.
    pub path_file_name: String,
    pub name: Option<String>,
    pub version: Option<String>,
    pub version_suffix: String,
    pub package_type: Option<PackageType>,
    pub vendor: Option<String>,
    /// The identity recorded by the backend for the catalog write, where the
    /// caller overrides the backend's configured one.
    pub publisher_name: Option<String>,
    pub publisher_email: Option<String>,
    pub release_tags: Vec<String>,
    pub target_platform: Option<Platform>,
    pub host_platform: Platform,
    /// The configured URL of the chosen remote, if that remote exists.
    pub remote_url: Option<String>,
}

/// What the surrounding layer must do next.
pub enum PublishAction {
    /// Look for the options file and the manifests under the package root.
    ScanPackage,
    /// Load the named binary with the collected search paths in effect and
    /// query the two entry points.
    ProbeBinary { binary_file: String, api_symbol: String, min_symbol: String },
    /// Expand the globs under the package root and write the archive,
    /// replacing the manifest's version field with `manifest_version` if the
    /// manifest is among the collected files.
    WriteArchive {
        globs: Vec<String>,
        format: ArchiveFormat,
        archive_file_name: String,
        manifest_version: Option<String>,
    },
    /// Register the entry in the remote's catalog and push under the given
    /// publisher identity, reporting the resulting commit reference.
    RegisterRelease {
        module_name: String,
        vendor: Option<String>,
        publisher_name: Option<String>,
        publisher_email: Option<String>,
        entry: PackageReleaseEntry,
    },
    /// Upload the artifact as the hosted release tied to the commit the
    /// registration produced.
    UploadRelease { commit_ref: String, tag: String, artifact_name: String },
    /// Delete the provisional catalog entry whose upload failed, so the
    /// catalog never keeps referencing an artifact that was not uploaded.
    RollbackRelease { module_name: String, version: String, platform: String },
    /// Nothing to perform: the message reports what happened or what a dry
    /// run would have done.
    Report { message: String },
}

/// The actions that would touch the filesystem, the catalog, or the backend.
pub open spec fn action_mutates(a: PublishAction) -> bool {
    match a {
        PublishAction::WriteArchive { .. } => true,
        PublishAction::RegisterRelease { .. } => true,
        PublishAction::UploadRelease { .. } => true,
        PublishAction::RollbackRelease { .. } => true,
        _ => false,
    }
}

/// What the surrounding layer reports back after performing an action.
pub enum PublishEvent {
    Begin,
    Scanned {
        options_found: Option<PublishOptions>,
        has_plugin_manifest: bool,
        has_subsystem_manifest: bool,
        manifest: Option<ModuleManifest>,
    },
    Probed { major: u32, minor: u32, patch: u32, min_required_minor: Option<u32> },
    ProbeFailed { message: String },
    ArchiveWritten,
    ArchiveFailed { message: String },
    Registered { commit_ref: String },
    RegisterFailed { message: String },
    Uploaded,
    UploadFailed { message: String },
    RolledBack,
    RollbackFailed { message: String },
}

/// How a finished publish ended.
#[derive(Clone, Copy, Debug, PartialEq, Eq, Structural)]
pub enum PublishOutcome {
    /// The release was registered and uploaded.
    Published,
    /// The options file excludes the target platform: a no-op, not an error.
    SkippedPlatform,
    /// A dry run: every mutating step was reported instead of performed.
    DryRun,
}

/// Everything the registration step needs once the identity is settled.
pub struct ReleaseContext {
    pub platform_text: String,
    pub package_type: PackageType,
    pub name: String,
    pub final_version: String,
    pub tag: String,
    pub artifact_name: String,
    pub manifest: Option<ModuleManifest>,
    pub api_version: Option<SemVer>,
    pub min_required_api_minor: Option<u32>,
}

/// Where the pipeline stands between two actions. The phases are linear with
/// no backward transition.
pub enum PublishState {
    Start,
    AwaitScan { target: Platform },
    AwaitProbe {
        target: Platform,
        name: String,
        version: String,
        package_type: PackageType,
        manifest: ModuleManifest,
        release_globs: Vec<String>,
    },
    AwaitArchive { ctx: ReleaseContext },
    AwaitRegister {
        tag: String,
        artifact_name: String,
        module_name: String,
        version: String,
        platform_text: String,
    },
    AwaitUpload { module_name: String, version: String, platform_text: String },
    AwaitRollback,
    Done { outcome: PublishOutcome },
    Failed { error: CommandError },
}

/// Builds the release entry for a settled identity.
fn build_release_entry(
    ctx: ReleaseContext,
    url: String,
    release_tags: &Vec<String>,
    now: &String,
) -> (r: PackageReleaseEntry)
    ensures
        r.version == ctx.final_version,
        r.url == url,
        r.plugin_api_version == (if ctx.package_type is Plugin {
            ctx.api_version
        } else {
            Option::<SemVer>::None
        }),
        r.subsystem_api_version == (if ctx.package_type is Subsystem {
            ctx.api_version
        } else {
            Option::<SemVer>::None
        }),
        r.release_date is Some && r.release_date.unwrap()@ == now@,
        ctx.manifest is Some && ctx.manifest.unwrap().dependencies@.len() > 0
            ==> r.dependencies is Some && r.dependencies.unwrap()
            == ctx.manifest.unwrap().dependencies,
        ctx.manifest is None || ctx.manifest.unwrap().dependencies@.len() == 0
            ==> r.dependencies is None,
        ctx.manifest is Some ==> r.category == ctx.manifest.unwrap().category && r.module_tags
            == ctx.manifest.unwrap().module_tags,
        ctx.manifest is None ==> r.category is None && r.module_tags is None,
        release_tags@.len() == 0 ==> r.release_tags is None,
        release_tags@.len() > 0 ==> r.release_tags is Some && r.release_tags.unwrap()@
            =~= release_tags@,
        r.platform is Some && r.platform.unwrap() == ctx.platform_text,
        r.min_required_api_minor_version == ctx.min_required_api_minor,
{
    let plugin_api_version = if matches!(ctx.package_type, PackageType::Plugin) {
        ctx.api_version
    } else {
        None
    };
    let subsystem_api_version = if matches!(ctx.package_type, PackageType::Subsystem) {
        ctx.api_version
    } else {
        None
    };
    let (dependencies, category, module_tags) = match ctx.manifest {
        Some(m) => {
            let deps = if m.dependencies.len() > 0 {
                Some(m.dependencies)
            } else {
                None
            };
            (deps, m.category, m.module_tags)
        },
        None => (None, None, None),
    };
    let release_tags_field = if release_tags.len() == 0 {
        None
    } else {
        Some(release_tags.clone())
    };
    PackageReleaseEntry {
        version: ctx.final_version,
        url,
        plugin_api_version,
        subsystem_api_version,
        release_date: Some(now.clone()),
        dependencies,
        category,
        module_tags,
        release_tags: release_tags_field,
        platform: Some(ctx.platform_text),
        min_required_api_minor_version: ctx.min_required_api_minor,
    }
}

/// Copies a platform value field by field.
fn dup_platform(p: &Platform) -> (r: Platform)
    ensures
        r == *p,
{
    Platform { os: p.os.clone(), arch: p.arch.clone() }
}

/// Copies an optional string.
fn dup_opt_string(o: &Option<String>) -> (r: Option<String>)
    ensures
        r == *o,
{
    match o {
        Some(s) => Some(s.clone()),
        None => None,
    }
}

/// Whether the scanned options exclude the target platform, which makes the
/// publish a no-op rather than an error.
pub open spec fn scan_excluded(target: Platform, options_found: Option<PublishOptions>) -> bool {
    &&& options_found is Some
    &&& options_found.unwrap().target_platforms is Some
    &&& !(exists|i: int|
        0 <= i < options_found.unwrap().target_platforms.unwrap()@.len()
            && (#[trigger] options_found.unwrap().target_platforms.unwrap()@[i])@ == target.os@
            + seq!['-'] + target.arch@)
}

/// Validates the settled identity and plans the packaging step: the name must
/// match its character class and the suffixed version must parse under the
/// strict numeric grammar, else the publish fails before anything is written.
fn settle_identity(
    req: &PublishRequest,
    platform_text: String,
    package_type: PackageType,
    name: String,
    version: String,
    manifest: Option<ModuleManifest>,
    release_globs: Vec<String>,
    api_version: Option<SemVer>,
    min_required_api_minor: Option<u32>,
    now: &String,
) -> (r: (PublishState, PublishAction))
    ensures
        req.dry_run ==> !action_mutates(r.1),
        r.0 is Failed ==> !action_mutates(r.1),
        !spec_name_valid(name@) ==> r.0 is Failed && r.0->Failed_error is InvalidArgument,
        spec_name_valid(name@) && spec_parse(version@ + req.version_suffix@) is None ==> r.0
            is Failed && r.0->Failed_error is InvalidArgument,
        spec_name_valid(name@) && spec_parse(version@ + req.version_suffix@) is Some
            && req.dry_run ==> r.0 is Done && r.0->Done_outcome is DryRun,
        spec_name_valid(name@) && spec_parse(version@ + req.version_suffix@) is Some
            && !req.dry_run && req.path_is_dir ==> {
            let tag_text = name@ + seq!['-'] + (version@ + req.version_suffix@) + seq!['-']
                + platform_text@;
            &&& r.0 is AwaitArchive
            &&& r.1 is WriteArchive
            &&& r.1->WriteArchive_globs == release_globs
            &&& (r.1->WriteArchive_format is Zip <==> req.host_platform.os@ == "windows"@)
            &&& (manifest is Some ==> r.1->WriteArchive_manifest_version is Some
                && r.1->WriteArchive_manifest_version.unwrap()@ == version@
                + req.version_suffix@)
            &&& (manifest is None ==> r.1->WriteArchive_manifest_version is None)
            &&& (r.1->WriteArchive_format is Zip ==> r.1->WriteArchive_archive_file_name@
                == tag_text + seq!['.'] + "zip"@)
            &&& (r.1->WriteArchive_format is TarGz ==> r.1->WriteArchive_archive_file_name@
                == tag_text + seq!['.'] + "tar.gz"@)
        },
        spec_name_valid(name@) && spec_parse(version@ + req.version_suffix@) is Some
            && !req.dry_run && !req.path_is_dir && req.remote_url is None ==> r.0 is Failed
            && r.0->Failed_error is InvalidArgument,
        spec_name_valid(name@) && spec_parse(version@ + req.version_suffix@) is Some
            && !req.dry_run && !req.path_is_dir && req.remote_url is Some ==> {
            let tag_text = name@ + seq!['-'] + (version@ + req.version_suffix@) + seq!['-']
                + platform_text@;
            &&& r.0 is AwaitRegister
            &&& r.1 is RegisterRelease
            &&& r.1->RegisterRelease_module_name@ == name@
            &&& r.1->RegisterRelease_vendor == req.vendor
            &&& r.1->RegisterRelease_entry.version@ == version@ + req.version_suffix@
            &&& r.1->RegisterRelease_entry.url@ == req.remote_url.unwrap()@
                + "/releases/download/"@ + tag_text + seq!['/'] + req.path_file_name@
            &&& r.0->AwaitRegister_tag@ == tag_text
            &&& r.0->AwaitRegister_artifact_name@ == req.path_file_name@
        },
{
    if !PublishCommand::is_name_valid(&name) {
        return (
            PublishState::Failed {
                error: CommandError::InvalidArgument {
                    message: String::from_str(
                        "package name must be lowercase alphanumeric with only . and _",
                    ),
                },
            },
            PublishAction::Report { message: String::from_str("identity check failed") },
        );
    }
    let final_version = final_version_text(version.as_str(), req.version_suffix.as_str());
    if SemVer::parse_from_string(final_version.as_str()).is_none() {
        return (
            PublishState::Failed {
                error: CommandError::InvalidArgument {
                    message: String::from_str(
                        "version should be semantic-versioning compatible",
                    ),
                },
            },
            PublishAction::Report { message: String::from_str("identity check failed") },
        );
    }
    let tag = make_tag(name.as_str(), final_version.as_str(), platform_text.as_str());
    if req.path_is_dir {
        let format = archive_format_for_host(&req.host_platform.os);
        let artifact_name = archive_file_name(tag.as_str(), format);
        if req.dry_run {
            return (
                PublishState::Done { outcome: PublishOutcome::DryRun },
                PublishAction::Report {
                    message: String::from_str(
                        "dry run: would archive the package and register the release",
                    ),
                },
            );
        }
        let manifest_version = if manifest.is_some() {
            Some(final_version.clone())
        } else {
            None
        };
        let ctx = ReleaseContext {
            platform_text,
            package_type,
            name,
            final_version,
            tag,
            artifact_name: artifact_name.clone(),
            manifest,
            api_version,
            min_required_api_minor,
        };
        return (
            PublishState::AwaitArchive { ctx },
            PublishAction::WriteArchive {
                globs: release_globs,
                format,
                archive_file_name: artifact_name,
                manifest_version,
            },
        );
    }
    let artifact_name = req.path_file_name.clone();
    if req.dry_run {
        return (
            PublishState::Done { outcome: PublishOutcome::DryRun },
            PublishAction::Report {
                message: String::from_str("dry run: would register and upload the file"),
            },
        );
    }
    let remote_url = match &req.remote_url {
        Some(u) => u.clone(),
        None => {
            return (
                PublishState::Failed {
                    error: CommandError::InvalidArgument {
                        message: String::from_str("the chosen remote is not configured"),
                    },
                },
                PublishAction::Report { message: String::from_str("remote not found") },
            );
        },
    };
    let url = release_url(remote_url.as_str(), tag.as_str(), artifact_name.as_str());
    let module_name = name.clone();
    let out_tag = tag.clone();
    let out_artifact = artifact_name.clone();
    let out_version = final_version.clone();
    let out_platform = platform_text.clone();
    let ctx = ReleaseContext {
        platform_text,
        package_type,
        name,
        final_version,
        tag,
        artifact_name,
        manifest,
        api_version,
        min_required_api_minor,
    };
    let entry = build_release_entry(ctx, url, &req.release_tags, now);
    (
        PublishState::AwaitRegister {
            tag: out_tag,
            artifact_name: out_artifact,
            module_name: module_name.clone(),
            version: out_version,
            platform_text: out_platform,
        },
        PublishAction::RegisterRelease {
            module_name,
            vendor: dup_opt_string(&req.vendor),
            publisher_name: dup_opt_string(&req.publisher_name),
            publisher_email: dup_opt_string(&req.publisher_email),
            entry,
        },
    )
}

/// One transition of the publish pipeline: consumes the last event, decides,
/// and names the next action. `now` is the timestamp recorded as the release
/// date should this transition build the release entry.
///
/// A dry run never emits a mutating action: the archive write, the catalog
/// registration and the upload are all replaced by reports. A pipeline that
/// has failed or finished stays where it is and emits nothing mutating
/// either, so a failure — an ambiguous manifest among them — can never be
/// followed by an archive write or a backend call.
///
/// A registration is tentative until the upload succeeds: when the upload
/// fails, the pipeline orders the provisional catalog entry rolled back
/// before it settles into its failed state, so the catalog does not keep
/// referencing an artifact that was never uploaded.
pub fn publish_step(
    req: &PublishRequest,
    state: PublishState,
    event: PublishEvent,
    now: &String,
) -> (r: (PublishState, PublishAction))
    ensures
        req.dry_run ==> !action_mutates(r.1),
        state is Failed ==> r.0 is Failed && !action_mutates(r.1),
        state is Done ==> r.0 is Done && !action_mutates(r.1),
        state is Start && event is Begin && !req.path_exists ==> r.0 is Failed
            && r.0->Failed_error is InvalidArgument && !action_mutates(r.1),
        state is Start && event is Begin && req.path_exists && req.path_is_dir ==> r.0
            is AwaitScan && r.1 is ScanPackage,
        state is AwaitScan && event is Scanned && scan_excluded(
            state->AwaitScan_target,
            event->Scanned_options_found,
        ) ==> r.0 is Done && r.0->Done_outcome is SkippedPlatform && !action_mutates(r.1),
        state is AwaitScan && event is Scanned && !scan_excluded(
            state->AwaitScan_target,
            event->Scanned_options_found,
        ) && event->Scanned_has_plugin_manifest && event->Scanned_has_subsystem_manifest ==> r.0
            is Failed && r.0->Failed_error is AmbiguousManifest && !action_mutates(r.1),
        state is AwaitScan && event is Scanned && !scan_excluded(
            state->AwaitScan_target,
            event->Scanned_options_found,
        ) && event->Scanned_has_plugin_manifest && !event->Scanned_has_subsystem_manifest
            && event->Scanned_manifest is Some
            && event->Scanned_manifest.unwrap().binary_path is None && !(spec_name_valid(
            event->Scanned_manifest.unwrap().name@,
        ) && spec_parse(event->Scanned_manifest.unwrap().version@ + req.version_suffix@) is Some)
            ==> r.0 is Failed && r.0->Failed_error is InvalidArgument && !action_mutates(r.1),
        state is AwaitScan && event is Scanned && !scan_excluded(
            state->AwaitScan_target,
            event->Scanned_options_found,
        ) && event->Scanned_has_plugin_manifest && !event->Scanned_has_subsystem_manifest
            && event->Scanned_manifest is Some
            && event->Scanned_manifest.unwrap().binary_path is None && spec_name_valid(
            event->Scanned_manifest.unwrap().name@,
        ) && spec_parse(event->Scanned_manifest.unwrap().version@ + req.version_suffix@) is Some
            && !req.dry_run && req.path_is_dir ==> {
            let m = event->Scanned_manifest.unwrap();
            let fv = m.version@ + req.version_suffix@;
            let target = state->AwaitScan_target;
            let tag_text = m.name@ + seq!['-'] + fv + seq!['-'] + (target.os@ + seq!['-']
                + target.arch@);
            &&& r.0 is AwaitArchive
            &&& r.1 is WriteArchive
            &&& r.1->WriteArchive_manifest_version is Some
            &&& r.1->WriteArchive_manifest_version.unwrap()@ == fv
            &&& (r.1->WriteArchive_format is Zip <==> req.host_platform.os@ == "windows"@)
            &&& (r.1->WriteArchive_format is Zip ==> r.1->WriteArchive_archive_file_name@
                == tag_text + seq!['.'] + "zip"@)
            &&& (r.1->WriteArchive_format is TarGz ==> r.1->WriteArchive_archive_file_name@
                == tag_text + seq!['.'] + "tar.gz"@)
        },
        state is AwaitProbe && event is ProbeFailed ==> r.0 is Failed
            && r.0->Failed_error is NativeProbeError && !action_mutates(r.1),
        state is AwaitArchive && event is ArchiveFailed ==> r.0 is Failed
            && r.0->Failed_error is IOError && !action_mutates(r.1),
        state is AwaitRegister && event is Registered && !req.dry_run ==> r.0 is AwaitUpload
            && r.1 is UploadRelease && r.1->UploadRelease_commit_ref
            == event->Registered_commit_ref && r.1->UploadRelease_tag == state->AwaitRegister_tag
            && r.1->UploadRelease_artifact_name == state->AwaitRegister_artifact_name,
        state is AwaitRegister && event is RegisterFailed ==> r.0 is Failed
            && r.0->Failed_error is BackendError && !action_mutates(r.1),
        state is AwaitUpload && event is Uploaded ==> r.0 is Done
            && r.0->Done_outcome is Published && !action_mutates(r.1),
        state is AwaitUpload && event is UploadFailed && !req.dry_run ==> r.0 is AwaitRollback
            && r.1 is RollbackRelease && r.1->RollbackRelease_module_name
            == state->AwaitUpload_module_name && r.1->RollbackRelease_version
            == state->AwaitUpload_version && r.1->RollbackRelease_platform
            == state->AwaitUpload_platform_text,
        state is AwaitRollback && (event is RolledBack || event is RollbackFailed) ==> r.0
            is Failed && r.0->Failed_error is BackendError && !action_mutates(r.1),
{
    match (state, event) {
        (PublishState::Start, PublishEvent::Begin) => {
            if !req.path_exists {
                return (
                    PublishState::Failed {
                        error: CommandError::InvalidArgument {
                            message: String::from_str("the given path does not exist"),
                        },
                    },
                    PublishAction::Report { message: String::from_str("path check failed") },
                );
            }
            let target = match &req.target_platform {
                Some(p) => dup_platform(p),
                None => dup_platform(&req.host_platform),
            };
            if req.path_is_dir {
                return (PublishState::AwaitScan { target }, PublishAction::ScanPackage);
            }
            // A single file is published verbatim: no options, no manifest,
            // no probing. The identity must come entirely from the request.
            let package_type = match req.package_type {
                Some(t) => t,
                None => {
                    return (
                        PublishState::Failed {
                            error: CommandError::InvalidArgument {
                                message: String::from_str(
                                    "package type is not provided and could not be inferred",
                                ),
                            },
                        },
                        PublishAction::Report {
                            message: String::from_str("package type missing"),
                        },
                    );
                },
            };
            let name = match &req.name {
                Some(n) => n.clone(),
                None => {
                    return (
                        PublishState::Failed {
                            error: CommandError::InvalidArgument {
                                message: String::from_str(
                                    "name is not provided and could not be inferred",
                                ),
                            },
                        },
                        PublishAction::Report { message: String::from_str("name missing") },
                    );
                },
            };
            let version = match &req.version {
                Some(v) => v.clone(),
                None => {
                    return (
                        PublishState::Failed {
                            error: CommandError::InvalidArgument {
                                message: String::from_str(
                                    "version is not provided and could not be inferred",
                                ),
                            },
                        },
                        PublishAction::Report { message: String::from_str("version missing") },
                    );
                },
            };
            let platform_text = target.format();
            settle_identity(
                req,
                platform_text,
                package_type,
                name,
                version,
                None,
                Vec::new(),
                None,
                None,
                now,
            )
        },
        (PublishState::AwaitScan { target }, PublishEvent::Scanned {
            options_found,
            has_plugin_manifest,
            has_subsystem_manifest,
            manifest,
        }) => {
            let ghost g_options_found = options_found;
            let platform_text = target.format();
            let (options, _options_file_found) = PublishOptions::defaulted(options_found);
            if !options.includes_platform(&platform_text) {
                proof {
                    assert(scan_excluded(target, g_options_found));
                }
                return (
                    PublishState::Done { outcome: PublishOutcome::SkippedPlatform },
                    PublishAction::Report {
                        message: String::from_str(
                            "target platform is excluded by the publish options; nothing to do",
                        ),
                    },
                );
            }
            proof {
                assert(!scan_excluded(target, g_options_found));
            }
            if has_plugin_manifest && has_subsystem_manifest {
                return (
                    PublishState::Failed {
                        error: CommandError::AmbiguousManifest {
                            message: String::from_str(
                                "multiple module manifest files found under the package root",
                            ),
                        },
                    },
                    PublishAction::Report { message: String::from_str("ambiguous manifest") },
                );
            }
            let package_type = if has_plugin_manifest {
                Some(PackageType::Plugin)
            } else if has_subsystem_manifest {
                Some(PackageType::Subsystem)
            } else {
                req.package_type
            };
            let package_type = match package_type {
                Some(t) => t,
                None => {
                    return (
                        PublishState::Failed {
                            error: CommandError::InvalidArgument {
                                message: String::from_str(
                                    "package type is not provided and could not be inferred",
                                ),
                            },
                        },
                        PublishAction::Report {
                            message: String::from_str("package type missing"),
                        },
                    );
                },
            };
            let (name, version) = match &manifest {
                Some(m) => (Some(m.name.clone()), Some(m.version.clone())),
                None => (dup_opt_string(&req.name), dup_opt_string(&req.version)),
            };
            let name = match name {
                Some(n) => n,
                None => {
                    return (
                        PublishState::Failed {
                            error: CommandError::InvalidArgument {
                                message: String::from_str(
                                    "name is not provided and could not be inferred",
                                ),
                            },
                        },
                        PublishAction::Report { message: String::from_str("name missing") },
                    );
                },
            };
            let version = match version {
                Some(v) => v,
                None => {
                    return (
                        PublishState::Failed {
                            error: CommandError::InvalidArgument {
                                message: String::from_str(
                                    "version is not provided and could not be inferred",
                                ),
                            },
                        },
                        PublishAction::Report { message: String::from_str("version missing") },
                    );
                },
            };
            // A manifest that names a native binary must be probed before the
            // identity is settled.
            let has_binary = match &manifest {
                Some(m) => m.binary_path.is_some(),
                None => false,
            };
            if has_binary {
                let m = manifest.unwrap();
                let binary_rel = match &m.binary_path {
                    Some(b) => b.clone(),
                    None => String::new(),
                };
                let api_symbol = match api_version_symbol(package_type) {
                    Some(s) => s.to_owned(),
                    None => {
                        return (
                            PublishState::Failed {
                                error: CommandError::InvalidArgument {
                                    message: String::from_str(
                                        "only plugins and subsystems carry a probed binary",
                                    ),
                                },
                            },
                            PublishAction::Report {
                                message: String::from_str("package type has no probe symbol"),
                            },
                        );
                    },
                };
                let binary_file = crate::manifest::replace_extension(
                    binary_rel.as_str(),
                    target.binary_extension(),
                );
                return (
                    PublishState::AwaitProbe {
                        target,
                        name,
                        version,
                        package_type,
                        manifest: m,
                        release_globs: options.release_globs,
                    },
                    PublishAction::ProbeBinary {
                        binary_file,
                        api_symbol,
                        min_symbol: min_required_symbol().to_owned(),
                    },
                );
            }
            settle_identity(
                req,
                platform_text,
                package_type,
                name,
                version,
                manifest,
                options.release_globs,
                None,
                None,
                now,
            )
        },
        (PublishState::AwaitProbe {
            target,
            name,
            version,
            package_type,
            manifest,
            release_globs,
        }, PublishEvent::Probed { major, minor, patch, min_required_minor }) => {
            let api_version = Some(
                SemVer { major, minor: Some(minor), patch: Some(patch), build_number: None },
            );
            let platform_text = target.format();
            settle_identity(
                req,
                platform_text,
                package_type,
                name,
                version,
                Some(manifest),
                release_globs,
                api_version,
                min_required_minor,
                now,
            )
        },
        (PublishState::AwaitProbe { .. }, PublishEvent::ProbeFailed { message }) => {
            (
                PublishState::Failed { error: CommandError::NativeProbeError { message } },
                PublishAction::Report {
                    message: String::from_str("the native binary could not be probed"),
                },
            )
        },
        (PublishState::AwaitArchive { ctx }, PublishEvent::ArchiveWritten) => {
            if req.dry_run {
                return (
                    PublishState::Done { outcome: PublishOutcome::DryRun },
                    PublishAction::Report {
                        message: String::from_str("dry run: would register the release"),
                    },
                );
            }
            let remote_url = match &req.remote_url {
                Some(u) => u.clone(),
                None => {
                    return (
                        PublishState::Failed {
                            error: CommandError::InvalidArgument {
                                message: String::from_str("the chosen remote is not configured"),
                            },
                        },
                        PublishAction::Report { message: String::from_str("remote not found") },
                    );
                },
            };
            let url = release_url(remote_url.as_str(), ctx.tag.as_str(), ctx.artifact_name.as_str());
            let module_name = ctx.name.clone();
            let out_tag = ctx.tag.clone();
            let out_artifact = ctx.artifact_name.clone();
            let out_version = ctx.final_version.clone();
            let out_platform = ctx.platform_text.clone();
            let entry = build_release_entry(ctx, url, &req.release_tags, now);
            (
                PublishState::AwaitRegister {
                    tag: out_tag,
                    artifact_name: out_artifact,
                    module_name: module_name.clone(),
                    version: out_version,
                    platform_text: out_platform,
                },
                PublishAction::RegisterRelease {
                    module_name,
                    vendor: dup_opt_string(&req.vendor),
                    publisher_name: dup_opt_string(&req.publisher_name),
                    publisher_email: dup_opt_string(&req.publisher_email),
                    entry,
                },
            )
        },
        (PublishState::AwaitArchive { .. }, PublishEvent::ArchiveFailed { message }) => {
            (
                PublishState::Failed { error: CommandError::IOError { message } },
                PublishAction::Report {
                    message: String::from_str("the archive could not be written"),
                },
            )
        },
        (PublishState::AwaitRegister {
            tag,
            artifact_name,
            module_name,
            version,
            platform_text,
        }, PublishEvent::Registered { commit_ref }) => {
            if req.dry_run {
                return (
                    PublishState::Done { outcome: PublishOutcome::DryRun },
                    PublishAction::Report {
                        message: String::from_str("dry run: would upload the release"),
                    },
                );
            }
            (
                PublishState::AwaitUpload { module_name, version, platform_text },
                PublishAction::UploadRelease { commit_ref, tag, artifact_name },
            )
        },
        (PublishState::AwaitRegister { .. }, PublishEvent::RegisterFailed { message }) => {
            (
                PublishState::Failed { error: CommandError::BackendError { message } },
                PublishAction::Report {
                    message: String::from_str("the release entry could not be registered"),
                },
            )
        },
        (PublishState::AwaitUpload { .. }, PublishEvent::Uploaded) => {
            (
                PublishState::Done { outcome: PublishOutcome::Published },
                PublishAction::Report {
                    message: String::from_str("the release was created successfully"),
                },
            )
        },
        (PublishState::AwaitUpload { module_name, version, platform_text },
            PublishEvent::UploadFailed { .. }) => {
            // The registration is only tentative until the upload succeeds:
            // take the provisional entry out of the catalog again.
            if req.dry_run {
                return (
                    PublishState::Done { outcome: PublishOutcome::DryRun },
                    PublishAction::Report {
                        message: String::from_str("dry run: nothing was uploaded"),
                    },
                );
            }
            (
                PublishState::AwaitRollback,
                PublishAction::RollbackRelease { module_name, version, platform: platform_text },
            )
        },
        (PublishState::AwaitRollback, PublishEvent::RolledBack) => {
            (
                PublishState::Failed {
                    error: CommandError::BackendError {
                        message: String::from_str(
                            "the upload failed; the provisional release entry was rolled back",
                        ),
                    },
                },
                PublishAction::Report {
                    message: String::from_str("the release artifact could not be uploaded"),
                },
            )
        },
        (PublishState::AwaitRollback, PublishEvent::RollbackFailed { .. }) => {
            (
                PublishState::Failed {
                    error: CommandError::BackendError {
                        message: String::from_str(
                            "the upload failed and the catalog rollback failed too; the index may reference an artifact that was never uploaded",
                        ),
                    },
                },
                PublishAction::Report {
                    message: String::from_str("the release artifact could not be uploaded"),
                },
            )
        },
        (PublishState::Done { outcome }, _) => {
            (
                PublishState::Done { outcome },
                PublishAction::Report { message: String::from_str("the publish has finished") },
            )
        },
        (PublishState::Failed { error }, _) => {
            (
                PublishState::Failed { error },
                PublishAction::Report { message: String::from_str("the publish has failed") },
            )
        },
        (_, _) => {
            (
                PublishState::Failed {
                    error: CommandError::InvalidArgument {
                        message: String::from_str("unexpected event for the current step"),
                    },
                },
                PublishAction::Report { message: String::from_str("unexpected event") },
            )
        },
    }
}

} // verus!

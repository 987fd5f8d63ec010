//! The vendor version descriptor: the structures one upstream version
//! document is deserialized into, and the engine that normalizes one such
//! descriptor into a canonical component.

use vstd::prelude::*;
use vstd::string::*;

use crate::args::{
    spec_classify_features, spec_remap, ArgErrModel, ArgError, FeatureOutcome, FeatureRuleError,
};
use crate::component::{
    Arch, ArgumentModel, Assets, AssetsModel, ClasspathEntryModel, Component, ComponentModel,
    ConditionFeature, ConditionalClasspathEntry, Download, DownloadModel, HashModel,
    MinecraftArgument, Native, NativeModel, OsName, Platform, PlatformModel, Trait,
};
use crate::coordinate::{CoordModel, GradleSpecifier};
use crate::ledger::{
    lookup, set_insert, trait_insert, ClasspathSet, ConsistencyErrModel, ConsistencyError,
    DownloadLedger, NativeSet, TraitSet,
};
use crate::patch::{patch_log4j, spec_patch_log4j, PatchErrModel, PatchError};
use crate::rules::{
    evaluate_rules_os_name, eval_issue, kind_text, rule_models, spec_allowed_oses,
    spec_is_always_allow, ErrorModel, Rule, RuleModel,
};
use crate::strutil::{contains_seq, contains_substr, match_at, spec_replace, starts_with};

verus! {

/// The release channel of a version.
#[derive(Debug, Clone, Copy, PartialEq, Eq, Structural)]
pub enum VersionType {
    Experiment,
    Snapshot,
    Release,
    OldBeta,
    OldAlpha,
}

/// The text a version type is written as.
pub open spec fn spec_version_type_str(v: VersionType) -> Seq<char> {
    match v {
        VersionType::Experiment => "experiment"@,
        VersionType::Snapshot => "snapshot"@,
        VersionType::Release => "release"@,
        VersionType::OldBeta => "old_beta"@,
        VersionType::OldAlpha => "old_alpha"@,
    }
}

impl VersionType {
    /// The version type as text.
    pub fn as_str(self) -> (r: &'static str)
        ensures
            r@ == spec_version_type_str(self),
    {
        match self {
            Self::Experiment => "experiment",
            Self::Snapshot => "snapshot",
            Self::Release => "release",
            Self::OldBeta => "old_beta",
            Self::OldAlpha => "old_alpha",
        }
    }
}

/// One downloadable artifact of a library.
#[derive(Debug, Clone)]
pub struct MojangLibraryArtifact {
    pub path: String,
    pub sha1: String,
    pub size: u32,
    pub url: String,
}

/// Model of a library artifact.
pub struct LibraryArtifactModel {
    pub path: Seq<char>,
    pub sha1: Seq<char>,
    pub size: u32,
    pub url: Seq<char>,
}

impl View for MojangLibraryArtifact {
    type V = LibraryArtifactModel;

    open spec fn view(&self) -> LibraryArtifactModel {
        LibraryArtifactModel {
            path: self.path@,
            sha1: self.sha1@,
            size: self.size,
            url: self.url@,
        }
    }
}

/// The download section of a library: an optional direct artifact and a
/// classifier-keyed artifact map in document order.
#[derive(Debug, Clone)]
pub struct MojangLibraryDownloads {
    pub artifact: Option<MojangLibraryArtifact>,
    pub classifiers: Vec<(String, MojangLibraryArtifact)>,
}

/// Model of a library download section.
pub struct LibraryDownloadsModel {
    pub artifact: Option<LibraryArtifactModel>,
    pub classifiers: Seq<(Seq<char>, LibraryArtifactModel)>,
}

impl View for MojangLibraryDownloads {
    type V = LibraryDownloadsModel;

    open spec fn view(&self) -> LibraryDownloadsModel {
        LibraryDownloadsModel {
            artifact: match self.artifact {
                Some(ref a) => Some(a@),
                None => None,
            },
            classifiers: self.classifiers@.map_values(
                |p: (String, MojangLibraryArtifact)| (p.0@, p.1@),
            ),
        }
    }
}

/// The extraction section of a native library.
#[derive(Debug, Clone)]
pub struct MojangNativeExtract {
    pub exclude: Vec<String>,
}

impl View for MojangNativeExtract {
    type V = Seq<Seq<char>>;

    open spec fn view(&self) -> Seq<Seq<char>> {
        self.exclude@.map_values(|e: String| e@)
    }
}

/// One library of a version descriptor.
#[derive(Debug, Clone)]
pub struct MojangLibrary {
    pub name: GradleSpecifier,
    pub downloads: MojangLibraryDownloads,
    pub rules: Vec<Rule>,
    pub extract: MojangNativeExtract,
    pub natives: Vec<(OsName, String)>,
}

/// Model of a library.
pub struct LibraryModel {
    pub name: CoordModel,
    pub downloads: LibraryDownloadsModel,
    pub rules: Seq<RuleModel>,
    pub extract: Seq<Seq<char>>,
    pub natives: Seq<(OsName, Seq<char>)>,
}

impl View for MojangLibrary {
    type V = LibraryModel;

    open spec fn view(&self) -> LibraryModel {
        LibraryModel {
            name: self.name@,
            downloads: self.downloads@,
            rules: self.rules@.map_values(|r: Rule| r@),
            extract: self.extract@,
            natives: self.natives@.map_values(|p: (OsName, String)| (p.0, p.1@)),
        }
    }
}

/// The client download of a version.
#[derive(Debug, Clone)]
pub struct MojangDownload {
    pub sha1: String,
    pub size: u32,
    pub url: String,
}

/// Model of the client download.
pub struct MojangDownloadModel {
    pub sha1: Seq<char>,
    pub size: u32,
    pub url: Seq<char>,
}

impl View for MojangDownload {
    type V = MojangDownloadModel;

    open spec fn view(&self) -> MojangDownloadModel {
        MojangDownloadModel { sha1: self.sha1@, size: self.size, url: self.url@ }
    }
}

/// The downloads section of a version.
#[derive(Debug, Clone)]
pub struct MojangDownloads {
    pub client: MojangDownload,
}

impl View for MojangDownloads {
    type V = MojangDownloadModel;

    open spec fn view(&self) -> MojangDownloadModel {
        self.client@
    }
}

/// The asset-index section of a version.
#[derive(Debug, Clone)]
pub struct MojangAssetIndex {
    pub id: String,
    pub sha1: String,
    pub size: u32,
    pub total_size: u32,
    pub url: String,
}

/// Model of the asset index.
pub struct AssetIndexModel {
    pub id: Seq<char>,
    pub sha1: Seq<char>,
    pub size: u32,
    pub total_size: u32,
    pub url: Seq<char>,
}

impl View for MojangAssetIndex {
    type V = AssetIndexModel;

    open spec fn view(&self) -> AssetIndexModel {
        AssetIndexModel {
            id: self.id@,
            sha1: self.sha1@,
            size: self.size,
            total_size: self.total_size,
            url: self.url@,
        }
    }
}

impl crate::component::Assets {
    /// The asset-index descriptor of a component, taken field by field from
    /// the vendor's asset-index section.
    pub fn from_index(assets: MojangAssetIndex) -> (r: Self)
        ensures
            r@.id == assets@.id,
            r@.url == assets@.url,
            r@.sha1 == assets@.sha1,
            r@.size == assets@.size,
            r@.total_size == assets@.total_size,
    {
        Self {
            id: assets.id,
            url: assets.url,
            sha1: assets.sha1,
            size: assets.size,
            total_size: assets.total_size,
        }
    }
}

/// An argument entry: either a bare value or a value list gated by rules.
/// The conditional shape is tried first when decoding; a bare value is the
/// fallback.
#[derive(Debug, Clone)]
pub enum MojangConditionalValue {
    Always(String),
    Conditional { rules: Vec<Rule>, value: Vec<String> },
}

/// Model of an argument entry.
pub enum ConditionalValueModel {
    Always(Seq<char>),
    Conditional { rules: Seq<RuleModel>, value: Seq<Seq<char>> },
}

impl View for MojangConditionalValue {
    type V = ConditionalValueModel;

    open spec fn view(&self) -> ConditionalValueModel {
        match self {
            MojangConditionalValue::Always(s) => ConditionalValueModel::Always(s@),
            MojangConditionalValue::Conditional { rules, value } =>
                ConditionalValueModel::Conditional {
                    rules: rules@.map_values(|r: Rule| r@),
                    value: value@.map_values(|v: String| v@),
                },
        }
    }
}

/// The structured argument section of a version.
#[derive(Debug, Clone)]
pub struct MojangVersionArguments {
    pub game: Vec<MojangConditionalValue>,
    pub jvm: Vec<MojangConditionalValue>,
}

/// Model of the argument section.
pub struct VersionArgumentsModel {
    pub game: Seq<ConditionalValueModel>,
    pub jvm: Seq<ConditionalValueModel>,
}

impl View for MojangVersionArguments {
    type V = VersionArgumentsModel;

    open spec fn view(&self) -> VersionArgumentsModel {
        VersionArgumentsModel {
            game: self.game@.map_values(|v: MojangConditionalValue| v@),
            jvm: self.jvm@.map_values(|v: MojangConditionalValue| v@),
        }
    }
}

/// One vendor version descriptor, already parsed and validated at the I/O
/// edge.
#[derive(Debug)]
pub struct MojangVersion {
    pub inherits_from: Option<String>,
    pub arguments: Option<MojangVersionArguments>,
    pub asset_index: Option<MojangAssetIndex>,
    pub downloads: Option<MojangDownloads>,
    pub id: String,
    pub libraries: Vec<MojangLibrary>,
    pub main_class: String,
    pub minecraft_arguments: Option<String>,
    /// Release instant as milliseconds since the Unix epoch.
    pub release_time: i64,
    pub version_type: VersionType,
}

/// Model of a version descriptor.
pub struct VersionModel {
    pub inherits_from: Option<Seq<char>>,
    pub arguments: Option<VersionArgumentsModel>,
    pub asset_index: Option<AssetIndexModel>,
    pub downloads: Option<MojangDownloadModel>,
    pub id: Seq<char>,
    pub libraries: Seq<LibraryModel>,
    pub main_class: Seq<char>,
    pub minecraft_arguments: Option<Seq<char>>,
    pub release_time: i64,
    pub version_type: VersionType,
}

impl View for MojangVersion {
    type V = VersionModel;

    open spec fn view(&self) -> VersionModel {
        VersionModel {
            inherits_from: match self.inherits_from {
                Some(ref s) => Some(s@),
                None => None,
            },
            arguments: match self.arguments {
                Some(ref a) => Some(a@),
                None => None,
            },
            asset_index: match self.asset_index {
                Some(ref a) => Some(a@),
                None => None,
            },
            downloads: match self.downloads {
                Some(ref d) => Some(d@),
                None => None,
            },
            id: self.id@,
            libraries: self.libraries@.map_values(|l: MojangLibrary| l@),
            main_class: self.main_class@,
            minecraft_arguments: match self.minecraft_arguments {
                Some(ref m) => Some(m@),
                None => None,
            },
            release_time: self.release_time,
            version_type: self.version_type,
        }
    }
}

/// Why a version descriptor could not be normalized. Failures are
/// per-version and explicit: no input shape outside the recognized set is
/// worked around.
#[derive(Debug)]
pub enum ProcessError {
    /// The descriptor inherits from another version, which this engine does
    /// not resolve.
    InheritedVersion,
    /// The descriptor has no client download.
    DownloadMissing,
    /// A library carries a rule list outside the recognized shape.
    MultipleRules { name: GradleSpecifier },
    /// A library's rules use an unsupported predicate.
    RuleEvaluation { name: GradleSpecifier, error: crate::rules::Error },
    /// The same coordinate was claimed with two different hashes.
    HashMismatch(ConsistencyError),
    /// A native classifier still holds an unresolved substitution pattern.
    UnresolvedClassifierPattern { classifier: String },
    /// A declared native classifier has no artifact in the classifier map.
    MissingClassifier { classifier: String, name: GradleSpecifier },
    /// A known-bad artifact needs a patch the table does not hold.
    Unpatched(PatchError),
    /// A conditional argument's rule list is not a single feature-gated
    /// unconditional allow.
    ArgumentRuleShape,
    /// A conditional argument's feature predicate cannot gate an argument.
    ArgumentFeature(FeatureRuleError),
    /// An argument holds a placeholder outside the substitution table.
    Token(ArgError),
}

/// Model of a normalization failure.
pub enum ProcessErrModel {
    InheritedVersion,
    DownloadMissing,
    MultipleRules { name: CoordModel },
    RuleEvaluation { name: CoordModel, error: ErrorModel },
    HashMismatch(ConsistencyErrModel),
    UnresolvedClassifierPattern { classifier: Seq<char> },
    MissingClassifier { classifier: Seq<char>, name: CoordModel },
    Unpatched(PatchErrModel),
    ArgumentRuleShape,
    ArgumentFeature(FeatureRuleError),
    Token(ArgErrModel),
}

impl View for ProcessError {
    type V = ProcessErrModel;

    open spec fn view(&self) -> ProcessErrModel {
        match self {
            ProcessError::InheritedVersion => ProcessErrModel::InheritedVersion,
            ProcessError::DownloadMissing => ProcessErrModel::DownloadMissing,
            ProcessError::MultipleRules { name } => ProcessErrModel::MultipleRules { name: name@ },
            ProcessError::RuleEvaluation { name, error } => ProcessErrModel::RuleEvaluation {
                name: name@,
                error: error@,
            },
            ProcessError::HashMismatch(ce) => ProcessErrModel::HashMismatch(ce@),
            ProcessError::UnresolvedClassifierPattern { classifier } =>
                ProcessErrModel::UnresolvedClassifierPattern { classifier: classifier@ },
            ProcessError::MissingClassifier { classifier, name } =>
                ProcessErrModel::MissingClassifier { classifier: classifier@, name: name@ },
            ProcessError::Unpatched(pe) => ProcessErrModel::Unpatched(pe@),
            ProcessError::ArgumentRuleShape => ProcessErrModel::ArgumentRuleShape,
            ProcessError::ArgumentFeature(fe) => ProcessErrModel::ArgumentFeature(*fe),
            ProcessError::Token(te) => ProcessErrModel::Token(te@),
        }
    }
}

/// The scratch state one descriptor's library walk threads through: the
/// download ledger, the classpath and native sets, and whether a
/// third-generation LWJGL library was seen.
pub struct LibState {
    pub downloads: Seq<DownloadModel>,
    pub classpath: Seq<ClasspathEntryModel>,
    pub natives: Seq<NativeModel>,
    pub is_lwjgl3: bool,
}

/// The download descriptor of a library artifact.
pub open spec fn download_of(name: CoordModel, a: LibraryArtifactModel) -> DownloadModel {
    DownloadModel { name, url: a.url, size: a.size, hash: HashModel::SHA1(a.sha1) }
}

/// Record a download in the ledger: appended when new, merged when
/// identical, refused when the hash disagrees.
pub open spec fn spec_add_download(downloads: Seq<DownloadModel>, d: DownloadModel) -> Result<
    Seq<DownloadModel>,
    ProcessErrModel,
> {
    match lookup(downloads, d.name) {
        None => Ok(downloads.push(d)),
        Some(e) => if e.hash == d.hash {
            Ok(downloads)
        } else {
            Err(
                ProcessErrModel::HashMismatch(
                    ConsistencyErrModel { name: d.name, existing: e.hash, claimed: d.hash },
                ),
            )
        },
    }
}

/// The first artifact under a classifier key, if any.
pub open spec fn classifier_lookup(
    cs: Seq<(Seq<char>, LibraryArtifactModel)>,
    key: Seq<char>,
) -> Option<LibraryArtifactModel>
    decreases cs.len(),
{
    if cs.len() == 0 {
        None
    } else if cs.first().0 == key {
        Some(cs.first().1)
    } else {
        classifier_lookup(cs.drop_first(), key)
    }
}

/// Resolve one concrete native classifier for one OS: the classifier must
/// hold no leftover substitution pattern and must name an artifact in the
/// classifier map; its download is recorded and a native entry added.
pub open spec fn spec_process_native_one(
    st: LibState,
    lib: LibraryModel,
    os: OsName,
    classifier: Seq<char>,
    arch: Option<Arch>,
) -> Result<LibState, ProcessErrModel> {
    if classifier.contains('$') {
        Err(ProcessErrModel::UnresolvedClassifierPattern { classifier })
    } else {
        let name = CoordModel { classifier: Some(classifier), ..lib.name };
        match classifier_lookup(lib.downloads.classifiers, classifier) {
            None => Err(ProcessErrModel::MissingClassifier { classifier, name: lib.name }),
            Some(a) => match spec_add_download(st.downloads, download_of(name, a)) {
                Err(e) => Err(e),
                Ok(ds) => Ok(
                    LibState {
                        downloads: ds,
                        natives: set_insert(
                            st.natives,
                            NativeModel {
                                name,
                                platform: PlatformModel { os: seq![os], arch },
                                exclusions: lib.extract,
                            },
                        ),
                        ..st
                    },
                ),
            },
        }
    }
}

/// Process one declared native classifier: skipped when the library's
/// computed platform excludes the OS; expanded into exactly two entries (one
/// per architecture) when the classifier holds the architecture
/// placeholder, and into exactly one entry with no architecture tag
/// otherwise.
pub open spec fn spec_process_native_entry(
    st: LibState,
    lib: LibraryModel,
    platform_os: Option<Seq<OsName>>,
    os: OsName,
    classifier: Seq<char>,
) -> Result<LibState, ProcessErrModel> {
    let applies = match platform_os {
        None => true,
        Some(oses) => oses.contains(os),
    };
    if !applies {
        Ok(st)
    } else if contains_seq(classifier, "${arch}"@) {
        match spec_process_native_one(
            st,
            lib,
            os,
            spec_replace(classifier, "${arch}"@, "32"@),
            Some(Arch::X86),
        ) {
            Err(e) => Err(e),
            Ok(st1) => spec_process_native_one(
                st1,
                lib,
                os,
                spec_replace(classifier, "${arch}"@, "64"@),
                Some(Arch::X86_64),
            ),
        }
    } else {
        spec_process_native_one(st, lib, os, classifier, None)
    }
}

/// A native classifier holding the architecture placeholder expands into
/// exactly the two concrete per-architecture entries; one without it yields
/// exactly the one entry with no architecture tag. When the produced
/// entries are new to the state, the native list grows by exactly two,
/// respectively one.
pub proof fn lemma_native_arch_expansion(
    st: LibState,
    lib: LibraryModel,
    platform_os: Option<Seq<OsName>>,
    os: OsName,
    classifier: Seq<char>,
)
    requires
        match platform_os {
            None => true,
            Some(oses) => oses.contains(os),
        },
        spec_process_native_entry(st, lib, platform_os, os, classifier) is Ok,
    ensures
        contains_seq(classifier, "${arch}"@) ==> ({
            let n32 = NativeModel {
                name: CoordModel {
                    classifier: Some(spec_replace(classifier, "${arch}"@, "32"@)),
                    ..lib.name
                },
                platform: PlatformModel { os: seq![os], arch: Some(Arch::X86) },
                exclusions: lib.extract,
            };
            let n64 = NativeModel {
                name: CoordModel {
                    classifier: Some(spec_replace(classifier, "${arch}"@, "64"@)),
                    ..lib.name
                },
                platform: PlatformModel { os: seq![os], arch: Some(Arch::X86_64) },
                exclusions: lib.extract,
            };
            let st2 = spec_process_native_entry(st, lib, platform_os, os, classifier)->Ok_0;
            &&& st2.natives == set_insert(set_insert(st.natives, n32), n64)
            &&& n32 != n64
            &&& (!st.natives.contains(n32) && !st.natives.contains(n64) ==> st2.natives.len()
                == st.natives.len() + 2)
        }),
        !contains_seq(classifier, "${arch}"@) ==> ({
            let n1 = NativeModel {
                name: CoordModel { classifier: Some(classifier), ..lib.name },
                platform: PlatformModel { os: seq![os], arch: None },
                exclusions: lib.extract,
            };
            let st2 = spec_process_native_entry(st, lib, platform_os, os, classifier)->Ok_0;
            &&& st2.natives == set_insert(st.natives, n1)
            &&& (!st.natives.contains(n1) ==> st2.natives.len() == st.natives.len() + 1)
        }),
{
    if contains_seq(classifier, "${arch}"@) {
        let c32 = spec_replace(classifier, "${arch}"@, "32"@);
        let c64 = spec_replace(classifier, "${arch}"@, "64"@);
        let n32 = NativeModel {
            name: CoordModel { classifier: Some(c32), ..lib.name },
            platform: PlatformModel { os: seq![os], arch: Some(Arch::X86) },
            exclusions: lib.extract,
        };
        let n64 = NativeModel {
            name: CoordModel { classifier: Some(c64), ..lib.name },
            platform: PlatformModel { os: seq![os], arch: Some(Arch::X86_64) },
            exclusions: lib.extract,
        };
        let st1 = spec_process_native_one(st, lib, os, c32, Some(Arch::X86))->Ok_0;
        assert(st1.natives == set_insert(st.natives, n32));
        assert(st1.natives.len() <= st.natives.len() + 1);
        if !st.natives.contains(n32) && !st.natives.contains(n64) {
            assert(!set_insert(st.natives, n32).contains(n64)) by {
                if set_insert(st.natives, n32).contains(n64) {
                    let k = choose|k: int|
                        0 <= k < set_insert(st.natives, n32).len() && set_insert(
                            st.natives,
                            n32,
                        )[k] == n64;
                    assert(set_insert(st.natives, n32) == st.natives.push(n32));
                    if k < st.natives.len() {
                        assert(st.natives.contains(n64));
                    }
                }
            }
        }
    }
}

/// Process a library's declared native classifiers in document order.
pub open spec fn spec_process_natives(
    st: LibState,
    lib: LibraryModel,
    platform_os: Option<Seq<OsName>>,
    entries: Seq<(OsName, Seq<char>)>,
) -> Result<LibState, ProcessErrModel>
    decreases entries.len(),
{
    if entries.len() == 0 {
        Ok(st)
    } else {
        match spec_process_native_entry(
            st,
            lib,
            platform_os,
            entries.first().0,
            entries.first().1,
        ) {
            Err(e) => Err(e),
            Ok(st1) => spec_process_natives(st1, lib, platform_os, entries.drop_first()),
        }
    }
}

/// Whether a rule list has the one accepted shape for libraries: at most
/// one rule, or exactly two with an unconditional allow first.
pub open spec fn library_rules_shape_ok(rules: Seq<RuleModel>) -> bool {
    rules.len() <= 1 || (spec_is_always_allow(rules[0]) && rules.len() <= 2)
}

/// The LWJGL carve-out that ignores rules entirely: an unconditional allow
/// followed by an OS-named disallow is redundant once native and common
/// parts are split by classifier.
pub open spec fn lwjgl_ignore_rules(lib: LibraryModel) -> bool {
    &&& lib.rules.len() == 2
    &&& spec_is_always_allow(lib.rules[0])
    &&& lib.rules[1].action is Disallow
    &&& match lib.rules[1].os {
        Some(o) => o.name is Some,
        None => false,
    }
}

/// The LWJGL carve-out that drops a library: a single OS-named allow on a
/// non-native artifact is superseded elsewhere and leaves the classpath.
pub open spec fn lwjgl_skip_library(lib: LibraryModel) -> bool {
    &&& lib.rules.len() == 1
    &&& lib.rules[0].action is Allow
    &&& match lib.rules[0].os {
        Some(o) => o.name is Some,
        None => false,
    }
    &&& !match lib.name.classifier {
        Some(cl) => contains_seq(cl, "natives"@),
        None => false,
    }
}

/// Process one library: check the rule shape, apply the known-issue patch,
/// apply the two LWJGL carve-outs, compute the library's platform, record
/// its direct artifact on the classpath, and expand its native classifiers.
pub open spec fn spec_process_library(st: LibState, lib0: LibraryModel) -> Result<
    LibState,
    ProcessErrModel,
> {
    if !library_rules_shape_ok(lib0.rules) {
        Err(ProcessErrModel::MultipleRules { name: lib0.name })
    } else {
        match spec_patch_log4j(lib0) {
            Err(pe) => Err(ProcessErrModel::Unpatched(pe)),
            Ok(lib) => {
                let is_lwjgl = match_at(lib.name.group, "org.lwjgl"@, 0);
                let lwjgl3 = st.is_lwjgl3 || (is_lwjgl && match_at(lib.name.version, "3."@, 0));
                let st1 = LibState { is_lwjgl3: lwjgl3, ..st };
                let ignore_rules = is_lwjgl && lwjgl_ignore_rules(lib);
                if is_lwjgl && lwjgl_skip_library(lib) {
                    Ok(st1)
                } else {
                    let platform_result: Result<Option<Seq<OsName>>, ProcessErrModel> = if
                        ignore_rules || lib.rules.len() == 0 {
                        Ok(None)
                    } else {
                        match eval_issue(lib.rules) {
                            Some(k) => Err(
                                ProcessErrModel::RuleEvaluation {
                                    name: lib.name,
                                    error: ErrorModel::UnsupportedFeature(kind_text(k)),
                                },
                            ),
                            None => Ok(Some(spec_allowed_oses(lib.rules))),
                        }
                    };
                    match platform_result {
                        Err(e) => Err(e),
                        Ok(platform_os) => {
                            let after_artifact: Result<LibState, ProcessErrModel> = match
                                lib.downloads.artifact {
                                None => Ok(st1),
                                Some(a) => match spec_add_download(
                                    st1.downloads,
                                    download_of(lib.name, a),
                                ) {
                                    Err(e) => Err(e),
                                    Ok(ds) => Ok(
                                        LibState {
                                            downloads: ds,
                                            classpath: set_insert(
                                                st1.classpath,
                                                match platform_os {
                                                    None => ClasspathEntryModel::All(lib.name),
                                                    Some(oses) =>
                                                        ClasspathEntryModel::PlatformSpecific {
                                                        name: lib.name,
                                                        platform: PlatformModel {
                                                            os: oses,
                                                            arch: None,
                                                        },
                                                    },
                                                },
                                            ),
                                            ..st1
                                        },
                                    ),
                                },
                            };
                            match after_artifact {
                                Err(e) => Err(e),
                                Ok(st2) => spec_process_natives(
                                    st2,
                                    lib,
                                    platform_os,
                                    lib.natives,
                                ),
                            }
                        },
                    }
                }
            },
        }
    }
}

/// Process a descriptor's libraries in document order.
pub open spec fn spec_process_libraries(st: LibState, libs: Seq<LibraryModel>) -> Result<
    LibState,
    ProcessErrModel,
>
    decreases libs.len(),
{
    if libs.len() == 0 {
        Ok(st)
    } else {
        match spec_process_library(st, libs.first()) {
            Err(e) => Err(e),
            Ok(st1) => spec_process_libraries(st1, libs.drop_first()),
        }
    }
}

/// Recording a download keeps coordinates unique: a fresh one is appended,
/// a repeated one is merged.
proof fn lemma_add_download_unique(downloads: Seq<DownloadModel>, d: DownloadModel)
    requires
        crate::ledger::names_unique(downloads),
        spec_add_download(downloads, d) is Ok,
    ensures
        crate::ledger::names_unique(spec_add_download(downloads, d)->Ok_0),
{
    match lookup(downloads, d.name) {
        None => {
            crate::ledger::lemma_lookup_none_absent(downloads, d.name);
            assert(crate::ledger::names_unique(downloads.push(d)));
        },
        Some(_) => {},
    }
}

/// Resolving one native classifier keeps download coordinates unique.
proof fn lemma_native_one_unique(
    st: LibState,
    lib: LibraryModel,
    os: OsName,
    classifier: Seq<char>,
    arch: Option<Arch>,
)
    requires
        crate::ledger::names_unique(st.downloads),
        spec_process_native_one(st, lib, os, classifier, arch) is Ok,
    ensures
        crate::ledger::names_unique(
            spec_process_native_one(st, lib, os, classifier, arch)->Ok_0.downloads,
        ),
{
    let name = CoordModel { classifier: Some(classifier), ..lib.name };
    match classifier_lookup(lib.downloads.classifiers, classifier) {
        Some(a) => {
            lemma_add_download_unique(st.downloads, download_of(name, a));
        },
        None => {},
    }
}

/// Processing one declared native classifier keeps download coordinates
/// unique.
proof fn lemma_native_entry_unique(
    st: LibState,
    lib: LibraryModel,
    platform_os: Option<Seq<OsName>>,
    os: OsName,
    classifier: Seq<char>,
)
    requires
        crate::ledger::names_unique(st.downloads),
        spec_process_native_entry(st, lib, platform_os, os, classifier) is Ok,
    ensures
        crate::ledger::names_unique(
            spec_process_native_entry(st, lib, platform_os, os, classifier)->Ok_0.downloads,
        ),
{
    let applies = match platform_os {
        None => true,
        Some(oses) => oses.contains(os),
    };
    if applies {
        if contains_seq(classifier, "${arch}"@) {
            let c32 = spec_replace(classifier, "${arch}"@, "32"@);
            let c64 = spec_replace(classifier, "${arch}"@, "64"@);
            lemma_native_one_unique(st, lib, os, c32, Some(Arch::X86));
            let st1 = spec_process_native_one(st, lib, os, c32, Some(Arch::X86))->Ok_0;
            lemma_native_one_unique(st1, lib, os, c64, Some(Arch::X86_64));
        } else {
            lemma_native_one_unique(st, lib, os, classifier, None);
        }
    }
}

/// A library's native walk keeps download coordinates unique.
proof fn lemma_natives_unique(
    st: LibState,
    lib: LibraryModel,
    platform_os: Option<Seq<OsName>>,
    entries: Seq<(OsName, Seq<char>)>,
)
    requires
        crate::ledger::names_unique(st.downloads),
        spec_process_natives(st, lib, platform_os, entries) is Ok,
    ensures
        crate::ledger::names_unique(
            spec_process_natives(st, lib, platform_os, entries)->Ok_0.downloads,
        ),
    decreases entries.len(),
{
    if entries.len() > 0 {
        lemma_native_entry_unique(st, lib, platform_os, entries.first().0, entries.first().1);
        let st1 = spec_process_native_entry(
            st,
            lib,
            platform_os,
            entries.first().0,
            entries.first().1,
        )->Ok_0;
        lemma_natives_unique(st1, lib, platform_os, entries.drop_first());
    }
}

/// Processing one library keeps download coordinates unique.
proof fn lemma_library_unique(st: LibState, lib0: LibraryModel)
    requires
        crate::ledger::names_unique(st.downloads),
        spec_process_library(st, lib0) is Ok,
    ensures
        crate::ledger::names_unique(spec_process_library(st, lib0)->Ok_0.downloads),
{
    if library_rules_shape_ok(lib0.rules) && spec_patch_log4j(lib0) is Ok {
        let lib = spec_patch_log4j(lib0)->Ok_0;
        let is_lwjgl = match_at(lib.name.group, "org.lwjgl"@, 0);
        let lwjgl3 = st.is_lwjgl3 || (is_lwjgl && match_at(lib.name.version, "3."@, 0));
        let st1 = LibState { is_lwjgl3: lwjgl3, ..st };
        if !(is_lwjgl && lwjgl_skip_library(lib)) {
            let ignore_rules = is_lwjgl && lwjgl_ignore_rules(lib);
            if ignore_rules || lib.rules.len() == 0 || eval_issue(lib.rules) is None {
                let platform_os: Option<Seq<OsName>> = if ignore_rules || lib.rules.len() == 0 {
                    None
                } else {
                    Some(spec_allowed_oses(lib.rules))
                };
                match lib.downloads.artifact {
                    None => {
                        lemma_natives_unique(st1, lib, platform_os, lib.natives);
                    },
                    Some(a) => {
                        if spec_add_download(st1.downloads, download_of(lib.name, a)) is Ok {
                            lemma_add_download_unique(st1.downloads, download_of(lib.name, a));
                            let ds = spec_add_download(
                                st1.downloads,
                                download_of(lib.name, a),
                            )->Ok_0;
                            let st2 = LibState {
                                downloads: ds,
                                classpath: set_insert(
                                    st1.classpath,
                                    match platform_os {
                                        None => ClasspathEntryModel::All(lib.name),
                                        Some(oses) => ClasspathEntryModel::PlatformSpecific {
                                            name: lib.name,
                                            platform: PlatformModel { os: oses, arch: None },
                                        },
                                    },
                                ),
                                ..st1
                            };
                            lemma_natives_unique(st2, lib, platform_os, lib.natives);
                        }
                    },
                }
            }
        }
    }
}

/// A descriptor's library walk keeps download coordinates unique.
proof fn lemma_libraries_unique(st: LibState, libs: Seq<LibraryModel>)
    requires
        crate::ledger::names_unique(st.downloads),
        spec_process_libraries(st, libs) is Ok,
    ensures
        crate::ledger::names_unique(spec_process_libraries(st, libs)->Ok_0.downloads),
    decreases libs.len(),
{
    if libs.len() > 0 {
        lemma_library_unique(st, libs.first());
        let st1 = spec_process_library(st, libs.first())->Ok_0;
        lemma_libraries_unique(st1, libs.drop_first());
    }
}

/// Deduplication holds of the whole descriptor: a normalized component
/// names each coordinate at most once in its download list, however many
/// times the descriptor referenced it — repeated references with agreeing
/// hashes were merged into the first-seen entry.
pub proof fn lemma_component_downloads_unique(v: VersionModel)
    requires
        spec_process_version(v) is Ok,
    ensures
        crate::ledger::names_unique(spec_process_version(v)->Ok_0.downloads),
{
    let client = v.downloads->Some_0;
    let game_name = spec_game_artifact_name(v.id);
    let st0 = LibState {
        downloads: seq![
            DownloadModel {
                name: game_name,
                url: client.url,
                size: client.size,
                hash: HashModel::SHA1(client.sha1),
            },
        ],
        classpath: Seq::empty(),
        natives: Seq::empty(),
        is_lwjgl3: false,
    };
    assert(crate::ledger::names_unique(st0.downloads));
    lemma_libraries_unique(st0, v.libraries);
}

/// The state the argument walk threads through: the arguments emitted so
/// far and the trait set.
pub struct ArgState {
    pub arguments: Seq<ArgumentModel>,
    pub traits: Seq<Trait>,
}

/// Rewrite a conditional argument's value list, emitting one gated argument
/// per value.
pub open spec fn spec_remap_cond_values(
    args: Seq<ArgumentModel>,
    values: Seq<Seq<char>>,
    vt: VersionType,
    feature: ConditionFeature,
) -> Result<Seq<ArgumentModel>, ProcessErrModel>
    decreases values.len(),
{
    if values.len() == 0 {
        Ok(args)
    } else {
        match spec_remap(values.first(), vt) {
            Err(t) => Err(ProcessErrModel::Token(ArgErrModel::TokenNotSupported(t))),
            Ok(o) => spec_remap_cond_values(
                args.push(ArgumentModel::Conditional { value: o, feature }),
                values.drop_first(),
                vt,
                feature,
            ),
        }
    }
}

/// Process one structured game argument: a bare value is rewritten and
/// emitted unconditionally; a conditional one must be gated by exactly one
/// unconditional-OS allow rule with a feature predicate, which is
/// classified into a named flag (possibly recording a trait) or skipped.
pub open spec fn spec_process_game_argument(
    st: ArgState,
    a: ConditionalValueModel,
    vt: VersionType,
) -> Result<ArgState, ProcessErrModel> {
    match a {
        ConditionalValueModel::Always(s) => match spec_remap(s, vt) {
            Err(t) => Err(ProcessErrModel::Token(ArgErrModel::TokenNotSupported(t))),
            Ok(o) => Ok(
                ArgState { arguments: st.arguments.push(ArgumentModel::Always(o)), ..st },
            ),
        },
        ConditionalValueModel::Conditional { rules, value } => {
            if rules.len() != 1 {
                Err(ProcessErrModel::ArgumentRuleShape)
            } else if !(rules[0].action is Allow) {
                Err(ProcessErrModel::ArgumentRuleShape)
            } else if !(rules[0].os is None) {
                Err(ProcessErrModel::ArgumentRuleShape)
            } else {
                match rules[0].features {
                    None => Err(ProcessErrModel::ArgumentRuleShape),
                    Some(f) => match spec_classify_features(f) {
                        Err(fe) => Err(ProcessErrModel::ArgumentFeature(fe)),
                        Ok(FeatureOutcome::Skip) => Ok(st),
                        Ok(FeatureOutcome::Use { feature, adds }) => {
                            let traits2 = match adds {
                                Some(t) => trait_insert(st.traits, t),
                                None => st.traits,
                            };
                            match spec_remap_cond_values(st.arguments, value, vt, feature) {
                                Err(e) => Err(e),
                                Ok(args2) => Ok(ArgState { arguments: args2, traits: traits2 }),
                            }
                        },
                    },
                }
            }
        },
    }
}

/// Process the structured game arguments in document order.
pub open spec fn spec_process_game_arguments(
    st: ArgState,
    list: Seq<ConditionalValueModel>,
    vt: VersionType,
) -> Result<ArgState, ProcessErrModel>
    decreases list.len(),
{
    if list.len() == 0 {
        Ok(st)
    } else {
        match spec_process_game_argument(st, list.first(), vt) {
            Err(e) => Err(e),
            Ok(st1) => spec_process_game_arguments(st1, list.drop_first(), vt),
        }
    }
}

/// The first position at or after `k` holding a space (or the end of the
/// text).
pub open spec fn space_end(s: Seq<char>, k: int) -> int
    decreases s.len() - k,
{
    if k < 0 || k >= s.len() || s[k] == ' ' {
        k
    } else {
        space_end(s, k + 1)
    }
}

/// The text from `start` on, split at every single space.
pub open spec fn spec_split_from(s: Seq<char>, start: int) -> Seq<Seq<char>>
    decreases s.len() - start,
{
    let e = space_end(s, start);
    if start <= e && e < s.len() {
        seq![s.subrange(start, e)] + spec_split_from(s, e + 1)
    } else {
        seq![s.subrange(start, s.len() as int)]
    }
}

/// Rewrite a legacy argument token list, emitting one unconditional
/// argument per token.
pub open spec fn spec_remap_legacy_tokens(
    args: Seq<ArgumentModel>,
    toks: Seq<Seq<char>>,
    vt: VersionType,
) -> Result<Seq<ArgumentModel>, ProcessErrModel>
    decreases toks.len(),
{
    if toks.len() == 0 {
        Ok(args)
    } else {
        match spec_remap(toks.first(), vt) {
            Err(t) => Err(ProcessErrModel::Token(ArgErrModel::TokenNotSupported(t))),
            Ok(o) => spec_remap_legacy_tokens(
                args.push(ArgumentModel::Always(o)),
                toks.drop_first(),
                vt,
            ),
        }
    }
}

/// Process a legacy single-string argument blob: split on single spaces,
/// rewrite token by token, and append the synthetic demo-gated `--demo`
/// argument the vendor does not declare.
pub open spec fn spec_process_legacy(st: ArgState, ma: Seq<char>, vt: VersionType) -> Result<
    ArgState,
    ProcessErrModel,
> {
    match spec_remap_legacy_tokens(st.arguments, spec_split_from(ma, 0), vt) {
        Err(e) => Err(e),
        Ok(args2) => Ok(
            ArgState {
                arguments: args2.push(
                    ArgumentModel::Conditional {
                        value: "--demo"@,
                        feature: ConditionFeature::Demo,
                    },
                ),
                ..st
            },
        ),
    }
}

/// The coordinate the game jar is filed under.
pub open spec fn spec_game_artifact_name(id: Seq<char>) -> CoordModel {
    CoordModel {
        group: "com.mojang"@,
        artifact: "minecraft"@,
        version: id,
        classifier: Some("client"@),
        extension: "jar"@,
    }
}

/// Normalize one vendor version descriptor into a canonical component:
/// refuse inherited or downloadless descriptors, seed the ledger with the
/// client jar, walk the libraries (rules, patching, carve-outs, classpath,
/// natives), record the first-thread trait for third-generation LWJGL, walk
/// the structured and legacy arguments, and assemble the component record.
pub open spec fn spec_process_version(v: VersionModel) -> Result<ComponentModel, ProcessErrModel> {
    if v.inherits_from is Some {
        Err(ProcessErrModel::InheritedVersion)
    } else {
        match v.downloads {
            None => Err(ProcessErrModel::DownloadMissing),
            Some(client) => {
                let game_name = spec_game_artifact_name(v.id);
                let st0 = LibState {
                    downloads: seq![
                        DownloadModel {
                            name: game_name,
                            url: client.url,
                            size: client.size,
                            hash: HashModel::SHA1(client.sha1),
                        },
                    ],
                    classpath: Seq::empty(),
                    natives: Seq::empty(),
                    is_lwjgl3: false,
                };
                match spec_process_libraries(st0, v.libraries) {
                    Err(e) => Err(e),
                    Ok(st) => {
                        let traits0: Seq<Trait> = if st.is_lwjgl3 {
                            trait_insert(Seq::empty(), Trait::MacStartOnFirstThread)
                        } else {
                            Seq::empty()
                        };
                        let ast0 = ArgState { arguments: Seq::empty(), traits: traits0 };
                        let after_structured = match v.arguments {
                            None => Ok::<ArgState, ProcessErrModel>(ast0),
                            Some(va) => spec_process_game_arguments(
                                ast0,
                                va.game,
                                v.version_type,
                            ),
                        };
                        match after_structured {
                            Err(e) => Err(e),
                            Ok(ast1) => {
                                let after_legacy = match v.minecraft_arguments {
                                    None => Ok::<ArgState, ProcessErrModel>(ast1),
                                    Some(ma) => spec_process_legacy(ast1, ma, v.version_type),
                                };
                                match after_legacy {
                                    Err(e) => Err(e),
                                    Ok(ast2) => Ok(
                                        ComponentModel {
                                            format_version: 1,
                                            id: "net.minecraft"@,
                                            version: v.id,
                                            requires: Seq::empty(),
                                            traits: ast2.traits,
                                            assets: match v.asset_index {
                                                Some(a) => Some(
                                                    AssetsModel {
                                                        id: a.id,
                                                        url: a.url,
                                                        sha1: a.sha1,
                                                        size: a.size,
                                                        total_size: a.total_size,
                                                    },
                                                ),
                                                None => None,
                                            },
                                            conflicts: Seq::empty(),
                                            downloads: st.downloads,
                                            jarmods: Seq::empty(),
                                            game_jar: Some(game_name),
                                            main_class: Some(v.main_class),
                                            classpath: st.classpath,
                                            natives: st.natives,
                                            game_arguments: ast2.arguments,
                                            release_time: v.release_time,
                                        },
                                    ),
                                }
                            },
                        }
                    },
                }
            },
        }
    }
}

/// An owned copy of an OS list.
fn copy_os_list(v: &Vec<OsName>) -> (r: Vec<OsName>)
    ensures
        r@ == v@,
{
    let mut r: Vec<OsName> = Vec::new();
    let n = v.len();
    let mut i: usize = 0;
    while i < n
        invariant
            n == v@.len(),
            0 <= i <= n,
            r@ == v@.take(i as int),
        decreases n - i,
    {
        r.push(v[i]);
        proof {
            assert(r@ =~= v@.take(i + 1));
        }
        i = i + 1;
    }
    proof {
        assert(v@.take(n as int) =~= v@);
    }
    r
}

/// An owned copy of a string list.
fn copy_strings(v: &Vec<String>) -> (r: Vec<String>)
    ensures
        r@ == v@,
{
    let mut r: Vec<String> = Vec::new();
    let n = v.len();
    let mut i: usize = 0;
    while i < n
        invariant
            n == v@.len(),
            0 <= i <= n,
            r@ == v@.take(i as int),
        decreases n - i,
    {
        r.push(v[i].clone());
        proof {
            assert(r@ =~= v@.take(i + 1));
        }
        i = i + 1;
    }
    proof {
        assert(v@.take(n as int) =~= v@);
    }
    r
}

/// Whether an OS list holds the given OS.
fn os_list_contains(v: &Vec<OsName>, os: OsName) -> (r: bool)
    ensures
        r == v@.contains(os),
{
    let n = v.len();
    let mut i: usize = 0;
    while i < n
        invariant
            n == v@.len(),
            0 <= i <= n,
            forall|j: int| 0 <= j < i ==> v@[j] != os,
        decreases n - i,
    {
        if v[i] == os {
            return true;
        }
        i = i + 1;
    }
    false
}

/// At the first index holding `key`, `classifier_lookup` finds that
/// artifact.
proof fn lemma_classifier_lookup_at(
    cs: Seq<(Seq<char>, LibraryArtifactModel)>,
    key: Seq<char>,
    i: int,
)
    requires
        0 <= i < cs.len(),
        cs[i].0 == key,
        forall|j: int| 0 <= j < i ==> cs[j].0 != key,
    ensures
        classifier_lookup(cs, key) == Some(cs[i].1),
    decreases i,
{
    if i == 0 {
    } else {
        assert(cs.drop_first()[i - 1] == cs[i]);
        lemma_classifier_lookup_at(cs.drop_first(), key, i - 1);
    }
}

/// A key occurring nowhere has no artifact.
proof fn lemma_classifier_lookup_none(cs: Seq<(Seq<char>, LibraryArtifactModel)>, key: Seq<char>)
    requires
        forall|j: int| 0 <= j < cs.len() ==> cs[j].0 != key,
    ensures
        classifier_lookup(cs, key) is None,
    decreases cs.len(),
{
    if cs.len() > 0 {
        lemma_classifier_lookup_none(cs.drop_first(), key);
    }
}

/// Find the artifact under a classifier key.
fn classifier_find<'a>(cs: &'a Vec<(String, MojangLibraryArtifact)>, key: &str) -> (r: Option<
    &'a MojangLibraryArtifact,
>)
    ensures
        match r {
            Some(a) => classifier_lookup(
                cs@.map_values(|p: (String, MojangLibraryArtifact)| (p.0@, p.1@)),
                key@,
            ) == Some(a@),
            None => classifier_lookup(
                cs@.map_values(|p: (String, MojangLibraryArtifact)| (p.0@, p.1@)),
                key@,
            ) is None,
        },
{
    let ghost m = cs@.map_values(|p: (String, MojangLibraryArtifact)| (p.0@, p.1@));
    let n = cs.len();
    let mut i: usize = 0;
    while i < n
        invariant
            n == cs@.len(),
            m == cs@.map_values(|p: (String, MojangLibraryArtifact)| (p.0@, p.1@)),
            0 <= i <= n,
            forall|j: int| 0 <= j < i ==> m[j].0 != key@,
        decreases n - i,
    {
        assert(m[i as int] == (cs@[i as int].0@, cs@[i as int].1@));
        if crate::strutil::str_eq(cs[i].0.as_str(), key) {
            proof {
                lemma_classifier_lookup_at(m, key@, i as int);
            }
            return Some(&cs[i].1);
        }
        i = i + 1;
    }
    proof {
        lemma_classifier_lookup_none(m, key@);
    }
    None
}

/// Resolve one concrete native classifier for one OS: record its download
/// and add the native entry.
fn process_native_one(
    downloads: &mut DownloadLedger,
    natives: &mut NativeSet,
    lib: &MojangLibrary,
    os: OsName,
    classifier: &str,
    arch: Option<Arch>,
    Ghost(st): Ghost<LibState>,
) -> (r: Result<(), ProcessError>)
    requires
        old(downloads).wf(),
        st.downloads == old(downloads)@,
        st.natives == old(natives)@,
    ensures
        final(downloads).wf(),
        match r {
            Ok(()) => spec_process_native_one(st, lib@, os, classifier@, arch) matches Ok(st2)
                && st2.downloads == final(downloads)@ && st2.natives == final(natives)@
                && st2.classpath == st.classpath && st2.is_lwjgl3 == st.is_lwjgl3,
            Err(e) => spec_process_native_one(st, lib@, os, classifier@, arch) == Err::<
                LibState,
                ProcessErrModel,
            >(e@),
        },
{
    if let Some(_) = crate::strutil::find_char(classifier, '$') {
        proof {
            classifier@.index_of_first_ensures('$');
        }
        return Err(
            ProcessError::UnresolvedClassifierPattern { classifier: String::from_str(classifier) },
        );
    }
    proof {
        classifier@.index_of_first_ensures('$');
    }
    let name = lib.name.with_classifier(String::from_str(classifier));
    let artifact = match classifier_find(&lib.downloads.classifiers, classifier) {
        Some(a) => a,
        None => {
            return Err(
                ProcessError::MissingClassifier {
                    classifier: String::from_str(classifier),
                    name: lib.name.duplicate(),
                },
            );
        },
    };
    let d = Download {
        name: name.duplicate(),
        url: artifact.url.clone(),
        size: artifact.size,
        hash: crate::component::Hash::SHA1(artifact.sha1.clone()),
    };
    match downloads.insert(d) {
        Err(ce) => {
            return Err(ProcessError::HashMismatch(ce));
        },
        Ok(()) => {},
    }
    let mut os_vec: Vec<OsName> = Vec::new();
    os_vec.push(os);
    proof {
        assert(os_vec@ =~= seq![os]);
    }
    let entry = Native {
        name,
        platform: Platform { os: os_vec, arch },
        exclusions: copy_strings(&lib.extract.exclude),
    };
    natives.insert(entry);
    Ok(())
}

/// Process one declared native classifier: platform gating and architecture
/// expansion.
fn process_native_entry(
    downloads: &mut DownloadLedger,
    natives: &mut NativeSet,
    lib: &MojangLibrary,
    platform_os: &Option<Vec<OsName>>,
    os: OsName,
    classifier: &str,
    Ghost(st): Ghost<LibState>,
) -> (r: Result<(), ProcessError>)
    requires
        old(downloads).wf(),
        st.downloads == old(downloads)@,
        st.natives == old(natives)@,
    ensures
        final(downloads).wf(),
        ({
            let pm = match *platform_os {
                None => None,
                Some(ref v) => Some(v@),
            };
            match r {
                Ok(()) => spec_process_native_entry(st, lib@, pm, os, classifier@) matches Ok(st2)
                    && st2.downloads == final(downloads)@ && st2.natives == final(natives)@
                    && st2.classpath == st.classpath && st2.is_lwjgl3 == st.is_lwjgl3,
                Err(e) => spec_process_native_entry(st, lib@, pm, os, classifier@) == Err::<
                    LibState,
                    ProcessErrModel,
                >(e@),
            }
        }),
{
    let applies = match platform_os {
        None => true,
        Some(v) => os_list_contains(v, os),
    };
    if !applies {
        return Ok(());
    }
    if contains_substr(classifier, "${arch}") {
        proof {
            reveal_strlit("${arch}");
        }
        let c32 = crate::strutil::replace_all(classifier, "${arch}", "32");
        match process_native_one(downloads, natives, lib, os, c32.as_str(), Some(Arch::X86), Ghost(st)) {
            Err(e) => {
                return Err(e);
            },
            Ok(()) => {},
        }
        let ghost st1 = spec_process_native_one(
            st,
            lib@,
            os,
            crate::strutil::spec_replace(classifier@, "${arch}"@, "32"@),
            Some(Arch::X86),
        )->Ok_0;
        let c64 = crate::strutil::replace_all(classifier, "${arch}", "64");
        match process_native_one(
            downloads,
            natives,
            lib,
            os,
            c64.as_str(),
            Some(Arch::X86_64),
            Ghost(st1),
        ) {
            Err(e) => {
                return Err(e);
            },
            Ok(()) => {},
        }
        Ok(())
    } else {
        process_native_one(downloads, natives, lib, os, classifier, None, Ghost(st))
    }
}

/// Process one library against the scratch state: rule-shape check,
/// known-issue patching, LWJGL carve-outs, platform evaluation, classpath
/// placement and native expansion.
fn process_library(
    lib: &mut MojangLibrary,
    downloads: &mut DownloadLedger,
    classpath: &mut ClasspathSet,
    natives: &mut NativeSet,
    lwjgl3: &mut bool,
) -> (r: Result<(), ProcessError>)
    requires
        old(downloads).wf(),
    ensures
        final(downloads).wf(),
        ({
            let st = LibState {
                downloads: old(downloads)@,
                classpath: old(classpath)@,
                natives: old(natives)@,
                is_lwjgl3: *old(lwjgl3),
            };
            match r {
                Ok(()) => spec_process_library(st, old(lib)@) matches Ok(st2) && st2.downloads
                    == final(downloads)@ && st2.classpath == final(classpath)@ && st2.natives
                    == final(natives)@ && st2.is_lwjgl3 == *final(lwjgl3),
                Err(e) => spec_process_library(st, old(lib)@) == Err::<LibState, ProcessErrModel>(
                    e@,
                ),
            }
        }),
{
    let ghost lib0 = lib@;
    let ghost st = LibState {
        downloads: downloads@,
        classpath: classpath@,
        natives: natives@,
        is_lwjgl3: *lwjgl3,
    };
    let shape_ok = lib.rules.len() <= 1 || (lib.rules.len() <= 2 && lib.rules[0].is_always_allow());
    proof {
        if lib.rules@.len() >= 1 {
            assert(lib0.rules[0] == lib.rules@[0]@);
        }
    }
    if !shape_ok {
        return Err(ProcessError::MultipleRules { name: lib.name.duplicate() });
    }
    match patch_log4j(lib) {
        Err(pe) => {
            return Err(ProcessError::Unpatched(pe));
        },
        Ok(()) => {},
    }
    let ghost libp = lib@;
    let is_lwjgl = starts_with(lib.name.group.as_str(), "org.lwjgl");
    if is_lwjgl && starts_with(lib.name.version.as_str(), "3.") {
        *lwjgl3 = true;
    }
    let ghost st1 = LibState { is_lwjgl3: *lwjgl3, ..st };
    let mut ignore_rules = false;
    if is_lwjgl && lib.rules.len() == 2 {
        proof {
            assert(libp.rules[0] == lib.rules@[0]@);
            assert(libp.rules[1] == lib.rules@[1]@);
        }
        if lib.rules[0].is_always_allow() {
            let disallow = match lib.rules[1].action {
                crate::rules::RuleAction::Disallow => true,
                _ => false,
            };
            let os_named = match &lib.rules[1].os {
                Some(o) => o.name.is_some(),
                None => false,
            };
            if disallow && os_named {
                ignore_rules = true;
            }
        }
    }
    proof {
        assert(ignore_rules == (is_lwjgl && lwjgl_ignore_rules(libp)));
    }
    if is_lwjgl && lib.rules.len() == 1 {
        proof {
            assert(libp.rules[0] == lib.rules@[0]@);
        }
        let allow = match lib.rules[0].action {
            crate::rules::RuleAction::Allow => true,
            _ => false,
        };
        let os_named = match &lib.rules[0].os {
            Some(o) => o.name.is_some(),
            None => false,
        };
        let native_classifier = match &lib.name.classifier {
            Some(cl) => contains_substr(cl.as_str(), "natives"),
            None => false,
        };
        if allow && os_named && !native_classifier {
            assert(lwjgl_skip_library(libp));
            return Ok(());
        }
    }
    assert(!(match_at(libp.name.group, "org.lwjgl"@, 0) && lwjgl_skip_library(libp)));
    let platform_os: Option<Vec<OsName>> = if ignore_rules || lib.rules.len() == 0 {
        None
    } else {
        match evaluate_rules_os_name(lib.rules.as_slice()) {
            Ok(list) => Some(list),
            Err(e) => {
                proof {
                    assert(rule_models(lib.rules@) =~= libp.rules);
                }
                return Err(
                    ProcessError::RuleEvaluation { name: lib.name.duplicate(), error: e },
                );
            },
        }
    };
    proof {
        assert(rule_models(lib.rules@) =~= libp.rules);
    }
    let ghost pm: Option<Seq<OsName>> = match platform_os {
        None => None,
        Some(ref v) => Some(v@),
    };
    if let Some(artifact) = &lib.downloads.artifact {
        let d = Download {
            name: lib.name.duplicate(),
            url: artifact.url.clone(),
            size: artifact.size,
            hash: crate::component::Hash::SHA1(artifact.sha1.clone()),
        };
        match downloads.insert(d) {
            Err(ce) => {
                return Err(ProcessError::HashMismatch(ce));
            },
            Ok(()) => {},
        }
        let entry = match &platform_os {
            None => ConditionalClasspathEntry::All(lib.name.duplicate()),
            Some(osv) => ConditionalClasspathEntry::PlatformSpecific {
                name: lib.name.duplicate(),
                platform: Platform { os: copy_os_list(osv), arch: None },
            },
        };
        classpath.insert(entry);
    }
    let ghost st2 = LibState {
        downloads: downloads@,
        classpath: classpath@,
        natives: natives@,
        is_lwjgl3: *lwjgl3,
    };
    proof {
        assert(spec_process_library(st, lib0) == spec_process_natives(
            st2,
            libp,
            pm,
            libp.natives.skip(0),
        )) by {
            assert(libp.natives.skip(0) =~= libp.natives);
        }
    }
    let n = lib.natives.len();
    let mut i: usize = 0;
    while i < n
        invariant
            downloads.wf(),
            n == lib.natives@.len(),
            0 <= i <= n,
            libp == lib@,
            pm == (match platform_os {
                None => None,
                Some(ref v) => Some(v@),
            }),
            st == (LibState {
                downloads: old(downloads)@,
                classpath: old(classpath)@,
                natives: old(natives)@,
                is_lwjgl3: *old(lwjgl3),
            }),
            lib0 == old(lib)@,
            spec_process_library(st, lib0) == spec_process_natives(
                LibState {
                    downloads: downloads@,
                    classpath: classpath@,
                    natives: natives@,
                    is_lwjgl3: *lwjgl3,
                },
                libp,
                pm,
                libp.natives.skip(i as int),
            ),
        decreases n - i,
    {
        let ghost cur = LibState {
            downloads: downloads@,
            classpath: classpath@,
            natives: natives@,
            is_lwjgl3: *lwjgl3,
        };
        proof {
            assert(libp.natives[i as int] == (lib.natives@[i as int].0, lib.natives@[i as int].1@));
            assert(libp.natives.skip(i as int).first() == libp.natives[i as int]);
            assert(libp.natives.skip(i as int).drop_first() =~= libp.natives.skip(i as int + 1));
        }
        let os = lib.natives[i].0;
        let classifier = &lib.natives[i].1;
        match process_native_entry(
            downloads,
            natives,
            lib,
            &platform_os,
            os,
            classifier.as_str(),
            Ghost(cur),
        ) {
            Err(e) => {
                return Err(e);
            },
            Ok(()) => {},
        }
        i = i + 1;
    }
    proof {
        assert(libp.natives.skip(n as int) =~= Seq::<(OsName, Seq<char>)>::empty());
    }
    Ok(())
}

/// Split a legacy argument blob at every single space.
pub(crate) fn split_spaces(s: &str) -> (r: Vec<String>)
    ensures
        r@.map_values(|t: String| t@) == spec_split_from(s@, 0),
{
    let n = s.unicode_len();
    let mut parts: Vec<String> = Vec::new();
    let mut start: usize = 0;
    let mut i: usize = 0;
    proof {
        assert(parts@.map_values(|t: String| t@) =~= Seq::<Seq<char>>::empty());
    }
    while i < n
        invariant
            n == s@.len(),
            0 <= start <= i <= n,
            space_end(s@, start as int) == space_end(s@, i as int),
            spec_split_from(s@, 0) == parts@.map_values(|t: String| t@) + spec_split_from(
                s@,
                start as int,
            ),
        decreases n - i,
    {
        let ghost prev = parts@.map_values(|t: String| t@);
        if s.get_char(i) == ' ' {
            proof {
                assert(space_end(s@, i as int) == i as int);
            }
            let part = s.substring_char(start, i);
            parts.push(String::from_str(part));
            proof {
                assert(parts@.map_values(|t: String| t@) =~= prev.push(
                    s@.subrange(start as int, i as int),
                ));
                assert(prev + (seq![s@.subrange(start as int, i as int)] + spec_split_from(
                    s@,
                    i + 1,
                )) =~= prev.push(s@.subrange(start as int, i as int)) + spec_split_from(s@, i + 1));
            }
            start = i + 1;
        } else {
            proof {
                assert(space_end(s@, i as int) == space_end(s@, i + 1));
            }
        }
        i = i + 1;
    }
    proof {
        assert(space_end(s@, n as int) == n as int);
    }
    let ghost prev = parts@.map_values(|t: String| t@);
    let last = s.substring_char(start, n);
    parts.push(String::from_str(last));
    proof {
        assert(parts@.map_values(|t: String| t@) =~= prev.push(
            s@.subrange(start as int, n as int),
        ));
        assert(prev + seq![s@.subrange(start as int, n as int)] =~= prev.push(
            s@.subrange(start as int, n as int),
        ));
    }
    parts
}

/// Process a legacy argument blob: rewrite its space-separated tokens and
/// append the synthetic demo-gated argument.
fn process_legacy_arguments(ma: &str, vt: VersionType, args: &mut Vec<MinecraftArgument>) -> (r:
    Result<(), ProcessError>)
    ensures
        match r {
            Ok(()) => spec_remap_legacy_tokens(
                old(args)@.map_values(|a: MinecraftArgument| a@),
                spec_split_from(ma@, 0),
                vt,
            ) matches Ok(a2) && final(args)@.map_values(|a: MinecraftArgument| a@) == a2.push(
                ArgumentModel::Conditional { value: "--demo"@, feature: ConditionFeature::Demo },
            ),
            Err(e) => spec_remap_legacy_tokens(
                old(args)@.map_values(|a: MinecraftArgument| a@),
                spec_split_from(ma@, 0),
                vt,
            ) == Err::<Seq<ArgumentModel>, ProcessErrModel>(e@),
        },
{
    let parts = split_spaces(ma);
    let ghost toks = parts@.map_values(|t: String| t@);
    let n = parts.len();
    let mut i: usize = 0;
    proof {
        assert(toks.skip(0) =~= toks);
    }
    while i < n
        invariant
            n == parts@.len(),
            0 <= i <= n,
            toks == parts@.map_values(|t: String| t@),
            toks == spec_split_from(ma@, 0),
            spec_remap_legacy_tokens(
                old(args)@.map_values(|a: MinecraftArgument| a@),
                toks,
                vt,
            ) == spec_remap_legacy_tokens(
                args@.map_values(|a: MinecraftArgument| a@),
                toks.skip(i as int),
                vt,
            ),
        decreases n - i,
    {
        let ghost cur = args@.map_values(|a: MinecraftArgument| a@);
        proof {
            assert(toks[i as int] == parts@[i as int]@);
            assert(toks.skip(i as int).first() == toks[i as int]);
            assert(toks.skip(i as int).drop_first() =~= toks.skip(i as int + 1));
        }
        match crate::args::remap_vars(parts[i].as_str(), vt) {
            Err(te) => {
                proof {
                    assert(spec_remap_legacy_tokens(cur, toks.skip(i as int), vt) == Err::<
                        Seq<ArgumentModel>,
                        ProcessErrModel,
                    >(ProcessErrModel::Token(te@)));
                }
                return Err(ProcessError::Token(te));
            },
            Ok(o) => {
                args.push(MinecraftArgument::Always(o));
                proof {
                    assert(args@.map_values(|a: MinecraftArgument| a@) =~= cur.push(
                        ArgumentModel::Always(o@),
                    ));
                }
            },
        }
        i = i + 1;
    }
    proof {
        assert(toks.skip(n as int) =~= Seq::<Seq<char>>::empty());
    }
    let ghost before_demo = args@.map_values(|a: MinecraftArgument| a@);
    args.push(
        MinecraftArgument::Conditional {
            value: String::from_str("--demo"),
            feature: ConditionFeature::Demo,
        },
    );
    proof {
        assert(args@.map_values(|a: MinecraftArgument| a@) =~= before_demo.push(
            ArgumentModel::Conditional { value: "--demo"@, feature: ConditionFeature::Demo },
        ));
    }
    Ok(())
}

/// Process the structured game arguments: rewrite bare values, classify and
/// gate conditional ones, recording traits.
fn process_game_arguments(
    game: &Vec<MojangConditionalValue>,
    vt: VersionType,
    args: &mut Vec<MinecraftArgument>,
    traits: &mut TraitSet,
) -> (r: Result<(), ProcessError>)
    requires
        old(traits).wf(),
    ensures
        final(traits).wf(),
        ({
            let ast = ArgState {
                arguments: old(args)@.map_values(|a: MinecraftArgument| a@),
                traits: old(traits)@,
            };
            let gm = game@.map_values(|v: MojangConditionalValue| v@);
            match r {
                Ok(()) => spec_process_game_arguments(ast, gm, vt) matches Ok(ast2)
                    && ast2.arguments == final(args)@.map_values(|a: MinecraftArgument| a@)
                    && ast2.traits == final(traits)@,
                Err(e) => spec_process_game_arguments(ast, gm, vt) == Err::<
                    ArgState,
                    ProcessErrModel,
                >(e@),
            }
        }),
{
    let ghost gm = game@.map_values(|v: MojangConditionalValue| v@);
    let n = game.len();
    let mut i: usize = 0;
    proof {
        assert(gm.skip(0) =~= gm);
    }
    while i < n
        invariant
            n == game@.len(),
            0 <= i <= n,
            traits.wf(),
            gm == game@.map_values(|v: MojangConditionalValue| v@),
            spec_process_game_arguments(
                ArgState {
                    arguments: old(args)@.map_values(|a: MinecraftArgument| a@),
                    traits: old(traits)@,
                },
                gm,
                vt,
            ) == spec_process_game_arguments(
                ArgState {
                    arguments: args@.map_values(|a: MinecraftArgument| a@),
                    traits: traits@,
                },
                gm.skip(i as int),
                vt,
            ),
        decreases n - i,
    {
        let ghost cur = ArgState {
            arguments: args@.map_values(|a: MinecraftArgument| a@),
            traits: traits@,
        };
        proof {
            assert(gm[i as int] == game@[i as int]@);
            assert(gm.skip(i as int).first() == gm[i as int]);
            assert(gm.skip(i as int).drop_first() =~= gm.skip(i as int + 1));
        }
        match &game[i] {
            MojangConditionalValue::Always(s) => {
                match crate::args::remap_vars(s.as_str(), vt) {
                    Err(te) => {
                        return Err(ProcessError::Token(te));
                    },
                    Ok(o) => {
                        args.push(MinecraftArgument::Always(o));
                        proof {
                            assert(args@.map_values(|a: MinecraftArgument| a@)
                                =~= cur.arguments.push(ArgumentModel::Always(o@)));
                        }
                    },
                }
            },
            MojangConditionalValue::Conditional { rules, value } => {
                proof {
                    if rules@.len() >= 1 {
                        assert(rules@.map_values(|x: Rule| x@)[0] == rules@[0]@);
                    }
                }
                if rules.len() != 1 {
                    return Err(ProcessError::ArgumentRuleShape);
                }
                let allow = match rules[0].action {
                    crate::rules::RuleAction::Allow => true,
                    _ => false,
                };
                if !allow {
                    return Err(ProcessError::ArgumentRuleShape);
                }
                if rules[0].os.is_some() {
                    return Err(ProcessError::ArgumentRuleShape);
                }
                let f = match rules[0].features {
                    None => {
                        return Err(ProcessError::ArgumentRuleShape);
                    },
                    Some(f) => f,
                };
                match crate::args::classify_features(&f) {
                    Err(fe) => {
                        return Err(ProcessError::ArgumentFeature(fe));
                    },
                    Ok(FeatureOutcome::Skip) => {},
                    Ok(FeatureOutcome::Use { feature, adds }) => {
                        if let Some(t) = adds {
                            traits.insert(t);
                        }
                        let ghost vals = value@.map_values(|v: String| v@);
                        let vn = value.len();
                        let mut vi: usize = 0;
                        proof {
                            assert(vals.skip(0) =~= vals);
                        }
                        while vi < vn
                            invariant
                                vn == value@.len(),
                                0 <= vi <= vn,
                                0 <= i < gm.len(),
                                traits.wf(),
                                gm == game@.map_values(|v: MojangConditionalValue| v@),
                                vals == value@.map_values(|v: String| v@),
                                spec_remap_cond_values(cur.arguments, vals, vt, feature)
                                    == spec_remap_cond_values(
                                    args@.map_values(|a: MinecraftArgument| a@),
                                    vals.skip(vi as int),
                                    vt,
                                    feature,
                                ),
                                spec_process_game_argument(cur, gm[i as int], vt)
                                    == (match spec_remap_cond_values(
                                    cur.arguments,
                                    vals,
                                    vt,
                                    feature,
                                ) {
                                    Err(e) => Err::<ArgState, ProcessErrModel>(e),
                                    Ok(args2) => Ok(
                                        ArgState { arguments: args2, traits: traits@ },
                                    ),
                                }),
                                spec_process_game_arguments(
                                    ArgState {
                                        arguments: old(args)@.map_values(
                                            |a: MinecraftArgument| a@,
                                        ),
                                        traits: old(traits)@,
                                    },
                                    gm,
                                    vt,
                                ) == spec_process_game_arguments(cur, gm.skip(i as int), vt),
                                gm.skip(i as int).first() == gm[i as int],
                                gm.skip(i as int).drop_first() == gm.skip(i as int + 1),
                            decreases vn - vi,
                        {
                            let ghost inner = args@.map_values(|a: MinecraftArgument| a@);
                            proof {
                                assert(vals[vi as int] == value@[vi as int]@);
                                assert(vals.skip(vi as int).first() == vals[vi as int]);
                                assert(vals.skip(vi as int).drop_first() =~= vals.skip(
                                    vi as int + 1,
                                ));
                            }
                            match crate::args::remap_vars(value[vi].as_str(), vt) {
                                Err(te) => {
                                    proof {
                                        let e_model = ProcessErrModel::Token(te@);
                                        assert(spec_remap_cond_values(
                                            inner,
                                            vals.skip(vi as int),
                                            vt,
                                            feature,
                                        ) == Err::<Seq<ArgumentModel>, ProcessErrModel>(e_model));
                                        assert(spec_remap_cond_values(
                                            cur.arguments,
                                            vals,
                                            vt,
                                            feature,
                                        ) == Err::<Seq<ArgumentModel>, ProcessErrModel>(e_model));
                                        assert(spec_process_game_argument(cur, gm[i as int], vt)
                                            == Err::<ArgState, ProcessErrModel>(e_model));
                                        assert(spec_process_game_arguments(
                                            cur,
                                            gm.skip(i as int),
                                            vt,
                                        ) == Err::<ArgState, ProcessErrModel>(e_model));
                                    }
                                    return Err(ProcessError::Token(te));
                                },
                                Ok(o) => {
                                    args.push(
                                        MinecraftArgument::Conditional { value: o, feature },
                                    );
                                    proof {
                                        assert(args@.map_values(|a: MinecraftArgument| a@)
                                            =~= inner.push(
                                            ArgumentModel::Conditional { value: o@, feature },
                                        ));
                                    }
                                },
                            }
                            vi = vi + 1;
                        }
                        proof {
                            assert(vals.skip(vn as int) =~= Seq::<Seq<char>>::empty());
                        }
                    },
                }
            },
        }
        i = i + 1;
    }
    proof {
        assert(gm.skip(n as int) =~= Seq::<ConditionalValueModel>::empty());
    }
    Ok(())
}

/// An owned copy of a rule.
fn duplicate_rule(r: &Rule) -> (d: Rule)
    ensures
        d@ == r@,
{
    Rule {
        features: r.features,
        os: match &r.os {
            Some(o) => Some(
                crate::rules::OsRule {
                    name: o.name,
                    version: match &o.version {
                        Some(v) => Some(v.clone()),
                        None => None,
                    },
                    arch: match &o.arch {
                        Some(a) => Some(a.clone()),
                        None => None,
                    },
                },
            ),
            None => None,
        },
        action: r.action,
    }
}

/// An owned copy of a library artifact.
fn duplicate_artifact(a: &MojangLibraryArtifact) -> (d: MojangLibraryArtifact)
    ensures
        d@ == a@,
{
    MojangLibraryArtifact {
        path: a.path.clone(),
        sha1: a.sha1.clone(),
        size: a.size,
        url: a.url.clone(),
    }
}

/// An owned copy of a library.
fn duplicate_library(l: &MojangLibrary) -> (d: MojangLibrary)
    ensures
        d@ == l@,
{
    let mut rules: Vec<Rule> = Vec::new();
    let rn = l.rules.len();
    let mut i: usize = 0;
    while i < rn
        invariant
            rn == l.rules@.len(),
            0 <= i <= rn,
            rules@.map_values(|x: Rule| x@) == l.rules@.take(i as int).map_values(|x: Rule| x@),
        decreases rn - i,
    {
        let ghost prev = rules@.map_values(|x: Rule| x@);
        rules.push(duplicate_rule(&l.rules[i]));
        proof {
            assert(rules@.map_values(|x: Rule| x@) =~= prev.push(l.rules@[i as int]@));
            assert(l.rules@.take(i as int + 1).map_values(|x: Rule| x@) =~= l.rules@.take(
                i as int,
            ).map_values(|x: Rule| x@).push(l.rules@[i as int]@));
        }
        i = i + 1;
    }
    proof {
        assert(l.rules@.take(rn as int) =~= l.rules@);
    }
    let mut classifiers: Vec<(String, MojangLibraryArtifact)> = Vec::new();
    let cn = l.downloads.classifiers.len();
    let mut j: usize = 0;
    while j < cn
        invariant
            cn == l.downloads.classifiers@.len(),
            0 <= j <= cn,
            classifiers@.map_values(|p: (String, MojangLibraryArtifact)| (p.0@, p.1@))
                == l.downloads.classifiers@.take(j as int).map_values(
                |p: (String, MojangLibraryArtifact)| (p.0@, p.1@),
            ),
        decreases cn - j,
    {
        let ghost prev = classifiers@.map_values(
            |p: (String, MojangLibraryArtifact)| (p.0@, p.1@),
        );
        let key = l.downloads.classifiers[j].0.clone();
        let art = duplicate_artifact(&l.downloads.classifiers[j].1);
        classifiers.push((key, art));
        proof {
            let lp = l.downloads.classifiers@[j as int];
            assert(classifiers@.map_values(|p: (String, MojangLibraryArtifact)| (p.0@, p.1@))
                =~= prev.push((lp.0@, lp.1@)));
            assert(l.downloads.classifiers@.take(j as int + 1).map_values(
                |p: (String, MojangLibraryArtifact)| (p.0@, p.1@),
            ) =~= l.downloads.classifiers@.take(j as int).map_values(
                |p: (String, MojangLibraryArtifact)| (p.0@, p.1@),
            ).push((lp.0@, lp.1@)));
        }
        j = j + 1;
    }
    proof {
        assert(l.downloads.classifiers@.take(cn as int) =~= l.downloads.classifiers@);
    }
    let mut natives: Vec<(OsName, String)> = Vec::new();
    let nn = l.natives.len();
    let mut k: usize = 0;
    while k < nn
        invariant
            nn == l.natives@.len(),
            0 <= k <= nn,
            natives@.map_values(|p: (OsName, String)| (p.0, p.1@)) == l.natives@.take(
                k as int,
            ).map_values(|p: (OsName, String)| (p.0, p.1@)),
        decreases nn - k,
    {
        let ghost prev = natives@.map_values(|p: (OsName, String)| (p.0, p.1@));
        let os = l.natives[k].0;
        let cls = l.natives[k].1.clone();
        natives.push((os, cls));
        proof {
            let lp = l.natives@[k as int];
            assert(natives@.map_values(|p: (OsName, String)| (p.0, p.1@)) =~= prev.push(
                (lp.0, lp.1@),
            ));
            assert(l.natives@.take(k as int + 1).map_values(|p: (OsName, String)| (p.0, p.1@))
                =~= l.natives@.take(k as int).map_values(|p: (OsName, String)| (p.0, p.1@)).push(
                (lp.0, lp.1@),
            ));
        }
        k = k + 1;
    }
    proof {
        assert(l.natives@.take(nn as int) =~= l.natives@);
    }
    let d = MojangLibrary {
        name: l.name.duplicate(),
        downloads: MojangLibraryDownloads {
            artifact: match &l.downloads.artifact {
                Some(a) => Some(duplicate_artifact(a)),
                None => None,
            },
            classifiers,
        },
        rules,
        extract: MojangNativeExtract { exclude: copy_strings(&l.extract.exclude) },
        natives,
    };
    proof {
        assert(d@.downloads == l@.downloads);
        assert(d@.rules == l@.rules);
        assert(d@.natives == l@.natives);
        assert(d@.extract == l@.extract);
    }
    d
}

/// Process a descriptor's libraries in document order against the scratch
/// state.
fn process_libraries(
    libs: &Vec<MojangLibrary>,
    downloads: &mut DownloadLedger,
    classpath: &mut ClasspathSet,
    natives: &mut NativeSet,
    lwjgl3: &mut bool,
) -> (r: Result<(), ProcessError>)
    requires
        old(downloads).wf(),
    ensures
        final(downloads).wf(),
        ({
            let st = LibState {
                downloads: old(downloads)@,
                classpath: old(classpath)@,
                natives: old(natives)@,
                is_lwjgl3: *old(lwjgl3),
            };
            let lm = libs@.map_values(|l: MojangLibrary| l@);
            match r {
                Ok(()) => spec_process_libraries(st, lm) matches Ok(st2) && st2.downloads
                    == final(downloads)@ && st2.classpath == final(classpath)@ && st2.natives
                    == final(natives)@ && st2.is_lwjgl3 == *final(lwjgl3),
                Err(e) => spec_process_libraries(st, lm) == Err::<LibState, ProcessErrModel>(e@),
            }
        }),
{
    let ghost lm = libs@.map_values(|l: MojangLibrary| l@);
    let n = libs.len();
    let mut i: usize = 0;
    proof {
        assert(lm.skip(0) =~= lm);
    }
    while i < n
        invariant
            n == libs@.len(),
            0 <= i <= n,
            downloads.wf(),
            lm == libs@.map_values(|l: MojangLibrary| l@),
            spec_process_libraries(
                LibState {
                    downloads: old(downloads)@,
                    classpath: old(classpath)@,
                    natives: old(natives)@,
                    is_lwjgl3: *old(lwjgl3),
                },
                lm,
            ) == spec_process_libraries(
                LibState {
                    downloads: downloads@,
                    classpath: classpath@,
                    natives: natives@,
                    is_lwjgl3: *lwjgl3,
                },
                lm.skip(i as int),
            ),
        decreases n - i,
    {
        let ghost cur = LibState {
            downloads: downloads@,
            classpath: classpath@,
            natives: natives@,
            is_lwjgl3: *lwjgl3,
        };
        proof {
            assert(lm[i as int] == libs@[i as int]@);
            assert(lm.skip(i as int).first() == lm[i as int]);
            assert(lm.skip(i as int).drop_first() =~= lm.skip(i as int + 1));
        }
        let mut lib = duplicate_library(&libs[i]);
        match process_library(&mut lib, downloads, classpath, natives, lwjgl3) {
            Err(e) => {
                proof {
                    assert(spec_process_library(cur, lm[i as int]) == Err::<
                        LibState,
                        ProcessErrModel,
                    >(e@));
                    assert(spec_process_libraries(cur, lm.skip(i as int)) == Err::<
                        LibState,
                        ProcessErrModel,
                    >(e@));
                }
                return Err(e);
            },
            Ok(()) => {},
        }
        i = i + 1;
    }
    proof {
        assert(lm.skip(n as int) =~= Seq::<LibraryModel>::empty());
    }
    Ok(())
}

/// Normalize one vendor version descriptor into a canonical component:
/// refuse inherited or downloadless descriptors, seed the ledger with the
/// client jar, walk the libraries, collect traits and launch arguments, and
/// assemble the immutable component record.
pub fn process_version(version: MojangVersion) -> (r: Result<Component, ProcessError>)
    ensures
        match r {
            Ok(c) => spec_process_version(version@) == Ok::<ComponentModel, ProcessErrModel>(c@),
            Err(e) => spec_process_version(version@) == Err::<ComponentModel, ProcessErrModel>(
                e@,
            ),
        },
{
    let ghost vm = version@;
    let MojangVersion {
        inherits_from,
        arguments,
        asset_index,
        downloads: version_downloads,
        id,
        libraries,
        main_class,
        minecraft_arguments,
        release_time,
        version_type,
    } = version;
    if inherits_from.is_some() {
        return Err(ProcessError::InheritedVersion);
    }
    let client = match version_downloads {
        Some(d) => d.client,
        None => {
            return Err(ProcessError::DownloadMissing);
        },
    };
    assert(client@ == vm.downloads->Some_0);
    let game_artifact_name = GradleSpecifier {
        group: String::from_str("com.mojang"),
        artifact: String::from_str("minecraft"),
        version: id.clone(),
        classifier: Some(String::from_str("client")),
        extension: String::from_str("jar"),
    };
    assert(game_artifact_name@ == spec_game_artifact_name(vm.id));
    let mut downloads = DownloadLedger::new();
    let seed = Download {
        name: game_artifact_name.duplicate(),
        url: client.url,
        size: client.size,
        hash: crate::component::Hash::SHA1(client.sha1),
    };
    let ghost seed_model = seed@;
    proof {
        assert(lookup(Seq::<DownloadModel>::empty(), seed_model.name) is None);
    }
    match downloads.insert(seed) {
        Err(ce) => {
            proof {
                assert(false);
            }
            return Err(ProcessError::HashMismatch(ce));
        },
        Ok(()) => {},
    }
    let ghost st0 = LibState {
        downloads: downloads@,
        classpath: Seq::empty(),
        natives: Seq::empty(),
        is_lwjgl3: false,
    };
    proof {
        assert(st0.downloads =~= seq![seed_model]);
        assert(seed_model == (DownloadModel {
            name: spec_game_artifact_name(vm.id),
            url: vm.downloads->Some_0.url,
            size: vm.downloads->Some_0.size,
            hash: HashModel::SHA1(vm.downloads->Some_0.sha1),
        }));
    }
    let mut classpath = ClasspathSet::new();
    let mut natives = NativeSet::new();
    let mut lwjgl3 = false;
    match process_libraries(&libraries, &mut downloads, &mut classpath, &mut natives, &mut lwjgl3)
    {
        Err(e) => {
            proof {
                assert(vm.libraries =~= libraries@.map_values(|l: MojangLibrary| l@));
                assert(spec_process_libraries(st0, vm.libraries) == Err::<
                    LibState,
                    ProcessErrModel,
                >(e@));
            }
            return Err(e);
        },
        Ok(()) => {},
    }
    proof {
        assert(vm.libraries =~= libraries@.map_values(|l: MojangLibrary| l@));
    }
    let ghost st = LibState {
        downloads: downloads@,
        classpath: classpath@,
        natives: natives@,
        is_lwjgl3: lwjgl3,
    };
    let mut traits = TraitSet::new();
    if lwjgl3 {
        traits.insert(Trait::MacStartOnFirstThread);
    }
    let mut args: Vec<MinecraftArgument> = Vec::new();
    let ghost ast0 = ArgState { arguments: Seq::empty(), traits: traits@ };
    proof {
        assert(args@.map_values(|a: MinecraftArgument| a@) =~= Seq::<ArgumentModel>::empty());
        assert(ast0.traits == (if st.is_lwjgl3 {
            trait_insert(Seq::empty(), Trait::MacStartOnFirstThread)
        } else {
            Seq::<Trait>::empty()
        }));
    }
    if let Some(va) = &arguments {
        proof {
            assert(vm.arguments->Some_0.game =~= va.game@.map_values(
                |v: MojangConditionalValue| v@,
            ));
        }
        match process_game_arguments(&va.game, version_type, &mut args, &mut traits) {
            Err(e) => {
                return Err(e);
            },
            Ok(()) => {},
        }
    }
    let ghost ast1 = ArgState {
        arguments: args@.map_values(|a: MinecraftArgument| a@),
        traits: traits@,
    };
    if let Some(ma) = &minecraft_arguments {
        match process_legacy_arguments(ma.as_str(), version_type, &mut args) {
            Err(e) => {
                return Err(e);
            },
            Ok(()) => {},
        }
    }
    let ghost ast2 = ArgState {
        arguments: args@.map_values(|a: MinecraftArgument| a@),
        traits: traits@,
    };
    let component = Component {
        format_version: 1,
        id: String::from_str("net.minecraft"),
        version: id,
        requires: Vec::new(),
        traits: traits.into_traits(),
        assets: match asset_index {
            Some(a) => Some(Assets::from_index(a)),
            None => None,
        },
        conflicts: Vec::new(),
        downloads: downloads.into_downloads(),
        jarmods: Vec::new(),
        game_jar: Some(game_artifact_name),
        main_class: Some(main_class),
        classpath: classpath.into_entries(),
        natives: natives.into_entries(),
        game_arguments: args,
        release_time,
    };
    proof {
        let expected = spec_process_version(vm)->Ok_0;
        assert(component@.requires =~= expected.requires);
        assert(component@.conflicts =~= expected.conflicts);
        assert(component@.jarmods =~= expected.jarmods);
        assert(component@.assets == expected.assets);
        assert(component@.downloads == expected.downloads);
        assert(component@.classpath == expected.classpath);
        assert(component@.natives == expected.natives);
        assert(component@.game_arguments == expected.game_arguments);
        assert(component@.traits == expected.traits);
        assert(component@ == expected);
    }
    Ok(component)
}

} // verus!

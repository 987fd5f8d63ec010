//! The canonical component format: the launcher-facing record a vendor
//! version descriptor is normalized into.

use vstd::prelude::*;
use vstd::string::*;

use crate::coordinate::{CoordModel, GradleSpecifier};

verus! {

/// The fixed operating-system universe rules are evaluated against.
#[derive(Debug, Clone, Copy, Hash, PartialEq, Eq, Structural)]
pub enum OsName {
    Linux,
    Osx,
    Windows,
}

/// A component this component requires or conflicts with.
#[derive(Debug, Clone)]
pub struct ComponentDependency {
    pub id: String,
    pub version: Option<String>,
}

/// Model of a dependency entry.
pub struct DependencyModel {
    pub id: Seq<char>,
    pub version: Option<Seq<char>>,
}

impl View for ComponentDependency {
    type V = DependencyModel;

    open spec fn view(&self) -> DependencyModel {
        DependencyModel {
            id: self.id@,
            version: match self.version {
                Some(ref v) => Some(v@),
                None => None,
            },
        }
    }
}

/// A content hash tagged with its algorithm.
#[derive(Debug, Clone)]
pub enum Hash {
    SHA256(String),
    SHA1(String),
}

/// Model of a tagged hash.
pub enum HashModel {
    SHA256(Seq<char>),
    SHA1(Seq<char>),
}

impl View for Hash {
    type V = HashModel;

    open spec fn view(&self) -> HashModel {
        match self {
            Hash::SHA256(h) => HashModel::SHA256(h@),
            Hash::SHA1(h) => HashModel::SHA1(h@),
        }
    }
}

impl Hash {
    /// Whether two hashes agree in both algorithm and digest.
    pub fn same(&self, other: &Hash) -> (r: bool)
        ensures
            r == (self@ == other@),
    {
        match (self, other) {
            (Hash::SHA256(a), Hash::SHA256(b)) => *a == *b,
            (Hash::SHA1(a), Hash::SHA1(b)) => *a == *b,
            _ => false,
        }
    }

    /// An owned copy of this hash.
    pub fn duplicate(&self) -> (r: Hash)
        ensures
            r@ == self@,
    {
        match self {
            Hash::SHA256(h) => Hash::SHA256(h.clone()),
            Hash::SHA1(h) => Hash::SHA1(h.clone()),
        }
    }

    /// A short text describing the hash, naming its algorithm.
    pub fn describe(&self) -> (r: String)
        ensures
            match self@ {
                HashModel::SHA1(h) => r@ == "SHA1 hash "@ + h,
                HashModel::SHA256(h) => r@ == "SHA256 hash "@ + h,
            },
    {
        match self {
            Hash::SHA1(hash) => {
                let mut s = String::from_str("SHA1 hash ");
                s.append(hash.as_str());
                s
            },
            Hash::SHA256(hash) => {
                let mut s = String::from_str("SHA256 hash ");
                s.append(hash.as_str());
                s
            },
        }
    }
}

/// One artifact to download.
#[derive(Debug, Clone)]
pub struct Download {
    pub name: GradleSpecifier,
    pub url: String,
    pub size: u32,
    pub hash: Hash,
}

/// Model of a download descriptor.
pub struct DownloadModel {
    pub name: CoordModel,
    pub url: Seq<char>,
    pub size: u32,
    pub hash: HashModel,
}

impl View for Download {
    type V = DownloadModel;

    open spec fn view(&self) -> DownloadModel {
        DownloadModel { name: self.name@, url: self.url@, size: self.size, hash: self.hash@ }
    }
}

/// A capability flag attached to a component.
#[derive(Debug, Clone, Copy, Hash, PartialEq, Eq, Structural)]
pub enum Trait {
    /// This component needs -XstartOnFirstThread on macOS.
    MacStartOnFirstThread,
    /// The component understands custom window-resolution arguments.
    SupportsCustomResolution,
    /// The component can launch straight into a singleplayer world.
    SupportsQuickPlayWorld,
    /// The component can launch straight into a multiplayer server.
    SupportsQuickPlayServer,
}

/// The canonical order traits are listed in.
pub open spec fn trait_rank(t: Trait) -> int {
    match t {
        Trait::MacStartOnFirstThread => 0,
        Trait::SupportsCustomResolution => 1,
        Trait::SupportsQuickPlayWorld => 2,
        Trait::SupportsQuickPlayServer => 3,
    }
}

impl Trait {
    /// Position of this trait in the canonical listing order.
    pub fn rank(self) -> (r: u8)
        ensures
            r as int == trait_rank(self),
    {
        match self {
            Trait::MacStartOnFirstThread => 0,
            Trait::SupportsCustomResolution => 1,
            Trait::SupportsQuickPlayWorld => 2,
            Trait::SupportsQuickPlayServer => 3,
        }
    }
}

/// A processor architecture tag.
#[derive(Debug, Clone, Copy, Hash, PartialEq, Eq, Structural)]
pub enum Arch {
    X86,
    X86_64,
    Arm64,
}

/// The platforms an entry applies to: an OS list (empty means unconstrained)
/// and an optional architecture.
#[derive(Debug, Clone)]
pub struct Platform {
    pub os: Vec<OsName>,
    pub arch: Option<Arch>,
}

/// Model of a platform constraint.
pub struct PlatformModel {
    pub os: Seq<OsName>,
    pub arch: Option<Arch>,
}

impl View for Platform {
    type V = PlatformModel;

    open spec fn view(&self) -> PlatformModel {
        PlatformModel { os: self.os@, arch: self.arch }
    }
}

impl Platform {
    /// Whether two platform constraints agree in OS list and architecture.
    pub fn same(&self, other: &Platform) -> (r: bool)
        ensures
            r == (self@ == other@),
    {
        if self.os.len() != other.os.len() {
            assert(self@.os.len() != other@.os.len());
            return false;
        }
        let n = self.os.len();
        let mut i: usize = 0;
        while i < n
            invariant
                n == self.os@.len(),
                n == other.os@.len(),
                0 <= i <= n,
                forall|j: int| 0 <= j < i ==> self.os@[j] == other.os@[j],
            decreases n - i,
        {
            if !(self.os[i] == other.os[i]) {
                assert(self@.os[i as int] != other@.os[i as int]);
                return false;
            }
            i = i + 1;
        }
        proof {
            assert(self.os@ =~= other.os@);
        }
        match (self.arch, other.arch) {
            (Some(a), Some(b)) => a == b,
            (None, None) => true,
            _ => false,
        }
    }
}

/// Whether two string lists agree element by element.
fn string_vec_eq(a: &Vec<String>, b: &Vec<String>) -> (r: bool)
    ensures
        r == (a@.map_values(|e: String| e@) == b@.map_values(|e: String| e@)),
{
    let ghost am = a@.map_values(|e: String| e@);
    let ghost bm = b@.map_values(|e: String| e@);
    if a.len() != b.len() {
        assert(am.len() != bm.len());
        return false;
    }
    let n = a.len();
    let mut i: usize = 0;
    while i < n
        invariant
            n == a@.len(),
            n == b@.len(),
            am == a@.map_values(|e: String| e@),
            bm == b@.map_values(|e: String| e@),
            0 <= i <= n,
            forall|j: int| 0 <= j < i ==> am[j] == bm[j],
        decreases n - i,
    {
        if !(a[i] == b[i]) {
            assert(am[i as int] != bm[i as int]);
            return false;
        }
        i = i + 1;
    }
    proof {
        assert(am =~= bm);
    }
    true
}

/// A native library: a classifier-qualified coordinate scoped to one
/// platform, with extraction exclusions.
#[derive(Debug, Clone)]
pub struct Native {
    pub name: GradleSpecifier,
    pub platform: Platform,
    pub exclusions: Vec<String>,
}

/// Model of a native entry.
pub struct NativeModel {
    pub name: CoordModel,
    pub platform: PlatformModel,
    pub exclusions: Seq<Seq<char>>,
}

impl View for Native {
    type V = NativeModel;

    open spec fn view(&self) -> NativeModel {
        NativeModel {
            name: self.name@,
            platform: self.platform@,
            exclusions: self.exclusions@.map_values(|e: String| e@),
        }
    }
}

impl Native {
    /// Whether two native entries agree in every field.
    pub fn same(&self, other: &Native) -> (r: bool)
        ensures
            r == (self@ == other@),
    {
        self.name.key_eq(&other.name) && self.platform.same(&other.platform) && string_vec_eq(
            &self.exclusions,
            &other.exclusions,
        )
    }
}

/// A classpath entry, either unconditional or scoped to a platform.
#[derive(Debug, Clone)]
pub enum ConditionalClasspathEntry {
    All(GradleSpecifier),
    PlatformSpecific { name: GradleSpecifier, platform: Platform },
}

/// Model of a classpath entry.
pub enum ClasspathEntryModel {
    All(CoordModel),
    PlatformSpecific { name: CoordModel, platform: PlatformModel },
}

impl View for ConditionalClasspathEntry {
    type V = ClasspathEntryModel;

    open spec fn view(&self) -> ClasspathEntryModel {
        match self {
            ConditionalClasspathEntry::All(name) => ClasspathEntryModel::All(name@),
            ConditionalClasspathEntry::PlatformSpecific { name, platform } =>
                ClasspathEntryModel::PlatformSpecific { name: name@, platform: platform@ },
        }
    }
}

impl ConditionalClasspathEntry {
    /// Whether two classpath entries agree in kind and every field.
    pub fn same(&self, other: &ConditionalClasspathEntry) -> (r: bool)
        ensures
            r == (self@ == other@),
    {
        match (self, other) {
            (ConditionalClasspathEntry::All(a), ConditionalClasspathEntry::All(b)) => a.key_eq(b),
            (
                ConditionalClasspathEntry::PlatformSpecific { name: an, platform: ap },
                ConditionalClasspathEntry::PlatformSpecific { name: bn, platform: bp },
            ) => an.key_eq(bn) && ap.same(bp),
            _ => false,
        }
    }
}

/// The asset-index descriptor of a component.
#[derive(Debug, Clone)]
pub struct Assets {
    pub id: String,
    pub url: String,
    pub sha1: String,
    pub size: u32,
    pub total_size: u32,
}

/// Model of an asset-index descriptor.
pub struct AssetsModel {
    pub id: Seq<char>,
    pub url: Seq<char>,
    pub sha1: Seq<char>,
    pub size: u32,
    pub total_size: u32,
}

impl View for Assets {
    type V = AssetsModel;

    open spec fn view(&self) -> AssetsModel {
        AssetsModel {
            id: self.id@,
            url: self.url@,
            sha1: self.sha1@,
            size: self.size,
            total_size: self.total_size,
        }
    }
}

/// The named feature flag a conditional argument is gated by.
#[derive(Debug, Clone, Copy, Hash, PartialEq, Eq, Structural)]
pub enum ConditionFeature {
    Demo,
    CustomResolution,
    QuickPlayWorld,
    QuickPlayServer,
}

/// One launch argument, unconditional or gated by a feature flag.
#[derive(Debug, Clone)]
pub enum MinecraftArgument {
    Always(String),
    Conditional { value: String, feature: ConditionFeature },
}

/// Model of a launch argument.
pub enum ArgumentModel {
    Always(Seq<char>),
    Conditional { value: Seq<char>, feature: ConditionFeature },
}

impl View for MinecraftArgument {
    type V = ArgumentModel;

    open spec fn view(&self) -> ArgumentModel {
        match self {
            MinecraftArgument::Always(v) => ArgumentModel::Always(v@),
            MinecraftArgument::Conditional { value, feature } => ArgumentModel::Conditional {
                value: value@,
                feature: *feature,
            },
        }
    }
}

/// The canonical component record, assembled once per processed descriptor.
#[derive(Debug)]
pub struct Component {
    pub format_version: u32,
    pub id: String,
    pub version: String,
    pub requires: Vec<ComponentDependency>,
    pub traits: Vec<Trait>,
    pub assets: Option<Assets>,
    pub conflicts: Vec<ComponentDependency>,
    pub downloads: Vec<Download>,
    pub jarmods: Vec<GradleSpecifier>,
    pub game_jar: Option<GradleSpecifier>,
    pub main_class: Option<String>,
    pub classpath: Vec<ConditionalClasspathEntry>,
    pub natives: Vec<Native>,
    pub game_arguments: Vec<MinecraftArgument>,
    /// Release instant as milliseconds since the Unix epoch.
    pub release_time: i64,
}

/// Model of a component record.
pub struct ComponentModel {
    pub format_version: u32,
    pub id: Seq<char>,
    pub version: Seq<char>,
    pub requires: Seq<DependencyModel>,
    pub traits: Seq<Trait>,
    pub assets: Option<AssetsModel>,
    pub conflicts: Seq<DependencyModel>,
    pub downloads: Seq<DownloadModel>,
    pub jarmods: Seq<CoordModel>,
    pub game_jar: Option<CoordModel>,
    pub main_class: Option<Seq<char>>,
    pub classpath: Seq<ClasspathEntryModel>,
    pub natives: Seq<NativeModel>,
    pub game_arguments: Seq<ArgumentModel>,
    pub release_time: i64,
}

impl View for Component {
    type V = ComponentModel;

    open spec fn view(&self) -> ComponentModel {
        ComponentModel {
            format_version: self.format_version,
            id: self.id@,
            version: self.version@,
            requires: self.requires@.map_values(|d: ComponentDependency| d@),
            traits: self.traits@,
            assets: match self.assets {
                Some(ref a) => Some(a@),
                None => None,
            },
            conflicts: self.conflicts@.map_values(|d: ComponentDependency| d@),
            downloads: self.downloads@.map_values(|d: Download| d@),
            jarmods: self.jarmods@.map_values(|j: GradleSpecifier| j@),
            game_jar: match self.game_jar {
                Some(ref g) => Some(g@),
                None => None,
            },
            main_class: match self.main_class {
                Some(ref m) => Some(m@),
                None => None,
            },
            classpath: self.classpath@.map_values(|e: ConditionalClasspathEntry| e@),
            natives: self.natives@.map_values(|n: Native| n@),
            game_arguments: self.game_arguments@.map_values(|a: MinecraftArgument| a@),
            release_time: self.release_time,
        }
    }
}

} // verus!

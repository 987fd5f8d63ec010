//! Components for the forge loader: a descriptor embedded in an installer
//! archive, with plain libraries, a legacy argument blob taken from its
//! tweak-class marker on, and the loader version extracted from the
//! release id.

use vstd::prelude::*;
use vstd::string::*;

use crate::component::{
    ArgumentModel, ClasspathEntryModel, Component, ComponentDependency, ComponentModel,
    ConditionalClasspathEntry, DependencyModel, Download, DownloadModel, HashModel,
};
use crate::coordinate::{CoordModel, GradleSpecifier};
use crate::mojang::{
    spec_split_from, split_spaces, LibraryModel, MojangLibrary, MojangVersion, VersionModel,
};
use crate::strutil::{find_char, find_from, find_seq, match_at};

verus! {

/// A character a release-version segment may hold.
pub open spec fn is_digit_dot(c: char) -> bool {
    let u = c as u32;
    (48 <= u && u <= 57) || u == 46
}

/// Nonempty text of digits and dots.
pub open spec fn digit_dots(s: Seq<char>) -> bool {
    s.len() > 0 && forall|i: int| 0 <= i < s.len() ==> is_digit_dot(s[i])
}

/// The loader version a release id encodes: a digits-and-dots game
/// version, a `-forge-` or `-Forge` separator, then the digits-and-dots
/// loader version running to the end.
pub open spec fn spec_forge_version_of(id: Seq<char>) -> Option<Seq<char>> {
    match id.index_of_first('-') {
        None => None,
        Some(i) => {
            let a = id.subrange(0, i);
            let rest = id.subrange(i, id.len() as int);
            if !digit_dots(a) {
                None
            } else if match_at(rest, "-forge-"@, 0) {
                let b = rest.subrange(7, rest.len() as int);
                if digit_dots(b) {
                    Some(b)
                } else {
                    None
                }
            } else if match_at(rest, "-Forge"@, 0) {
                let b = rest.subrange(6, rest.len() as int);
                if digit_dots(b) {
                    Some(b)
                } else {
                    None
                }
            } else {
                None
            }
        },
    }
}

/// Whether text is nonempty digits and dots.
fn all_digit_dots(s: &str) -> (r: bool)
    ensures
        r == digit_dots(s@),
{
    let n = s.unicode_len();
    if n == 0 {
        return false;
    }
    let mut i: usize = 0;
    while i < n
        invariant
            n == s@.len(),
            0 < n,
            0 <= i <= n,
            forall|j: int| 0 <= j < i ==> is_digit_dot(s@[j]),
        decreases n - i,
    {
        let c = s.get_char(i);
        let u = c as u32;
        if !((48 <= u && u <= 57) || u == 46) {
            assert(!is_digit_dot(s@[i as int]));
            return false;
        }
        i = i + 1;
    }
    true
}

/// Extract the loader version from a release id.
pub fn parse_forge_version(id: &str) -> (r: Option<String>)
    ensures
        match r {
            Some(v) => spec_forge_version_of(id@) == Some(v@),
            None => spec_forge_version_of(id@) is None,
        },
{
    let n = id.unicode_len();
    let i = match find_char(id, '-') {
        None => {
            return None;
        },
        Some(i) => i,
    };
    proof {
        id@.index_of_first_ensures('-');
    }
    let a = id.substring_char(0, i);
    let rest = id.substring_char(i, n);
    if !all_digit_dots(a) {
        return None;
    }
    if crate::strutil::starts_with(rest, "-forge-") {
        proof {
            reveal_strlit("-forge-");
        }
        let rn = rest.unicode_len();
        let b = rest.substring_char(7, rn);
        if all_digit_dots(b) {
            Some(String::from_str(b))
        } else {
            None
        }
    } else if crate::strutil::starts_with(rest, "-Forge") {
        proof {
            reveal_strlit("-Forge");
        }
        let rn = rest.unicode_len();
        let b = rest.substring_char(6, rn);
        if all_digit_dots(b) {
            Some(String::from_str(b))
        } else {
            None
        }
    } else {
        None
    }
}

/// Why a forge descriptor could not be normalized.
#[derive(Debug)]
pub enum ForgeError {
    /// The descriptor carries its own downloads section, which the
    /// installer format does not.
    UnexpectedDownloads,
    /// The descriptor carries an asset index.
    UnexpectedAssetIndex,
    /// The descriptor carries structured arguments.
    UnexpectedArguments,
    /// The legacy argument blob is missing.
    MinecraftArgumentsMissing,
    /// The game version the descriptor builds on is missing.
    MinecraftVersionMissing,
    /// The release id does not encode a loader version.
    UnversionedId { id: String },
    /// A library carries rules, which the installer format does not.
    UnexpectedLibraryRules { name: GradleSpecifier },
    /// A library declares native classifiers.
    UnexpectedLibraryNatives { name: GradleSpecifier },
    /// A library declares a classifier map.
    UnexpectedLibraryClassifiers { name: GradleSpecifier },
    /// A library has no direct artifact.
    ArtifactMissing { name: GradleSpecifier },
    /// The argument blob holds no tweak-class marker.
    InvalidArguments,
    /// The retained arguments still hold a substitution pattern.
    UnresolvedArgumentPattern,
}

/// Model of a forge failure.
pub enum ForgeErrModel {
    UnexpectedDownloads,
    UnexpectedAssetIndex,
    UnexpectedArguments,
    MinecraftArgumentsMissing,
    MinecraftVersionMissing,
    UnversionedId { id: Seq<char> },
    UnexpectedLibraryRules { name: CoordModel },
    UnexpectedLibraryNatives { name: CoordModel },
    UnexpectedLibraryClassifiers { name: CoordModel },
    ArtifactMissing { name: CoordModel },
    InvalidArguments,
    UnresolvedArgumentPattern,
}

impl View for ForgeError {
    type V = ForgeErrModel;

    open spec fn view(&self) -> ForgeErrModel {
        match self {
            ForgeError::UnexpectedDownloads => ForgeErrModel::UnexpectedDownloads,
            ForgeError::UnexpectedAssetIndex => ForgeErrModel::UnexpectedAssetIndex,
            ForgeError::UnexpectedArguments => ForgeErrModel::UnexpectedArguments,
            ForgeError::MinecraftArgumentsMissing => ForgeErrModel::MinecraftArgumentsMissing,
            ForgeError::MinecraftVersionMissing => ForgeErrModel::MinecraftVersionMissing,
            ForgeError::UnversionedId { id } => ForgeErrModel::UnversionedId { id: id@ },
            ForgeError::UnexpectedLibraryRules { name } => ForgeErrModel::UnexpectedLibraryRules {
                name: name@,
            },
            ForgeError::UnexpectedLibraryNatives { name } =>
                ForgeErrModel::UnexpectedLibraryNatives { name: name@ },
            ForgeError::UnexpectedLibraryClassifiers { name } =>
                ForgeErrModel::UnexpectedLibraryClassifiers { name: name@ },
            ForgeError::ArtifactMissing { name } => ForgeErrModel::ArtifactMissing { name: name@ },
            ForgeError::InvalidArguments => ForgeErrModel::InvalidArguments,
            ForgeError::UnresolvedArgumentPattern => ForgeErrModel::UnresolvedArgumentPattern,
        }
    }
}

/// Walk the libraries: each must be a bare artifact, every one of which is
/// downloaded and placed unconditionally on the classpath, duplicates kept
/// as declared.
pub open spec fn spec_forge_libraries(libs: Seq<LibraryModel>) -> Result<
    (Seq<DownloadModel>, Seq<ClasspathEntryModel>),
    ForgeErrModel,
>
    decreases libs.len(),
{
    if libs.len() == 0 {
        Ok((Seq::empty(), Seq::empty()))
    } else {
        let lib = libs.first();
        if lib.rules.len() != 0 {
            Err(ForgeErrModel::UnexpectedLibraryRules { name: lib.name })
        } else if lib.natives.len() != 0 {
            Err(ForgeErrModel::UnexpectedLibraryNatives { name: lib.name })
        } else if lib.downloads.classifiers.len() != 0 {
            Err(ForgeErrModel::UnexpectedLibraryClassifiers { name: lib.name })
        } else {
            match lib.downloads.artifact {
                None => Err(ForgeErrModel::ArtifactMissing { name: lib.name }),
                Some(a) => match spec_forge_libraries(libs.drop_first()) {
                    Err(e) => Err(e),
                    Ok(rest) => Ok(
                        (
                            seq![
                                DownloadModel {
                                    name: lib.name,
                                    url: a.url,
                                    size: a.size,
                                    hash: HashModel::SHA1(a.sha1),
                                },
                            ] + rest.0,
                            seq![ClasspathEntryModel::All(lib.name)] + rest.1,
                        ),
                    ),
                },
            }
        }
    }
}

/// Normalize a forge installer descriptor: refuse any section the
/// installer format does not carry, extract the loader version from the
/// release id, take the libraries as plain classpath entries, and keep the
/// argument blob from its tweak-class marker on.
pub open spec fn spec_forge_component(v: VersionModel) -> Result<ComponentModel, ForgeErrModel> {
    if v.downloads is Some {
        Err(ForgeErrModel::UnexpectedDownloads)
    } else if v.asset_index is Some {
        Err(ForgeErrModel::UnexpectedAssetIndex)
    } else if v.arguments is Some {
        Err(ForgeErrModel::UnexpectedArguments)
    } else {
        match v.minecraft_arguments {
            None => Err(ForgeErrModel::MinecraftArgumentsMissing),
            Some(ma) => match v.inherits_from {
                None => Err(ForgeErrModel::MinecraftVersionMissing),
                Some(minecraft_version) => match spec_forge_version_of(v.id) {
                    None => Err(ForgeErrModel::UnversionedId { id: v.id }),
                    Some(forge_version) => match spec_forge_libraries(v.libraries) {
                        Err(e) => Err(e),
                        Ok(lists) => match find_from(ma, "--tweakClass"@, 0) {
                            None => Err(ForgeErrModel::InvalidArguments),
                            Some(at) => {
                                let retained = ma.subrange(at, ma.len() as int);
                                if retained.contains('$') {
                                    Err(ForgeErrModel::UnresolvedArgumentPattern)
                                } else {
                                    Ok(
                                        ComponentModel {
                                            format_version: 1,
                                            id: "net.minecraftforge.forge"@,
                                            version: forge_version,
                                            requires: seq![
                                                DependencyModel {
                                                    id: "net.minecraft"@,
                                                    version: Some(minecraft_version),
                                                },
                                            ],
                                            traits: Seq::empty(),
                                            assets: None,
                                            conflicts: Seq::empty(),
                                            downloads: lists.0,
                                            jarmods: Seq::empty(),
                                            game_jar: None,
                                            main_class: Some(v.main_class),
                                            classpath: lists.1,
                                            natives: Seq::empty(),
                                            game_arguments: spec_split_from(
                                                retained,
                                                0,
                                            ).map_values(|t: Seq<char>| ArgumentModel::Always(t)),
                                            release_time: v.release_time,
                                        },
                                    )
                                }
                            },
                        },
                    },
                },
            },
        }
    }
}

/// Normalize one forge installer descriptor.
pub fn forge_component(version: MojangVersion) -> (r: Result<Component, ForgeError>)
    ensures
        match r {
            Ok(c) => spec_forge_component(version@) == Ok::<ComponentModel, ForgeErrModel>(c@),
            Err(e) => spec_forge_component(version@) == Err::<ComponentModel, ForgeErrModel>(e@),
        },
{
    let ghost vm = version@;
    let MojangVersion {
        inherits_from,
        arguments,
        asset_index,
        downloads: version_downloads,
        id,
        libraries,
        main_class,
        minecraft_arguments,
        release_time,
        version_type: _,
    } = version;
    if version_downloads.is_some() {
        return Err(ForgeError::UnexpectedDownloads);
    }
    if asset_index.is_some() {
        return Err(ForgeError::UnexpectedAssetIndex);
    }
    if arguments.is_some() {
        return Err(ForgeError::UnexpectedArguments);
    }
    let ma = match minecraft_arguments {
        None => {
            return Err(ForgeError::MinecraftArgumentsMissing);
        },
        Some(ma) => ma,
    };
    let minecraft_version = match inherits_from {
        None => {
            return Err(ForgeError::MinecraftVersionMissing);
        },
        Some(mv) => mv,
    };
    let forge_version = match parse_forge_version(id.as_str()) {
        None => {
            return Err(ForgeError::UnversionedId { id });
        },
        Some(fv) => fv,
    };
    let ghost lm = libraries@.map_values(|l: MojangLibrary| l@);
    let mut downloads: Vec<Download> = Vec::new();
    let mut classpath: Vec<ConditionalClasspathEntry> = Vec::new();
    let n = libraries.len();
    let mut i: usize = 0;
    proof {
        assert(lm.skip(0) =~= lm);
        assert(vm.libraries =~= lm);
    }
    while i < n
        invariant
            n == libraries@.len(),
            0 <= i <= n,
            lm == libraries@.map_values(|l: MojangLibrary| l@),
            vm == version@,
            vm.downloads is None,
            vm.asset_index is None,
            vm.arguments is None,
            vm.minecraft_arguments == Some(ma@),
            vm.inherits_from == Some(minecraft_version@),
            spec_forge_version_of(vm.id) == Some(forge_version@),
            vm.libraries == lm,
            spec_forge_libraries(lm) == (match spec_forge_libraries(lm.skip(i as int)) {
                Err(e) => Err::<(Seq<DownloadModel>, Seq<ClasspathEntryModel>), ForgeErrModel>(e),
                Ok(rest) => Ok(
                    (
                        downloads@.map_values(|d: Download| d@) + rest.0,
                        classpath@.map_values(|e: ConditionalClasspathEntry| e@) + rest.1,
                    ),
                ),
            }),
        decreases n - i,
    {
        let ghost dprev = downloads@.map_values(|d: Download| d@);
        let ghost cprev = classpath@.map_values(|e: ConditionalClasspathEntry| e@);
        proof {
            assert(lm[i as int] == libraries@[i as int]@);
            assert(lm.skip(i as int).first() == lm[i as int]);
            assert(lm.skip(i as int).drop_first() =~= lm.skip(i as int + 1));
        }
        let lib = &libraries[i];
        if lib.rules.len() != 0 {
            proof {
                assert(spec_forge_libraries(lm.skip(i as int)) == Err::<
                    (Seq<DownloadModel>, Seq<ClasspathEntryModel>),
                    ForgeErrModel,
                >(ForgeErrModel::UnexpectedLibraryRules { name: lm[i as int].name }));
            }
            return Err(ForgeError::UnexpectedLibraryRules { name: lib.name.duplicate() });
        }
        if lib.natives.len() != 0 {
            proof {
                assert(spec_forge_libraries(lm.skip(i as int)) == Err::<
                    (Seq<DownloadModel>, Seq<ClasspathEntryModel>),
                    ForgeErrModel,
                >(ForgeErrModel::UnexpectedLibraryNatives { name: lm[i as int].name }));
            }
            return Err(ForgeError::UnexpectedLibraryNatives { name: lib.name.duplicate() });
        }
        if lib.downloads.classifiers.len() != 0 {
            proof {
                assert(spec_forge_libraries(lm.skip(i as int)) == Err::<
                    (Seq<DownloadModel>, Seq<ClasspathEntryModel>),
                    ForgeErrModel,
                >(ForgeErrModel::UnexpectedLibraryClassifiers { name: lm[i as int].name }));
            }
            return Err(ForgeError::UnexpectedLibraryClassifiers { name: lib.name.duplicate() });
        }
        let artifact = match &lib.downloads.artifact {
            None => {
                proof {
                    assert(spec_forge_libraries(lm.skip(i as int)) == Err::<
                        (Seq<DownloadModel>, Seq<ClasspathEntryModel>),
                        ForgeErrModel,
                    >(ForgeErrModel::ArtifactMissing { name: lm[i as int].name }));
                }
                return Err(ForgeError::ArtifactMissing { name: lib.name.duplicate() });
            },
            Some(a) => a,
        };
        downloads.push(
            Download {
                name: lib.name.duplicate(),
                url: artifact.url.clone(),
                size: artifact.size,
                hash: crate::component::Hash::SHA1(artifact.sha1.clone()),
            },
        );
        classpath.push(ConditionalClasspathEntry::All(lib.name.duplicate()));
        proof {
            assert(downloads@.map_values(|d: Download| d@) =~= dprev.push(
                DownloadModel {
                    name: lm[i as int].name,
                    url: lm[i as int].downloads.artifact->Some_0.url,
                    size: lm[i as int].downloads.artifact->Some_0.size,
                    hash: HashModel::SHA1(lm[i as int].downloads.artifact->Some_0.sha1),
                },
            ));
            assert(classpath@.map_values(|e: ConditionalClasspathEntry| e@) =~= cprev.push(
                ClasspathEntryModel::All(lm[i as int].name),
            ));
            if spec_forge_libraries(lm.skip(i as int + 1)) is Ok {
                let rest = spec_forge_libraries(lm.skip(i as int + 1))->Ok_0;
                assert(downloads@.map_values(|d: Download| d@) + rest.0 =~= dprev + (seq![
                    DownloadModel {
                        name: lm[i as int].name,
                        url: lm[i as int].downloads.artifact->Some_0.url,
                        size: lm[i as int].downloads.artifact->Some_0.size,
                        hash: HashModel::SHA1(lm[i as int].downloads.artifact->Some_0.sha1),
                    },
                ] + rest.0));
                assert(classpath@.map_values(|e: ConditionalClasspathEntry| e@) + rest.1 =~= cprev
                    + (seq![ClasspathEntryModel::All(lm[i as int].name)] + rest.1));
            }
        }
        i = i + 1;
    }
    proof {
        assert(lm.skip(n as int) =~= Seq::<LibraryModel>::empty());
        assert(downloads@.map_values(|d: Download| d@) + Seq::<DownloadModel>::empty()
            =~= downloads@.map_values(|d: Download| d@));
        assert(classpath@.map_values(|e: ConditionalClasspathEntry| e@) + Seq::<
            ClasspathEntryModel,
        >::empty() =~= classpath@.map_values(|e: ConditionalClasspathEntry| e@));
    }
    let at = match find_seq(ma.as_str(), "--tweakClass") {
        None => {
            return Err(ForgeError::InvalidArguments);
        },
        Some(at) => at,
    };
    proof {
        assert(0 <= at as int <= ma@.len()) by {
            crate::strutil::lemma_find_from_bounds(ma@, "--tweakClass"@, 0);
        }
    }
    let man = ma.unicode_len();
    let retained = ma.substring_char(at, man);
    if let Some(_) = find_char(retained, '$') {
        proof {
            retained@.index_of_first_ensures('$');
        }
        return Err(ForgeError::UnresolvedArgumentPattern);
    }
    proof {
        retained@.index_of_first_ensures('$');
    }
    let parts = split_spaces(retained);
    let mut game_arguments: Vec<crate::component::MinecraftArgument> = Vec::new();
    let ghost toks = parts@.map_values(|t: String| t@);
    let pn = parts.len();
    let mut k: usize = 0;
    proof {
        assert(game_arguments@.map_values(|a: crate::component::MinecraftArgument| a@)
            =~= toks.take(0).map_values(|t: Seq<char>| ArgumentModel::Always(t)));
    }
    while k < pn
        invariant
            pn == parts@.len(),
            0 <= k <= pn,
            toks == parts@.map_values(|t: String| t@),
            game_arguments@.map_values(|a: crate::component::MinecraftArgument| a@) == toks.take(
                k as int,
            ).map_values(|t: Seq<char>| ArgumentModel::Always(t)),
        decreases pn - k,
    {
        let ghost prev = game_arguments@.map_values(
            |a: crate::component::MinecraftArgument| a@,
        );
        game_arguments.push(crate::component::MinecraftArgument::Always(parts[k].clone()));
        proof {
            assert(game_arguments@.map_values(|a: crate::component::MinecraftArgument| a@)
                =~= prev.push(ArgumentModel::Always(toks[k as int])));
            assert(toks.take(k as int + 1).map_values(|t: Seq<char>| ArgumentModel::Always(t))
                =~= toks.take(k as int).map_values(|t: Seq<char>| ArgumentModel::Always(t)).push(
                ArgumentModel::Always(toks[k as int]),
            ));
        }
        k = k + 1;
    }
    proof {
        assert(toks.take(pn as int) =~= toks);
    }
    let mut required: Vec<ComponentDependency> = Vec::new();
    required.push(
        ComponentDependency {
            id: String::from_str("net.minecraft"),
            version: Some(minecraft_version),
        },
    );
    let component = Component {
        format_version: 1,
        id: String::from_str("net.minecraftforge.forge"),
        version: forge_version,
        requires: required,
        traits: Vec::new(),
        assets: None,
        conflicts: Vec::new(),
        downloads,
        jarmods: Vec::new(),
        game_jar: None,
        main_class: Some(main_class),
        classpath,
        natives: Vec::new(),
        game_arguments,
        release_time,
    };
    proof {
        let expected = spec_forge_component(vm)->Ok_0;
        assert(component@.requires =~= expected.requires);
        assert(component@.traits =~= expected.traits);
        assert(component@.conflicts =~= expected.conflicts);
        assert(component@.jarmods =~= expected.jarmods);
        assert(component@.natives =~= expected.natives);
        assert(component@.game_arguments == expected.game_arguments);
        assert(component@ == expected);
    }
    Ok(component)
}

} // verus!

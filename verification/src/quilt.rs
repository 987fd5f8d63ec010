//! Components for the quilt loader: the declared common libraries plus the
//! loader itself, every one on the classpath.

use vstd::prelude::*;
use vstd::string::*;

use crate::component::{
    ClasspathEntryModel, Component, ComponentDependency, ConditionalClasspathEntry, Download,
    DependencyModel,
};
use crate::coordinate::{CoordModel, GradleSpecifier};
use crate::source::Library;

verus! {

/// The one loader version whose published metadata is known broken
/// upstream: it is skipped rather than fetched and processed.
pub fn is_known_broken_loader_version(loader_version: &str) -> (r: bool)
    ensures
        r == (loader_version@ == "0.17.5-beta.4"@),
{
    crate::strutil::str_eq(loader_version, "0.17.5-beta.4")
}

/// The loader library of one loader version.
pub fn quilt_loader_library(loader_version: String) -> (r: Library)
    ensures
        r@.name == (CoordModel {
            group: "org.quiltmc"@,
            artifact: "quilt-loader"@,
            version: loader_version@,
            classifier: None,
            extension: "jar"@,
        }),
        r@.url == "https://maven.quiltmc.org/repository/release/"@,
{
    Library {
        name: GradleSpecifier {
            group: String::from_str("org.quiltmc"),
            artifact: String::from_str("quilt-loader"),
            version: loader_version,
            classifier: None,
            extension: String::from_str("jar"),
        },
        url: String::from_str("https://maven.quiltmc.org/repository/release/"),
    }
}

/// The libraries one loader version needs: the declared common libraries
/// followed by the loader itself.
pub fn quilt_libraries(common: Vec<Library>, loader_version: String) -> (r: Vec<Library>)
    ensures
        r@.map_values(|l: Library| l@) == common@.map_values(|l: Library| l@).push(
            crate::source::LibraryRefModel {
                name: CoordModel {
                    group: "org.quiltmc"@,
                    artifact: "quilt-loader"@,
                    version: loader_version@,
                    classifier: None,
                    extension: "jar"@,
                },
                url: "https://maven.quiltmc.org/repository/release/"@,
            },
        ),
{
    let ghost prev = common@.map_values(|l: Library| l@);
    let mut r = common;
    r.push(quilt_loader_library(loader_version));
    proof {
        assert(r@.map_values(|l: Library| l@) =~= prev.push(r@.last()@));
    }
    r
}

/// The component of one loader version: every download on the classpath,
/// requiring the game and the intermediary mappings at any version.
pub fn quilt_component(
    loader_version: String,
    main_class: String,
    release_time: i64,
    downloads: Vec<Download>,
) -> (r: Component)
    ensures
        r@.format_version == 1,
        r@.id == "org.quiltmc.quilt-loader"@,
        r@.version == loader_version@,
        r@.requires =~= seq![
            DependencyModel { id: "net.minecraft"@, version: None },
            DependencyModel { id: "net.fabricmc.intermediary"@, version: None },
        ],
        r@.traits =~= Seq::<crate::component::Trait>::empty(),
        r@.assets is None,
        r@.conflicts =~= Seq::<DependencyModel>::empty(),
        r@.downloads == downloads@.map_values(|d: Download| d@),
        r@.jarmods =~= Seq::<CoordModel>::empty(),
        r@.game_jar is None,
        r@.main_class == Some(main_class@),
        r@.classpath == downloads@.map_values(|d: Download| d@).map_values(
            |d: crate::component::DownloadModel| ClasspathEntryModel::All(d.name),
        ),
        r@.natives =~= Seq::<crate::component::NativeModel>::empty(),
        r@.game_arguments =~= Seq::<crate::component::ArgumentModel>::empty(),
        r@.release_time == release_time,
{
    let ghost dm = downloads@.map_values(|d: Download| d@);
    let mut classpath: Vec<ConditionalClasspathEntry> = Vec::new();
    let n = downloads.len();
    let mut i: usize = 0;
    proof {
        assert(classpath@.map_values(|e: ConditionalClasspathEntry| e@) =~= dm.take(0).map_values(
            |d: crate::component::DownloadModel| ClasspathEntryModel::All(d.name),
        ));
    }
    while i < n
        invariant
            n == downloads@.len(),
            0 <= i <= n,
            dm == downloads@.map_values(|d: Download| d@),
            classpath@.map_values(|e: ConditionalClasspathEntry| e@) == dm.take(
                i as int,
            ).map_values(|d: crate::component::DownloadModel| ClasspathEntryModel::All(d.name)),
        decreases n - i,
    {
        let ghost prev = classpath@.map_values(|e: ConditionalClasspathEntry| e@);
        classpath.push(ConditionalClasspathEntry::All(downloads[i].name.duplicate()));
        proof {
            assert(classpath@.map_values(|e: ConditionalClasspathEntry| e@) =~= prev.push(
                ClasspathEntryModel::All(dm[i as int].name),
            ));
            assert(dm.take(i as int + 1).map_values(
                |d: crate::component::DownloadModel| ClasspathEntryModel::All(d.name),
            ) =~= dm.take(i as int).map_values(
                |d: crate::component::DownloadModel| ClasspathEntryModel::All(d.name),
            ).push(ClasspathEntryModel::All(dm[i as int].name)));
        }
        i = i + 1;
    }
    proof {
        assert(dm.take(n as int) =~= dm);
    }
    let mut required: Vec<ComponentDependency> = Vec::new();
    required.push(ComponentDependency { id: String::from_str("net.minecraft"), version: None });
    required.push(
        ComponentDependency { id: String::from_str("net.fabricmc.intermediary"), version: None },
    );
    let r = Component {
        format_version: 1,
        id: String::from_str("org.quiltmc.quilt-loader"),
        version: loader_version,
        requires: required,
        traits: Vec::new(),
        assets: None,
        conflicts: Vec::new(),
        downloads,
        jarmods: Vec::new(),
        game_jar: None,
        main_class: Some(main_class),
        classpath,
        natives: Vec::new(),
        game_arguments: Vec::new(),
        release_time,
    };
    proof {
        assert(r@.requires =~= seq![
            DependencyModel { id: "net.minecraft"@, version: None },
            DependencyModel { id: "net.fabricmc.intermediary"@, version: None },
        ]);
    }
    r
}

} // verus!

//! Components for the intermediary-mappings project: one library per game
//! version, fetched from its maven repository.

use vstd::prelude::*;
use vstd::string::*;

use crate::component::{
    ClasspathEntryModel, Component, ComponentDependency, ConditionalClasspathEntry, Download,
    DependencyModel,
};
use crate::coordinate::{CoordModel, GradleSpecifier};
use crate::source::Library;

verus! {

/// The intermediary-mappings library of one game version.
pub fn intermediary_library(version: String) -> (r: Library)
    ensures
        r@.name == (CoordModel {
            group: "net.fabricmc"@,
            artifact: "intermediary"@,
            version: version@,
            classifier: None,
            extension: "jar"@,
        }),
        r@.url == "https://maven.fabricmc.net/"@,
{
    Library {
        name: GradleSpecifier {
            group: String::from_str("net.fabricmc"),
            artifact: String::from_str("intermediary"),
            version,
            classifier: None,
            extension: String::from_str("jar"),
        },
        url: String::from_str("https://maven.fabricmc.net/"),
    }
}

/// The component of one intermediary version: its single download on the
/// classpath, requiring the matching game version.
pub fn intermediary_component(download: Download, release_time: i64) -> (r: Component)
    ensures
        r@.format_version == 1,
        r@.id == "net.fabricmc.intermediary"@,
        r@.version == download@.name.version,
        r@.requires == seq![
            DependencyModel { id: "net.minecraft"@, version: Some(download@.name.version) },
        ],
        r@.traits =~= Seq::<crate::component::Trait>::empty(),
        r@.assets is None,
        r@.conflicts =~= Seq::<DependencyModel>::empty(),
        r@.downloads =~= seq![download@],
        r@.jarmods =~= Seq::<CoordModel>::empty(),
        r@.game_jar is None,
        r@.main_class is None,
        r@.classpath =~= seq![ClasspathEntryModel::All(download@.name)],
        r@.natives =~= Seq::<crate::component::NativeModel>::empty(),
        r@.game_arguments =~= Seq::<crate::component::ArgumentModel>::empty(),
        r@.release_time == release_time,
{
    let version = download.name.version.clone();
    let classpath_name = download.name.duplicate();
    let mut classpath: Vec<ConditionalClasspathEntry> = Vec::new();
    classpath.push(ConditionalClasspathEntry::All(classpath_name));
    let mut downloads: Vec<Download> = Vec::new();
    let ghost dm = download@;
    downloads.push(download);
    let mut required: Vec<ComponentDependency> = Vec::new();
    required.push(
        ComponentDependency { id: String::from_str("net.minecraft"), version: Some(version.clone()) },
    );
    let r = Component {
        format_version: 1,
        id: String::from_str("net.fabricmc.intermediary"),
        version,
        requires: required,
        traits: Vec::new(),
        assets: None,
        conflicts: Vec::new(),
        downloads,
        jarmods: Vec::new(),
        game_jar: None,
        main_class: None,
        classpath,
        natives: Vec::new(),
        game_arguments: Vec::new(),
        release_time,
    };
    proof {
        assert(r@.requires =~= seq![
            DependencyModel { id: "net.minecraft"@, version: Some(dm.name.version) },
        ]);
        assert(r@.downloads =~= seq![dm]);
        assert(r@.classpath =~= seq![ClasspathEntryModel::All(dm.name)]);
    }
    r
}

} // verus!

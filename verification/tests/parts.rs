use helixlauncher_meta::component::{Download, OsName};
use helixlauncher_meta::coordinate::{GradleParseError, GradleSpecifier};
use helixlauncher_meta::hashing::{content_matches_sha1, content_sha1_hex};
use helixlauncher_meta::ledger::DownloadLedger;
use helixlauncher_meta::mojang::{
    MojangLibrary, MojangLibraryArtifact, MojangLibraryDownloads, MojangNativeExtract,
    VersionType,
};
use helixlauncher_meta::patch::patch_log4j;
use helixlauncher_meta::rules::{
    evaluate_rules_os_name, Error, FeaturesRule, OsRule, Rule, RuleAction,
};
use helixlauncher_meta::strutil::{contains_substr, find_substr, replace_all, str_eq};

fn coord(s: &str) -> GradleSpecifier {
    GradleSpecifier::parse(s).unwrap()
}

fn no_features() -> FeaturesRule {
    FeaturesRule {
        is_demo_user: None,
        has_custom_resolution: None,
        has_quick_plays_support: None,
        is_quick_play_singleplayer: None,
        is_quick_play_multiplayer: None,
        is_quick_play_realms: None,
    }
}

#[test]
fn parse_full_coordinate() {
    let c = coord("org.lwjgl:lwjgl:3.3.1:natives-linux@zip");
    assert_eq!(c.group, "org.lwjgl");
    assert_eq!(c.artifact, "lwjgl");
    assert_eq!(c.version, "3.3.1");
    assert_eq!(c.classifier.as_deref(), Some("natives-linux"));
    assert_eq!(c.extension, "zip");
}

#[test]
fn parse_defaults_extension_to_jar() {
    let c = coord("com.mojang:minecraft:1.19");
    assert_eq!(c.extension, "jar");
    assert_eq!(c.classifier, None);
}

#[test]
fn parse_missing_artifact_fails() {
    match GradleSpecifier::parse("nocolons") {
        Err(GradleParseError::ArtifactIdMissing(s)) => assert_eq!(s, "nocolons"),
        other => panic!("unexpected {other:?}"),
    }
}

#[test]
fn parse_missing_version_fails() {
    match GradleSpecifier::parse("group:artifact") {
        Err(GradleParseError::VersionMissing(s)) => assert_eq!(s, "artifact"),
        other => panic!("unexpected {other:?}"),
    }
}

#[test]
fn format_omits_defaults() {
    let c = coord("com.mojang:minecraft:1.19");
    assert_eq!(c.format(), "com.mojang:minecraft:1.19");
    let c2 = coord("org.lwjgl:lwjgl:3.3.1:natives-linux@zip");
    assert_eq!(c2.format(), "org.lwjgl:lwjgl:3.3.1:natives-linux@zip");
}

#[test]
fn parse_format_roundtrip() {
    for s in [
        "com.mojang:minecraft:1.19",
        "org.lwjgl:lwjgl:3.3.1:natives-linux",
        "org.lwjgl:lwjgl:3.3.1:natives-linux@zip",
        "a:b:c@ext",
        "net.fabricmc:intermediary:1.19.4",
    ] {
        let c = coord(s);
        assert_eq!(c.format(), s);
        assert_eq!(GradleSpecifier::parse(&c.format()).unwrap(), c);
    }
}

#[test]
fn with_classifier_replaces_classifier() {
    let c = coord("org.example:nat:1.0");
    let d = c.with_classifier("natives-windows".to_string());
    assert_eq!(d.format(), "org.example:nat:1.0:natives-windows");
    assert_eq!(d.group, c.group);
    assert_eq!(d.version, c.version);
}

#[test]
fn to_url_derives_maven_path() {
    let c = coord("net.fabricmc:intermediary:1.19");
    assert_eq!(
        c.to_url("https://maven.fabricmc.net/"),
        "https://maven.fabricmc.net/net/fabricmc/intermediary/1.19/intermediary-1.19.jar"
    );
    let d = coord("a.b:art:1:cl@zip");
    assert_eq!(d.to_url("https://r/"), "https://r/a/b/art/1/art-1-cl.zip");
}

#[test]
fn key_eq_is_structural() {
    let a = coord("g:a:1");
    let b = coord("g:a:1");
    let c = coord("g:a:2");
    assert!(a.key_eq(&b));
    assert!(!a.key_eq(&c));
}

#[test]
fn version_type_as_str_values() {
    assert_eq!(VersionType::Release.as_str(), "release");
    assert_eq!(VersionType::Snapshot.as_str(), "snapshot");
    assert_eq!(VersionType::OldBeta.as_str(), "old_beta");
    assert_eq!(VersionType::OldAlpha.as_str(), "old_alpha");
    assert_eq!(VersionType::Experiment.as_str(), "experiment");
}

#[test]
fn hash_describe_names_algorithm() {
    assert_eq!(helixlauncher_meta::component::Hash::SHA1("ab".to_string()).describe(), "SHA1 hash ab");
    assert_eq!(helixlauncher_meta::component::Hash::SHA256("cd".to_string()).describe(), "SHA256 hash cd");
}

fn always_allow() -> Rule {
    Rule { features: None, os: None, action: RuleAction::Allow }
}

fn os_rule(os: OsName, action: RuleAction) -> Rule {
    Rule {
        features: None,
        os: Some(OsRule { name: Some(os), version: None, arch: None }),
        action,
    }
}

#[test]
fn empty_rules_allow_nothing() {
    assert_eq!(evaluate_rules_os_name(&[]).unwrap(), Vec::<OsName>::new());
}

#[test]
fn always_allow_allows_universe() {
    let rules = vec![always_allow()];
    assert_eq!(
        evaluate_rules_os_name(&rules).unwrap(),
        vec![OsName::Linux, OsName::Osx, OsName::Windows]
    );
}

#[test]
fn later_disallow_overrides_allow() {
    let rules = vec![always_allow(), os_rule(OsName::Osx, RuleAction::Disallow)];
    assert_eq!(
        evaluate_rules_os_name(&rules).unwrap(),
        vec![OsName::Linux, OsName::Windows]
    );
}

#[test]
fn single_os_allow_restricts() {
    let rules = vec![os_rule(OsName::Osx, RuleAction::Allow)];
    assert_eq!(evaluate_rules_os_name(&rules).unwrap(), vec![OsName::Osx]);
}

#[test]
fn arch_predicate_is_unsupported() {
    let rules = vec![Rule {
        features: None,
        os: Some(OsRule { name: None, version: None, arch: Some("x86".to_string()) }),
        action: RuleAction::Allow,
    }];
    match evaluate_rules_os_name(&rules) {
        Err(Error::UnsupportedFeature(s)) => assert_eq!(s, "os.arch"),
        other => panic!("unexpected {other:?}"),
    }
}

#[test]
fn os_version_predicate_is_unsupported() {
    let rules = vec![Rule {
        features: None,
        os: Some(OsRule { name: None, version: Some("^10".to_string()), arch: None }),
        action: RuleAction::Allow,
    }];
    match evaluate_rules_os_name(&rules) {
        Err(Error::UnsupportedFeature(s)) => assert_eq!(s, "os.version"),
        other => panic!("unexpected {other:?}"),
    }
}

#[test]
fn feature_predicate_is_unsupported_for_libraries() {
    let rules = vec![Rule {
        features: Some(FeaturesRule { is_demo_user: Some(true), ..no_features() }),
        os: None,
        action: RuleAction::Allow,
    }];
    match evaluate_rules_os_name(&rules) {
        Err(Error::UnsupportedFeature(s)) => assert_eq!(s, "features"),
        other => panic!("unexpected {other:?}"),
    }
}

#[test]
fn is_always_allow_recognizes_shape() {
    assert!(always_allow().is_always_allow());
    assert!(!os_rule(OsName::Linux, RuleAction::Allow).is_always_allow());
    assert!(!Rule { features: None, os: None, action: RuleAction::Disallow }.is_always_allow());
}

fn download(name: &str, sha1: &str) -> Download {
    Download {
        name: coord(name),
        url: "https://example/a.jar".to_string(),
        size: 1,
        hash: helixlauncher_meta::component::Hash::SHA1(sha1.to_string()),
    }
}

#[test]
fn ledger_merges_matching_hashes() {
    let mut ledger = DownloadLedger::new();
    ledger.insert(download("g:a:1", "aa")).unwrap();
    ledger.insert(download("g:a:1", "aa")).unwrap();
    let all = ledger.into_downloads();
    assert_eq!(all.len(), 1);
    assert_eq!(all[0].name, coord("g:a:1"));
}

#[test]
fn ledger_rejects_conflicting_hashes() {
    let mut ledger = DownloadLedger::new();
    ledger.insert(download("g:a:1", "aa")).unwrap();
    let err = ledger.insert(download("g:a:1", "bb")).unwrap_err();
    assert_eq!(err.name, coord("g:a:1"));
}

#[test]
fn ledger_keeps_insertion_order() {
    let mut ledger = DownloadLedger::new();
    ledger.insert(download("g:a:1", "aa")).unwrap();
    ledger.insert(download("g:b:1", "bb")).unwrap();
    ledger.insert(download("g:a:1", "aa")).unwrap();
    let all = ledger.into_downloads();
    assert_eq!(all.len(), 2);
    assert_eq!(all[0].name, coord("g:a:1"));
    assert_eq!(all[1].name, coord("g:b:1"));
}

fn log4j_library(name: &str, url: &str, sha1: &str, size: u32) -> MojangLibrary {
    MojangLibrary {
        name: coord(name),
        downloads: MojangLibraryDownloads {
            artifact: Some(MojangLibraryArtifact {
                path: String::new(),
                sha1: sha1.to_string(),
                size,
                url: url.to_string(),
            }),
            classifiers: vec![],
        },
        rules: vec![],
        extract: MojangNativeExtract { exclude: vec![] },
        natives: vec![],
    }
}

#[test]
fn log4j_beta9_gets_corrected_metadata() {
    let mut lib = log4j_library(
        "org.apache.logging.log4j:log4j-core:2.0-beta9",
        "https://libraries.minecraft.net/org/apache/logging/log4j/log4j-core/2.0-beta9/log4j-core-2.0-beta9.jar",
        "old",
        1,
    );
    patch_log4j(&mut lib).unwrap();
    assert_eq!(lib.name.version, "2.0-beta9");
    let artifact = lib.downloads.artifact.unwrap();
    assert_eq!(artifact.sha1, "db59ef51488f7ea6a2fd1a0bd8d862cf95f02b7a");
    assert_eq!(artifact.size, 677741);
    assert_eq!(
        artifact.url,
        "https://files.helixlauncher.dev/maven/org/apache/logging/log4j/log4j-core/2.0-beta9/log4j-core-2.0-beta9.jar"
    );
}

#[test]
fn log4j_in_range_is_pinned_to_safe_release() {
    let mut lib = log4j_library(
        "org.apache.logging.log4j:log4j-api:2.10.0",
        "https://x/log4j-api-2.10.0.jar",
        "old",
        1,
    );
    patch_log4j(&mut lib).unwrap();
    assert_eq!(lib.name.version, "2.17.0");
    let artifact = lib.downloads.artifact.unwrap();
    assert_eq!(artifact.sha1, "bbd791e9c8c9421e45337c4fe0a10851c086e36c");
    assert_eq!(artifact.size, 301776);
    assert_eq!(
        artifact.url,
        "https://libraries.minecraft.net/org/apache/logging/log4j/log4j-api/2.17.0/log4j-api-2.17.0.jar"
    );
}

#[test]
fn log4j_below_range_is_untouched() {
    let mut lib = log4j_library(
        "org.apache.logging.log4j:log4j-core:2.0",
        "https://x/log4j-core-2.0.jar",
        "old",
        7,
    );
    patch_log4j(&mut lib).unwrap();
    assert_eq!(lib.name.version, "2.0");
    let artifact = lib.downloads.artifact.unwrap();
    assert_eq!(artifact.sha1, "old");
    assert_eq!(artifact.size, 7);
    assert_eq!(artifact.url, "https://x/log4j-core-2.0.jar");
}

#[test]
fn log4j_unknown_combination_is_refused() {
    let mut lib = log4j_library(
        "org.apache.logging.log4j:log4j-weird:2.0-beta9",
        "https://x/a.jar",
        "old",
        1,
    );
    // In range? 2.0-beta9 is below 2.8.0 and the artifact is not log4j-core,
    // so nothing changes and the call succeeds.
    patch_log4j(&mut lib).unwrap();
    assert_eq!(lib.name.version, "2.0-beta9");
    // A slf4j bridge inside the vulnerable range but at an unlisted target
    // version cannot happen (the range always pins to 2.17.0, which is
    // listed), so exercise the table through a non-log4j-core legacy name.
    let mut lib2 = log4j_library(
        "org.apache.logging.log4j:log4j-iostreams:2.9.1",
        "https://x/b.jar",
        "old",
        1,
    );
    let err = patch_log4j(&mut lib2).unwrap_err();
    match err {
        helixlauncher_meta::patch::PatchError::UnpatchedArtifact { artifact, version } => {
            assert_eq!(artifact, "log4j-iostreams");
            assert_eq!(version, "2.17.0");
        }
        other => panic!("unexpected {other:?}"),
    }
}

#[test]
fn log4j_alias_version_is_refused() {
    // The Maven comparator cannot handle a version with an empty-qualifier
    // alias run; the patcher refuses it instead of comparing.
    let mut lib = log4j_library(
        "org.apache.logging.log4j:log4j-core:2.final.9",
        "https://x/a.jar",
        "old",
        1,
    );
    let err = patch_log4j(&mut lib).unwrap_err();
    match err {
        helixlauncher_meta::patch::PatchError::UncomparableVersion { version } => {
            assert_eq!(version, "2.final.9");
        }
        other => panic!("unexpected {other:?}"),
    }
    // Case and the other alias are covered too; an alias inside a longer
    // run is not a run of its own and stays comparable.
    let mut lib2 = log4j_library(
        "org.apache.logging.log4j:log4j-core:2.GA",
        "https://x/b.jar",
        "old",
        1,
    );
    assert!(matches!(
        patch_log4j(&mut lib2),
        Err(helixlauncher_meta::patch::PatchError::UncomparableVersion { .. })
    ));
    let mut lib3 = log4j_library(
        "org.apache.logging.log4j:log4j-core:2.legal.0",
        "https://x/c.jar",
        "old",
        1,
    );
    patch_log4j(&mut lib3).unwrap();
}

#[test]
fn known_broken_quilt_loader_version() {
    assert!(helixlauncher_meta::quilt::is_known_broken_loader_version("0.17.5-beta.4"));
    assert!(!helixlauncher_meta::quilt::is_known_broken_loader_version("0.19.2"));
}

#[test]
fn sha1_hex_of_known_inputs() {
    assert_eq!(content_sha1_hex(b""), "da39a3ee5e6b4b0d3255bfef95601890afd80709");
    assert_eq!(content_sha1_hex(b"abc"), "a9993e364706816aba3e25717850c26c9cd0d89d");
}

#[test]
fn content_match_detects_mismatch() {
    assert!(content_matches_sha1(b"abc", "a9993e364706816aba3e25717850c26c9cd0d89d"));
    assert!(!content_matches_sha1(b"abd", "a9993e364706816aba3e25717850c26c9cd0d89d"));
}

#[test]
fn needs_fetch_decision() {
    let missing: Option<Vec<u8>> = None;
    assert!(helixlauncher_meta::hashing::needs_fetch(
        &missing,
        "a9993e364706816aba3e25717850c26c9cd0d89d"
    ));
    let cached = Some(b"abc".to_vec());
    assert!(!helixlauncher_meta::hashing::needs_fetch(
        &cached,
        "a9993e364706816aba3e25717850c26c9cd0d89d"
    ));
    let stale = Some(b"xyz".to_vec());
    assert!(helixlauncher_meta::hashing::needs_fetch(
        &stale,
        "a9993e364706816aba3e25717850c26c9cd0d89d"
    ));
}

#[test]
fn text_search_and_replacement() {
    assert!(str_eq("abc", "abc"));
    assert!(!str_eq("abc", "abd"));
    assert!(contains_substr("natives-windows", "natives"));
    assert!(!contains_substr("universal", "natives"));
    assert_eq!(find_substr("aababc", "abc"), Some(3));
    assert_eq!(find_substr("aababd", "abc"), None);
    assert_eq!(replace_all("natives-linux-${arch}", "${arch}", "64"), "natives-linux-64");
    assert_eq!(replace_all("aaa", "aa", "b"), "ba");
}

use helixlauncher_meta::args::{remap_vars, ArgError};
use helixlauncher_meta::component::{
    ConditionFeature, ConditionalClasspathEntry, MinecraftArgument, OsName, Trait,
};
use helixlauncher_meta::coordinate::GradleSpecifier;
use helixlauncher_meta::forge::{forge_component, parse_forge_version};
use helixlauncher_meta::index::{build_index, IndexEntry};
use helixlauncher_meta::intermediary::{intermediary_component, intermediary_library};
use helixlauncher_meta::mojang::{
    process_version, MojangConditionalValue, MojangDownload, MojangDownloads, MojangLibrary,
    MojangLibraryArtifact, MojangLibraryDownloads, MojangNativeExtract, MojangVersion,
    MojangVersionArguments, VersionType,
};
use helixlauncher_meta::quilt::{quilt_component, quilt_libraries, quilt_loader_library};
use helixlauncher_meta::rules::{FeaturesRule, OsRule, Rule, RuleAction};
use helixlauncher_meta::source::{library_download, Library};

fn coordinate(s: &str) -> GradleSpecifier {
    GradleSpecifier::parse(s).unwrap()
}

fn artifact(url: &str, sha1: &str, size: u32) -> MojangLibraryArtifact {
    MojangLibraryArtifact {
        path: String::new(),
        sha1: sha1.to_string(),
        size,
        url: url.to_string(),
    }
}

fn plain_library(name: &str, url: &str, sha1: &str) -> MojangLibrary {
    MojangLibrary {
        name: coordinate(name),
        downloads: MojangLibraryDownloads {
            artifact: Some(artifact(url, sha1, 1)),
            classifiers: vec![],
        },
        rules: vec![],
        extract: MojangNativeExtract { exclude: vec![] },
        natives: vec![],
    }
}

fn empty_features() -> FeaturesRule {
    FeaturesRule {
        is_demo_user: None,
        has_custom_resolution: None,
        has_quick_plays_support: None,
        is_quick_play_singleplayer: None,
        is_quick_play_multiplayer: None,
        is_quick_play_realms: None,
    }
}

fn base_version(libraries: Vec<MojangLibrary>) -> MojangVersion {
    MojangVersion {
        inherits_from: None,
        arguments: None,
        asset_index: None,
        downloads: Some(MojangDownloads {
            client: MojangDownload {
                sha1: "cafebabe".to_string(),
                size: 100,
                url: "https://example/client.jar".to_string(),
            },
        }),
        id: "1.0".to_string(),
        libraries,
        main_class: "net.minecraft.client.Main".to_string(),
        minecraft_arguments: None,
        release_time: 1000,
        version_type: VersionType::Release,
    }
}

#[test]
fn token_rewriting_uses_canonical_vocabulary() {
    assert_eq!(
        remap_vars("${auth_player_name}", VersionType::Release).unwrap(),
        "${user.name}"
    );
    assert_eq!(
        remap_vars("--user ${auth_player_name}!", VersionType::Release).unwrap(),
        "--user ${user.name}!"
    );
    assert_eq!(
        remap_vars("${version_type}", VersionType::OldBeta).unwrap(),
        "old_beta"
    );
    assert_eq!(remap_vars("${auth_xuid}", VersionType::Release).unwrap(), "");
    assert_eq!(remap_vars("plain", VersionType::Release).unwrap(), "plain");
}

#[test]
fn unknown_token_fails_instead_of_passing_through() {
    match remap_vars("${totally_unknown}", VersionType::Release) {
        Err(ArgError::TokenNotSupported(t)) => assert_eq!(t, "${totally_unknown}"),
        other => panic!("unexpected {other:?}"),
    }
}

#[test]
fn two_library_descriptor_normalizes() {
    let universal = plain_library("org.example:lib:1.0", "https://example/lib.jar", "aa");
    let native = MojangLibrary {
        name: coordinate("org.example:nat:1.0"),
        downloads: MojangLibraryDownloads {
            artifact: None,
            classifiers: vec![(
                "natives-windows".to_string(),
                artifact("https://example/nat.jar", "bb", 2),
            )],
        },
        rules: vec![Rule {
            features: None,
            os: Some(OsRule { name: Some(OsName::Windows), version: None, arch: None }),
            action: RuleAction::Allow,
        }],
        extract: MojangNativeExtract { exclude: vec!["META-INF/".to_string()] },
        natives: vec![(OsName::Windows, "natives-windows".to_string())],
    };
    let component = process_version(base_version(vec![universal, native])).unwrap();

    assert_eq!(component.id, "net.minecraft");
    assert_eq!(component.version, "1.0");
    assert_eq!(component.format_version, 1);
    assert_eq!(component.main_class.as_deref(), Some("net.minecraft.client.Main"));
    assert_eq!(
        component.game_jar.as_ref().map(|g| g.format()),
        Some("com.mojang:minecraft:1.0:client".to_string())
    );

    assert_eq!(component.classpath.len(), 1);
    match &component.classpath[0] {
        ConditionalClasspathEntry::All(name) => {
            assert_eq!(name.format(), "org.example:lib:1.0");
        }
        other => panic!("unexpected {other:?}"),
    }

    assert_eq!(component.natives.len(), 1);
    let native_entry = &component.natives[0];
    assert_eq!(native_entry.name.format(), "org.example:nat:1.0:natives-windows");
    assert_eq!(native_entry.platform.os, vec![OsName::Windows]);
    assert_eq!(native_entry.platform.arch, None);
    assert_eq!(native_entry.exclusions, vec!["META-INF/".to_string()]);

    // Client jar, universal library, native artifact: three downloads, in
    // insertion order.
    assert_eq!(component.downloads.len(), 3);
    assert_eq!(component.downloads[0].name.format(), "com.mojang:minecraft:1.0:client");
    assert_eq!(component.downloads[1].name.format(), "org.example:lib:1.0");
    assert_eq!(component.downloads[2].name.format(), "org.example:nat:1.0:natives-windows");
}

#[test]
fn arch_placeholder_expands_to_two_natives() {
    let native = MojangLibrary {
        name: coordinate("org.example:nat:1.0"),
        downloads: MojangLibraryDownloads {
            artifact: None,
            classifiers: vec![
                (
                    "natives-linux-32".to_string(),
                    artifact("https://example/n32.jar", "aa", 1),
                ),
                (
                    "natives-linux-64".to_string(),
                    artifact("https://example/n64.jar", "bb", 2),
                ),
            ],
        },
        rules: vec![],
        extract: MojangNativeExtract { exclude: vec![] },
        natives: vec![(OsName::Linux, "natives-linux-${arch}".to_string())],
    };
    let component = process_version(base_version(vec![native])).unwrap();
    assert_eq!(component.natives.len(), 2);
    assert_eq!(component.natives[0].name.format(), "org.example:nat:1.0:natives-linux-32");
    assert_eq!(
        component.natives[0].platform.arch,
        Some(helixlauncher_meta::component::Arch::X86)
    );
    assert_eq!(component.natives[1].name.format(), "org.example:nat:1.0:natives-linux-64");
    assert_eq!(
        component.natives[1].platform.arch,
        Some(helixlauncher_meta::component::Arch::X86_64)
    );
}

#[test]
fn unresolved_classifier_pattern_fails() {
    let native = MojangLibrary {
        name: coordinate("org.example:nat:1.0"),
        downloads: MojangLibraryDownloads { artifact: None, classifiers: vec![] },
        rules: vec![],
        extract: MojangNativeExtract { exclude: vec![] },
        natives: vec![(OsName::Linux, "natives-${classifier}".to_string())],
    };
    let err = process_version(base_version(vec![native])).unwrap_err();
    match err {
        helixlauncher_meta::mojang::ProcessError::UnresolvedClassifierPattern { classifier } => {
            assert_eq!(classifier, "natives-${classifier}");
        }
        other => panic!("unexpected {other:?}"),
    }
}

#[test]
fn conflicting_hashes_fail_processing() {
    let a = plain_library("org.example:lib:1.0", "https://example/lib.jar", "aa");
    let b = plain_library("org.example:lib:1.0", "https://example/lib.jar", "bb");
    let err = process_version(base_version(vec![a, b])).unwrap_err();
    assert!(matches!(
        err,
        helixlauncher_meta::mojang::ProcessError::HashMismatch(_)
    ));
}

#[test]
fn duplicate_reference_with_matching_hash_merges() {
    let a = plain_library("org.example:lib:1.0", "https://example/lib.jar", "aa");
    let b = plain_library("org.example:lib:1.0", "https://example/lib.jar", "aa");
    let component = process_version(base_version(vec![a, b])).unwrap();
    // Client jar plus exactly one entry for the twice-referenced coordinate.
    assert_eq!(component.downloads.len(), 2);
    assert_eq!(component.downloads[1].name.format(), "org.example:lib:1.0");
    // The duplicate collapses on the classpath too.
    assert_eq!(component.classpath.len(), 1);
}

#[test]
fn too_many_rules_fail_processing() {
    let mut lib = plain_library("org.example:lib:1.0", "https://example/lib.jar", "aa");
    lib.rules = vec![
        Rule {
            features: None,
            os: Some(OsRule { name: Some(OsName::Linux), version: None, arch: None }),
            action: RuleAction::Allow,
        },
        Rule {
            features: None,
            os: Some(OsRule { name: Some(OsName::Osx), version: None, arch: None }),
            action: RuleAction::Allow,
        },
    ];
    let err = process_version(base_version(vec![lib])).unwrap_err();
    assert!(matches!(
        err,
        helixlauncher_meta::mojang::ProcessError::MultipleRules { .. }
    ));
}

#[test]
fn inherited_descriptor_is_refused() {
    let mut version = base_version(vec![]);
    version.inherits_from = Some("1.0".to_string());
    let err = process_version(version).unwrap_err();
    assert!(matches!(
        err,
        helixlauncher_meta::mojang::ProcessError::InheritedVersion
    ));
}

#[test]
fn missing_client_download_is_refused() {
    let mut version = base_version(vec![]);
    version.downloads = None;
    let err = process_version(version).unwrap_err();
    assert!(matches!(
        err,
        helixlauncher_meta::mojang::ProcessError::DownloadMissing
    ));
}

#[test]
fn lwjgl_allow_disallow_pair_ignores_rules() {
    let mut lib = plain_library("org.lwjgl:lwjgl:3.2.2", "https://example/lwjgl.jar", "aa");
    lib.rules = vec![
        Rule { features: None, os: None, action: RuleAction::Allow },
        Rule {
            features: None,
            os: Some(OsRule { name: Some(OsName::Osx), version: None, arch: None }),
            action: RuleAction::Disallow,
        },
    ];
    let component = process_version(base_version(vec![lib])).unwrap();
    // Rules are bypassed: the entry is unconditional, not platform-scoped.
    assert_eq!(component.classpath.len(), 1);
    assert!(matches!(
        component.classpath[0],
        ConditionalClasspathEntry::All(_)
    ));
    // A third-generation LWJGL library records the first-thread trait.
    assert_eq!(component.traits, vec![Trait::MacStartOnFirstThread]);
}

#[test]
fn lwjgl_single_os_allow_is_dropped() {
    let mut lib = plain_library("org.lwjgl:lwjgl-glfw:3.2.2", "https://example/glfw.jar", "aa");
    lib.rules = vec![Rule {
        features: None,
        os: Some(OsRule { name: Some(OsName::Osx), version: None, arch: None }),
        action: RuleAction::Allow,
    }];
    let component = process_version(base_version(vec![lib])).unwrap();
    assert_eq!(component.classpath.len(), 0);
    // Only the client jar remains.
    assert_eq!(component.downloads.len(), 1);
}

#[test]
fn structured_arguments_classify_features() {
    let mut version = base_version(vec![]);
    version.arguments = Some(MojangVersionArguments {
        game: vec![
            MojangConditionalValue::Always("--gameDir".to_string()),
            MojangConditionalValue::Always("${game_directory}".to_string()),
            MojangConditionalValue::Conditional {
                rules: vec![Rule {
                    features: Some(FeaturesRule {
                        is_demo_user: Some(true),
                        ..empty_features()
                    }),
                    os: None,
                    action: RuleAction::Allow,
                }],
                value: vec!["--demo".to_string()],
            },
            MojangConditionalValue::Conditional {
                rules: vec![Rule {
                    features: Some(FeaturesRule {
                        has_custom_resolution: Some(true),
                        ..empty_features()
                    }),
                    os: None,
                    action: RuleAction::Allow,
                }],
                value: vec!["--width".to_string(), "${resolution_width}".to_string()],
            },
            MojangConditionalValue::Conditional {
                rules: vec![Rule {
                    features: Some(FeaturesRule {
                        has_quick_plays_support: Some(true),
                        ..empty_features()
                    }),
                    os: None,
                    action: RuleAction::Allow,
                }],
                value: vec!["--quickPlayPath".to_string()],
            },
        ],
        jvm: vec![],
    });
    let component = process_version(version).unwrap();
    let args = &component.game_arguments;
    assert_eq!(args.len(), 5);
    assert!(matches!(&args[0], MinecraftArgument::Always(v) if v == "--gameDir"));
    assert!(matches!(&args[1], MinecraftArgument::Always(v) if v == "${instance.game_dir}"));
    assert!(matches!(
        &args[2],
        MinecraftArgument::Conditional { value, feature: ConditionFeature::Demo } if value == "--demo"
    ));
    assert!(matches!(
        &args[3],
        MinecraftArgument::Conditional { value, feature: ConditionFeature::CustomResolution }
            if value == "--width"
    ));
    assert!(matches!(
        &args[4],
        MinecraftArgument::Conditional { value, feature: ConditionFeature::CustomResolution }
            if value == "${window.width}"
    ));
    // Quick-play support was skipped, custom resolution recorded a trait.
    assert_eq!(component.traits, vec![Trait::SupportsCustomResolution]);
}

#[test]
fn legacy_arguments_split_and_append_demo() {
    let mut version = base_version(vec![]);
    version.minecraft_arguments =
        Some("--username ${auth_player_name} --gameDir ${game_directory}".to_string());
    let component = process_version(version).unwrap();
    let args = &component.game_arguments;
    assert_eq!(args.len(), 5);
    assert!(matches!(&args[0], MinecraftArgument::Always(v) if v == "--username"));
    assert!(matches!(&args[1], MinecraftArgument::Always(v) if v == "${user.name}"));
    assert!(matches!(&args[2], MinecraftArgument::Always(v) if v == "--gameDir"));
    assert!(matches!(&args[3], MinecraftArgument::Always(v) if v == "${instance.game_dir}"));
    assert!(matches!(
        &args[4],
        MinecraftArgument::Conditional { value, feature: ConditionFeature::Demo } if value == "--demo"
    ));
}

#[test]
fn index_is_sorted_descending_with_all_entries() {
    let times = [1000i64, 3000, 2000];
    let mut components = Vec::new();
    for (i, t) in times.iter().enumerate() {
        let download = library_download(
            &intermediary_library(format!("1.{i}")),
            helixlauncher_meta::component::Hash::SHA256("h".to_string()),
            1,
        );
        components.push(intermediary_component(download, *t));
    }
    let index = build_index(&components);
    assert_eq!(index.len(), 3);
    assert_eq!(index[0].release_time, 3000);
    assert_eq!(index[1].release_time, 2000);
    assert_eq!(index[2].release_time, 1000);
    assert_eq!(index[0].version, "1.1");
    assert_eq!(index[1].version, "1.2");
    assert_eq!(index[2].version, "1.0");
}

#[test]
fn index_entry_from_component_copies_summary() {
    let download = library_download(
        &intermediary_library("1.19".to_string()),
        helixlauncher_meta::component::Hash::SHA256("h".to_string()),
        1,
    );
    let component = intermediary_component(download, 42);
    let entry = IndexEntry::from_component(&component);
    assert_eq!(entry.version, "1.19");
    assert_eq!(entry.release_time, 42);
    assert_eq!(entry.requires.len(), 1);
    assert_eq!(entry.requires[0].id, "net.minecraft");
    assert_eq!(entry.conflicts.len(), 0);
}

#[test]
fn intermediary_component_shape() {
    let library = intermediary_library("1.19.4".to_string());
    assert_eq!(library.name.format(), "net.fabricmc:intermediary:1.19.4");
    let download = library_download(&library, helixlauncher_meta::component::Hash::SHA256("h".to_string()), 9);
    assert_eq!(
        download.url,
        "https://maven.fabricmc.net/net/fabricmc/intermediary/1.19.4/intermediary-1.19.4.jar"
    );
    let component = intermediary_component(download, 7);
    assert_eq!(component.id, "net.fabricmc.intermediary");
    assert_eq!(component.version, "1.19.4");
    assert_eq!(component.requires.len(), 1);
    assert_eq!(component.requires[0].id, "net.minecraft");
    assert_eq!(component.requires[0].version.as_deref(), Some("1.19.4"));
    assert_eq!(component.classpath.len(), 1);
    assert_eq!(component.downloads.len(), 1);
    assert_eq!(component.main_class, None);
}

#[test]
fn quilt_component_shape() {
    let loader = quilt_loader_library("0.19.2".to_string());
    assert_eq!(loader.name.format(), "org.quiltmc:quilt-loader:0.19.2");
    let common = vec![Library {
        name: coordinate("org.quiltmc:quilt-json5:1.0.2"),
        url: "https://maven.quiltmc.org/repository/release/".to_string(),
    }];
    let libraries = quilt_libraries(common, "0.19.2".to_string());
    assert_eq!(libraries.len(), 2);
    assert_eq!(libraries[1].name.format(), "org.quiltmc:quilt-loader:0.19.2");

    let downloads: Vec<_> = libraries
        .iter()
        .map(|l| library_download(l, helixlauncher_meta::component::Hash::SHA256("h".to_string()), 1))
        .collect();
    let component = quilt_component(
        "0.19.2".to_string(),
        "org.quiltmc.loader.impl.launch.knot.KnotClient".to_string(),
        5,
        downloads,
    );
    assert_eq!(component.id, "org.quiltmc.quilt-loader");
    assert_eq!(component.version, "0.19.2");
    assert_eq!(component.requires.len(), 2);
    assert_eq!(component.requires[0].id, "net.minecraft");
    assert_eq!(component.requires[1].id, "net.fabricmc.intermediary");
    assert_eq!(component.classpath.len(), 2);
    assert_eq!(component.downloads.len(), 2);
}

#[test]
fn forge_version_extraction() {
    assert_eq!(
        parse_forge_version("1.12.2-forge-14.23.5.2860").as_deref(),
        Some("14.23.5.2860")
    );
    assert_eq!(
        parse_forge_version("1.11.2-Forge13.20.0.2228").as_deref(),
        Some("13.20.0.2228")
    );
    assert_eq!(parse_forge_version("1.12.2"), None);
    assert_eq!(parse_forge_version("snapshot-forge-abc"), None);
}

#[test]
fn forge_descriptor_normalizes() {
    let version = MojangVersion {
        inherits_from: Some("1.12.2".to_string()),
        arguments: None,
        asset_index: None,
        downloads: None,
        id: "1.12.2-forge-14.23.5.2860".to_string(),
        libraries: vec![plain_library(
            "net.minecraftforge:forge:1.12.2-14.23.5.2860",
            "https://example/forge.jar",
            "aa",
        )],
        main_class: "net.minecraft.launchwrapper.Launch".to_string(),
        minecraft_arguments:
            Some("--username ${auth_player_name} --tweakClass net.minecraftforge.fml.common.launcher.FMLTweaker".to_string()),
        release_time: 99,
        version_type: VersionType::Release,
    };
    let component = forge_component(version).unwrap();
    assert_eq!(component.id, "net.minecraftforge.forge");
    assert_eq!(component.version, "14.23.5.2860");
    assert_eq!(component.requires.len(), 1);
    assert_eq!(component.requires[0].id, "net.minecraft");
    assert_eq!(component.requires[0].version.as_deref(), Some("1.12.2"));
    assert_eq!(component.classpath.len(), 1);
    assert_eq!(component.downloads.len(), 1);
    assert_eq!(component.game_arguments.len(), 2);
    assert!(matches!(&component.game_arguments[0], MinecraftArgument::Always(v) if v == "--tweakClass"));
    assert!(matches!(
        &component.game_arguments[1],
        MinecraftArgument::Always(v) if v == "net.minecraftforge.fml.common.launcher.FMLTweaker"
    ));
    assert_eq!(component.release_time, 99);
}

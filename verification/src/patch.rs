//! The known-issue patcher: a fixed table of corrective rewrites for
//! versions of one logging library with known vulnerabilities. Versions in
//! the documented range are pinned to a safe release and their download
//! metadata replaced with verified values; a combination needing a patch
//! but absent from the table is refused rather than guessed.

use vstd::prelude::*;
use vstd::string::*;

use crate::coordinate::CoordModel;
use crate::mojang::{LibraryArtifactModel, LibraryModel, MojangLibrary};
use crate::strutil::{contains_seq, contains_substr, str_eq};

verus! {

/// How two version strings compare under Maven 3 artifact-version ordering:
/// negative, zero or positive as the first is below, at or above the second.
pub uninterp spec fn maven_cmp(a: Seq<char>, b: Seq<char>) -> int;

/// A character that ends a qualifier run in Maven version parsing: a dot,
/// a dash, or an ASCII digit.
pub open spec fn run_break(c: char) -> bool {
    let u = c as u32;
    u == 46 || u == 45 || (48 <= u && u <= 57)
}

/// `c` is the lowercase ASCII letter `l`, in either case.
pub open spec fn char_ci(c: char, l: char) -> bool {
    c as u32 == l as u32 || c as u32 + 32 == l as u32
}

/// A maximal qualifier run spelling `w` (ASCII-case-insensitively) starts
/// at position `i` of `s`: every character matches and both neighbours, if
/// any, end a run.
pub open spec fn alias_run_at(s: Seq<char>, w: Seq<char>, i: int) -> bool {
    &&& 0 <= i
    &&& i + w.len() <= s.len()
    &&& forall|k: int| 0 <= k < w.len() ==> char_ci(s[i + k], w[k])
    &&& (i == 0 || run_break(s[i - 1]))
    &&& (i + w.len() == s.len() || run_break(s[i + w.len()]))
}

/// Version text the Maven comparator handles: no qualifier run spelling an
/// alias for the empty qualifier. The comparator's constructor asserts that
/// the canonical form of a parsed version re-parses to itself, and an empty
/// qualifier surviving between two other segments breaks that round trip;
/// text without such runs is outside the assertion's reach.
pub open spec fn maven_comparable(s: Seq<char>) -> bool {
    &&& forall|i: int| !alias_run_at(s, "ga"@, i)
    &&& forall|i: int| !alias_run_at(s, "final"@, i)
}

/// Text made only of run-ending characters (digits, dots, dashes) holds no
/// qualifier run at all.
proof fn lemma_break_text_comparable(s: Seq<char>)
    requires
        forall|k: int| 0 <= k < s.len() ==> run_break(s[k]),
    ensures
        maven_comparable(s),
{
    reveal_strlit("ga");
    reveal_strlit("final");
    assert forall|i: int| !alias_run_at(s, "ga"@, i) by {
        if alias_run_at(s, "ga"@, i) {
            assert(char_ci(s[i + 0], "ga"@[0]));
        }
    }
    assert forall|i: int| !alias_run_at(s, "final"@, i) by {
        if alias_run_at(s, "final"@, i) {
            assert(char_ci(s[i + 0], "final"@[0]));
        }
    }
}

/// Whether `c` ends a qualifier run.
fn run_break_char(c: char) -> (r: bool)
    ensures
        r == run_break(c),
{
    let u = c as u32;
    u == 46 || u == 45 || (48 <= u && u <= 57)
}

/// Whether `c` is the lowercase ASCII letter `l`, in either case.
fn ascii_ci(c: char, l: char) -> (r: bool)
    ensures
        r == char_ci(c, l),
{
    let cu = c as u32;
    let lu = l as u32;
    cu == lu || (lu >= 32 && cu == lu - 32)
}

/// Whether a maximal qualifier run spelling `w` occurs anywhere in `s`.
fn has_alias_run(s: &str, w: &str) -> (r: bool)
    requires
        w@.len() > 0,
    ensures
        r == exists|i: int| alias_run_at(s@, w@, i),
{
    let n = s.unicode_len();
    let m = w.unicode_len();
    if m > n {
        proof {
            assert forall|i: int| !alias_run_at(s@, w@, i) by {}
        }
        return false;
    }
    let mut i: usize = 0;
    while i <= n - m
        invariant
            n == s@.len(),
            m == w@.len(),
            0 < m <= n,
            0 <= i <= n - m + 1,
            forall|j: int| 0 <= j < i ==> !alias_run_at(s@, w@, j),
        decreases n - i,
    {
        let mut matched = true;
        let mut k: usize = 0;
        while k < m
            invariant
                n == s@.len(),
                m == w@.len(),
                0 <= i <= n - m,
                0 <= k <= m,
                matched == (forall|q: int| 0 <= q < k ==> char_ci(s@[i + q], w@[q])),
            decreases m - k,
        {
            if !ascii_ci(s.get_char(i + k), w.get_char(k)) {
                assert(!char_ci(s@[i + k as int], w@[k as int]));
                matched = false;
                k = m;
            } else {
                proof {
                    if matched {
                        assert(forall|q: int| 0 <= q < k + 1 ==> char_ci(s@[i + q], w@[q]));
                    }
                }
                k = k + 1;
            }
        }
        if matched {
            let before_ok = i == 0 || run_break_char(s.get_char(i - 1));
            let after_ok = i + m == n || run_break_char(s.get_char(i + m));
            if before_ok && after_ok {
                assert(alias_run_at(s@, w@, i as int));
                return true;
            }
        }
        proof {
            if alias_run_at(s@, w@, i as int) {
                assert(forall|q: int| 0 <= q < m ==> char_ci(s@[i + q], w@[q]));
            }
        }
        i = i + 1;
    }
    proof {
        assert forall|j: int| !alias_run_at(s@, w@, j) by {
            if alias_run_at(s@, w@, j) {
                assert(0 <= j <= n - m);
            }
        }
    }
    false
}

/// Whether the Maven comparator handles this version text.
pub fn maven_comparable_check(s: &str) -> (r: bool)
    ensures
        r == maven_comparable(s@),
{
    proof {
        reveal_strlit("ga");
        reveal_strlit("final");
    }
    let no_ga = !has_alias_run(s, "ga");
    let no_final = !has_alias_run(s, "final");
    proof {
        if no_ga {
            assert forall|i: int| !alias_run_at(s@, "ga"@, i) by {
                if alias_run_at(s@, "ga"@, i) {
                    assert(exists|j: int| alias_run_at(s@, "ga"@, j));
                }
            }
        }
        if no_final {
            assert forall|i: int| !alias_run_at(s@, "final"@, i) by {
                if alias_run_at(s@, "final"@, i) {
                    assert(exists|j: int| alias_run_at(s@, "final"@, j));
                }
            }
        }
    }
    no_ga && no_final
}

/// Relies on maven_version::new_artifact_version and the `Ord` of the
/// parsed version it returns: Maven 3 ordering of two version strings,
/// which depends on the two strings alone. The constructor asserts that a
/// parsed version's canonical form re-parses to the same canonical form,
/// and aborts where it does not; the admitted texts, free of empty-qualifier
/// alias runs, keep every parsed item visible in the canonical form, so the
/// round trip holds and the call returns on every admitted input.
#[verifier::external_body]
fn maven_version_compare(a: &str, b: &str) -> (r: i8)
    requires
        maven_comparable(a@),
        maven_comparable(b@),
    ensures
        -1 <= r <= 1,
        r as int == maven_cmp(a@, b@),
{
    let va = maven_version::new_artifact_version(a);
    let vb = maven_version::new_artifact_version(b);
    match va.cmp(&vb) {
        core::cmp::Ordering::Less => -1,
        core::cmp::Ordering::Equal => 0,
        core::cmp::Ordering::Greater => 1,
    }
}

/// The versions the documented vulnerable range `[2.8.0, 2.17.0)` covers,
/// by Maven 3 comparison.
pub open spec fn in_upgrade_range(v: Seq<char>) -> bool {
    maven_cmp("2.8.0"@, v) <= 0 && maven_cmp(v, "2.17.0"@) < 0
}

/// The corrected hash and size for a patched artifact at a target version,
/// from the fixed table of verified values.
pub open spec fn spec_correction(artifact: Seq<char>, version: Seq<char>) -> Option<
    (Seq<char>, u32),
> {
    if artifact == "log4j-core"@ && version == "2.17.0"@ {
        Some(("fe6e7a32c1228884b9691a744f953a55d0dd8ead"@, 1789339u32))
    } else if artifact == "log4j-slf4j18-impl"@ && version == "2.17.0"@ {
        Some(("bd7f6c0b9224dd214afb4e684957e2349b529a8d"@, 21244u32))
    } else if artifact == "log4j-api"@ && version == "2.17.0"@ {
        Some(("bbd791e9c8c9421e45337c4fe0a10851c086e36c"@, 301776u32))
    } else if artifact == "log4j-core"@ && version == "2.0-beta9"@ {
        Some(("db59ef51488f7ea6a2fd1a0bd8d862cf95f02b7a"@, 677741u32))
    } else if artifact == "log4j-core"@ && version == "2.0-rc2"@ {
        Some(("4ffd3e05eebaf965199d0b54d3cd8f8e342c9c08"@, 765649u32))
    } else {
        None
    }
}

/// The host corrected downloads are served from: the vendor's own mirror
/// for the pinned safe release, a dedicated mirror for the legacy releases
/// it does not carry.
pub open spec fn spec_patch_host(version: Seq<char>) -> Seq<char> {
    if version == "2.17.0"@ {
        "libraries.minecraft.net"@
    } else {
        "files.helixlauncher.dev/maven"@
    }
}

/// The corrected download URL of a patched artifact.
pub open spec fn spec_log4j_url(maven: Seq<char>, module: Seq<char>, version: Seq<char>) -> Seq<
    char,
> {
    "https://"@ + maven + "/org/apache/logging/log4j/"@ + module + "/"@ + version + "/"@ + module
        + "-"@ + version + ".jar"@
}

/// A library of the logging family could not be patched: either the table
/// holds no corrected metadata for a combination that needs one, or the
/// version text lies outside what the Maven comparator handles. Both are
/// refused by design rather than guessed.
#[derive(Debug)]
pub enum PatchError {
    UnpatchedArtifact { artifact: String, version: String },
    UncomparableVersion { version: String },
}

/// Model of a patching failure.
pub enum PatchErrModel {
    UnpatchedArtifact { artifact: Seq<char>, version: Seq<char> },
    UncomparableVersion { version: Seq<char> },
}

impl View for PatchError {
    type V = PatchErrModel;

    open spec fn view(&self) -> PatchErrModel {
        match self {
            PatchError::UnpatchedArtifact { artifact, version } =>
                PatchErrModel::UnpatchedArtifact { artifact: artifact@, version: version@ },
            PatchError::UncomparableVersion { version } => PatchErrModel::UncomparableVersion {
                version: version@,
            },
        }
    }
}

/// What patching does to one library: a library whose artifact name does
/// not mention the logging family passes through; one whose version the
/// comparator cannot handle is refused; one in the vulnerable range is
/// pinned to the safe release; the two legacy releases keep their version
/// but get corrected metadata; any patched library with a direct download
/// gets URL, hash and size replaced from the table, or is refused when the
/// table has no entry.
pub open spec fn spec_patch_log4j(l: LibraryModel) -> Result<LibraryModel, PatchErrModel> {
    if !contains_seq(l.name.artifact, "log4j"@) {
        Ok(l)
    } else if !maven_comparable(l.name.version) {
        Err(PatchErrModel::UncomparableVersion { version: l.name.version })
    } else {
        let v = l.name.version;
        let range_hit = in_upgrade_range(v);
        let legacy_hit = l.name.artifact == "log4j-core"@ && (v == "2.0-rc2"@ || v
            == "2.0-beta9"@);
        let new_version = if range_hit {
            "2.17.0"@
        } else {
            v
        };
        if !range_hit && !legacy_hit {
            Ok(l)
        } else {
            let renamed = LibraryModel {
                name: CoordModel { version: new_version, ..l.name },
                ..l
            };
            match l.downloads.artifact {
                None => Ok(renamed),
                Some(a) => match spec_correction(l.name.artifact, new_version) {
                    Some(correction) => Ok(
                        LibraryModel {
                            downloads: crate::mojang::LibraryDownloadsModel {
                                artifact: Some(
                                    LibraryArtifactModel {
                                        path: a.path,
                                        sha1: correction.0,
                                        size: correction.1,
                                        url: spec_log4j_url(
                                            spec_patch_host(new_version),
                                            l.name.artifact,
                                            new_version,
                                        ),
                                    },
                                ),
                                ..renamed.downloads
                            },
                            ..renamed
                        },
                    ),
                    None => Err(
                        PatchErrModel::UnpatchedArtifact {
                            artifact: l.name.artifact,
                            version: new_version,
                        },
                    ),
                },
            }
        }
    }
}

/// Build the corrected download URL.
fn log4j_url(maven: &str, module: &str, version: &str) -> (r: String)
    ensures
        r@ == spec_log4j_url(maven@, module@, version@),
{
    let mut s = String::from_str("https://");
    s.append(maven);
    s.append("/org/apache/logging/log4j/");
    s.append(module);
    s.append("/");
    s.append(version);
    s.append("/");
    s.append(module);
    s.append("-");
    s.append(version);
    s.append(".jar");
    s
}

/// Apply the known-issue table to one library, rewriting its version and
/// download metadata in place.
pub fn patch_log4j(lib: &mut MojangLibrary) -> (r: Result<(), PatchError>)
    ensures
        match r {
            Ok(()) => spec_patch_log4j(old(lib)@) == Ok::<LibraryModel, PatchErrModel>(
                final(lib)@,
            ),
            Err(e) => spec_patch_log4j(old(lib)@) == Err::<LibraryModel, PatchErrModel>(e@),
        },
{
    let ghost l = lib@;
    if !contains_substr(lib.name.artifact.as_str(), "log4j") {
        return Ok(());
    }
    if !maven_comparable_check(lib.name.version.as_str()) {
        return Err(PatchError::UncomparableVersion { version: lib.name.version.clone() });
    }
    proof {
        reveal_strlit("2.8.0");
        reveal_strlit("2.17.0");
        lemma_break_text_comparable("2.8.0"@);
        lemma_break_text_comparable("2.17.0"@);
    }
    let at_least_low = maven_version_compare("2.8.0", lib.name.version.as_str()) <= 0;
    let below_high = maven_version_compare(lib.name.version.as_str(), "2.17.0") < 0;
    let range_hit = at_least_low && below_high;
    assert(range_hit == in_upgrade_range(l.name.version));
    let legacy_hit = str_eq(lib.name.artifact.as_str(), "log4j-core") && (str_eq(
        lib.name.version.as_str(),
        "2.0-rc2",
    ) || str_eq(lib.name.version.as_str(), "2.0-beta9"));
    if !range_hit && !legacy_hit {
        return Ok(());
    }
    let ghost new_version: Seq<char> = if range_hit {
        "2.17.0"@
    } else {
        l.name.version
    };
    let ghost renamed = (LibraryModel { name: CoordModel { version: new_version, ..l.name }, ..l });
    if range_hit {
        lib.name.version = String::from_str("2.17.0");
    }
    assert(lib@ == renamed);
    assert(lib.name.artifact@ == l.name.artifact);
    assert(lib.name.version@ == new_version);
    let correction: Option<(&'static str, u32)> = if str_eq(
        lib.name.artifact.as_str(),
        "log4j-core",
    ) && str_eq(lib.name.version.as_str(), "2.17.0") {
        Some(("fe6e7a32c1228884b9691a744f953a55d0dd8ead", 1789339))
    } else if str_eq(lib.name.artifact.as_str(), "log4j-slf4j18-impl") && str_eq(
        lib.name.version.as_str(),
        "2.17.0",
    ) {
        Some(("bd7f6c0b9224dd214afb4e684957e2349b529a8d", 21244))
    } else if str_eq(lib.name.artifact.as_str(), "log4j-api") && str_eq(
        lib.name.version.as_str(),
        "2.17.0",
    ) {
        Some(("bbd791e9c8c9421e45337c4fe0a10851c086e36c", 301776))
    } else if str_eq(lib.name.artifact.as_str(), "log4j-core") && str_eq(
        lib.name.version.as_str(),
        "2.0-beta9",
    ) {
        Some(("db59ef51488f7ea6a2fd1a0bd8d862cf95f02b7a", 677741))
    } else if str_eq(lib.name.artifact.as_str(), "log4j-core") && str_eq(
        lib.name.version.as_str(),
        "2.0-rc2",
    ) {
        Some(("4ffd3e05eebaf965199d0b54d3cd8f8e342c9c08", 765649))
    } else {
        None
    };
    let has_artifact = lib.downloads.artifact.is_some();
    if !has_artifact {
        return Ok(());
    }
    match correction {
        Some((sha1, size)) => {
            assert(spec_correction(l.name.artifact, new_version) == Some((sha1@, size)));
            let host = if str_eq(lib.name.version.as_str(), "2.17.0") {
                "libraries.minecraft.net"
            } else {
                "files.helixlauncher.dev/maven"
            };
            assert(host@ == spec_patch_host(new_version));
            let url = log4j_url(host, lib.name.artifact.as_str(), lib.name.version.as_str());
            if let Some(artifact) = &mut lib.downloads.artifact {
                artifact.url = url;
                artifact.sha1 = String::from_str(sha1);
                artifact.size = size;
            }
            proof {
                let a = l.downloads.artifact->Some_0;
                assert(lib@ == (LibraryModel {
                    downloads: crate::mojang::LibraryDownloadsModel {
                        artifact: Some(
                            LibraryArtifactModel {
                                path: a.path,
                                sha1: sha1@,
                                size: size,
                                url: spec_log4j_url(
                                    spec_patch_host(new_version),
                                    l.name.artifact,
                                    new_version,
                                ),
                            },
                        ),
                        ..renamed.downloads
                    },
                    ..renamed
                }));
            }
            Ok(())
        },
        None => Err(
            PatchError::UnpatchedArtifact {
                artifact: lib.name.artifact.clone(),
                version: lib.name.version.clone(),
            },
        ),
    }
}

} // verus!

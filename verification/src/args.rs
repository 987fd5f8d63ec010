//! The argument template rewriter: legacy `${name}` placeholders are
//! rewritten into the canonical launcher's own vocabulary in a single pass,
//! unknown placeholders are a fatal error, and conditional arguments are
//! classified into named feature flags.

use vstd::prelude::*;
use vstd::string::*;

use crate::component::{ConditionFeature, Trait};
use crate::mojang::{spec_version_type_str, VersionType};
use crate::rules::FeaturesRule;

verus! {

/// A character that may appear inside a placeholder name.
pub open spec fn is_word_char(c: char) -> bool {
    let u = c as u32;
    (97 <= u && u <= 122) || (65 <= u && u <= 90) || (48 <= u && u <= 57) || u == 95
}

/// Executable word-character test.
pub fn word_char(c: char) -> (b: bool)
    ensures
        b == is_word_char(c),
{
    let u = c as u32;
    (97 <= u && u <= 122) || (65 <= u && u <= 90) || (48 <= u && u <= 57) || u == 95
}

/// The first position at or after `k` holding no word character (or the end
/// of the text).
pub open spec fn word_end(s: Seq<char>, k: int) -> int
    decreases s.len() - k,
{
    if k < 0 || k >= s.len() || !is_word_char(s[k]) {
        k
    } else {
        word_end(s, k + 1)
    }
}

/// The fixed substitution table: what a recognized placeholder is rewritten
/// to. Two legacy tokens map to the empty text; the version-type token takes
/// its value from the descriptor.
pub open spec fn spec_lookup_token(tok: Seq<char>, vt: VersionType) -> Option<Seq<char>> {
    if tok == "${auth_access_token}"@ {
        Some("${user.token}"@)
    } else if tok == "${auth_player_name}"@ {
        Some("${user.name}"@)
    } else if tok == "${version_name}"@ {
        Some("${instance.minecraft_version}"@)
    } else if tok == "${game_directory}"@ {
        Some("${instance.game_dir}"@)
    } else if tok == "${assets_root}"@ {
        Some("${instance.assets_dir}"@)
    } else if tok == "${assets_index_name}"@ {
        Some("${instance.assets_index_name}"@)
    } else if tok == "${auth_uuid}"@ {
        Some("${user.uuid}"@)
    } else if tok == "${clientid}"@ {
        Some(Seq::<char>::empty())
    } else if tok == "${auth_xuid}"@ {
        Some(Seq::<char>::empty())
    } else if tok == "${auth_session}"@ {
        Some("${user.token}"@)
    } else if tok == "${user_type}"@ {
        Some("${user.type}"@)
    } else if tok == "${version_type}"@ {
        Some(spec_version_type_str(vt))
    } else if tok == "${resolution_width}"@ {
        Some("${window.width}"@)
    } else if tok == "${resolution_height}"@ {
        Some("${window.height}"@)
    } else if tok == "${user_properties}"@ {
        Some("{}"@)
    } else if tok == "${game_assets}"@ {
        Some("${instance.virtual_assets_dir}"@)
    } else if tok == "${quickPlaySingleplayer}"@ {
        Some("${launch.world}"@)
    } else if tok == "${quickPlayMultiplayer}"@ {
        Some("${launch.server}"@)
    } else {
        None
    }
}

/// Rewrite the text from position `i` on: each `${word}` placeholder is
/// looked up in the table and replaced, every other character passes
/// through, and the first unknown placeholder aborts with that token.
pub open spec fn spec_remap_from(s: Seq<char>, i: int, vt: VersionType) -> Result<
    Seq<char>,
    Seq<char>,
>
    decreases s.len() - i,
{
    if i < 0 || i >= s.len() {
        Ok(Seq::<char>::empty())
    } else {
        let we = word_end(s, i + 2);
        if i + 1 < s.len() && s[i] == '$' && s[i + 1] == '{' && we > i + 2 && we < s.len() && s[we]
            == '}' {
            let tok = s.subrange(i, we + 1);
            match spec_lookup_token(tok, vt) {
                Some(rep) => match spec_remap_from(s, we + 1, vt) {
                    Ok(t) => Ok(rep + t),
                    Err(x) => Err(x),
                },
                None => Err(tok),
            }
        } else {
            match spec_remap_from(s, i + 1, vt) {
                Ok(t) => Ok(seq![s[i]] + t),
                Err(x) => Err(x),
            }
        }
    }
}

/// Rewrite a whole argument token.
pub open spec fn spec_remap(s: Seq<char>, vt: VersionType) -> Result<Seq<char>, Seq<char>> {
    spec_remap_from(s, 0, vt)
}

/// An argument that could not be rewritten: the placeholder is not in the
/// substitution table, and passing it through silently would leak a broken
/// variable into a launch command.
#[derive(Debug)]
pub enum ArgError {
    TokenNotSupported(String),
}

/// Model of a rewriting failure.
pub enum ArgErrModel {
    TokenNotSupported(Seq<char>),
}

impl View for ArgError {
    type V = ArgErrModel;

    open spec fn view(&self) -> ArgErrModel {
        match self {
            ArgError::TokenNotSupported(t) => ArgErrModel::TokenNotSupported(t@),
        }
    }
}

/// Look a placeholder token up in the fixed substitution table.
fn lookup_token(tok: &str, vt: VersionType) -> (r: Option<&'static str>)
    ensures
        match r {
            Some(rep) => spec_lookup_token(tok@, vt) == Some(rep@),
            None => spec_lookup_token(tok@, vt) is None,
        },
{
    if crate::strutil::str_eq(tok, "${auth_access_token}") {
        Some("${user.token}")
    } else if crate::strutil::str_eq(tok, "${auth_player_name}") {
        Some("${user.name}")
    } else if crate::strutil::str_eq(tok, "${version_name}") {
        Some("${instance.minecraft_version}")
    } else if crate::strutil::str_eq(tok, "${game_directory}") {
        Some("${instance.game_dir}")
    } else if crate::strutil::str_eq(tok, "${assets_root}") {
        Some("${instance.assets_dir}")
    } else if crate::strutil::str_eq(tok, "${assets_index_name}") {
        Some("${instance.assets_index_name}")
    } else if crate::strutil::str_eq(tok, "${auth_uuid}") {
        Some("${user.uuid}")
    } else if crate::strutil::str_eq(tok, "${clientid}") {
        proof {
            reveal_strlit("");
        }
        Some("")
    } else if crate::strutil::str_eq(tok, "${auth_xuid}") {
        proof {
            reveal_strlit("");
        }
        Some("")
    } else if crate::strutil::str_eq(tok, "${auth_session}") {
        Some("${user.token}")
    } else if crate::strutil::str_eq(tok, "${user_type}") {
        Some("${user.type}")
    } else if crate::strutil::str_eq(tok, "${version_type}") {
        Some(vt.as_str())
    } else if crate::strutil::str_eq(tok, "${resolution_width}") {
        Some("${window.width}")
    } else if crate::strutil::str_eq(tok, "${resolution_height}") {
        Some("${window.height}")
    } else if crate::strutil::str_eq(tok, "${user_properties}") {
        Some("{}")
    } else if crate::strutil::str_eq(tok, "${game_assets}") {
        Some("${instance.virtual_assets_dir}")
    } else if crate::strutil::str_eq(tok, "${quickPlaySingleplayer}") {
        Some("${launch.world}")
    } else if crate::strutil::str_eq(tok, "${quickPlayMultiplayer}") {
        Some("${launch.server}")
    } else {
        None
    }
}

/// Rewrite one argument token: every `${name}` placeholder in the table is
/// substituted, anything else passes through unchanged, and an unknown
/// placeholder fails with that token.
pub fn remap_vars(s: &str, vt: VersionType) -> (r: Result<String, ArgError>)
    ensures
        match r {
            Ok(o) => spec_remap(s@, vt) == Ok::<Seq<char>, Seq<char>>(o@),
            Err(e) => match e@ {
                ArgErrModel::TokenNotSupported(t) => spec_remap(s@, vt) == Err::<
                    Seq<char>,
                    Seq<char>,
                >(t),
            },
        },
{
    let n = s.unicode_len();
    let mut out = String::new();
    let mut run_start: usize = 0;
    let mut i: usize = 0;
    proof {
        assert(out@ + s@.subrange(0, 0) =~= Seq::<char>::empty());
    }
    while i < n
        invariant
            n == s@.len(),
            0 <= run_start <= i <= n,
            spec_remap(s@, vt) == (match spec_remap_from(s@, i as int, vt) {
                Ok(t) => Ok::<Seq<char>, Seq<char>>(
                    out@ + s@.subrange(run_start as int, i as int) + t,
                ),
                Err(x) => Err::<Seq<char>, Seq<char>>(x),
            }),
        decreases n - i,
    {
        let ghost prev_out = out@;
        let mut consumed_token = false;
        if s.get_char(i) == '$' && i + 1 < n && s.get_char(i + 1) == '{' {
            let mut j = i + 2;
            while j < n && word_char(s.get_char(j))
                invariant
                    n == s@.len(),
                    i + 2 <= j <= n,
                    word_end(s@, i + 2) == word_end(s@, j as int),
                decreases n - j,
            {
                proof {
                    assert(word_end(s@, j as int) == word_end(s@, j + 1));
                }
                j = j + 1;
            }
            proof {
                assert(word_end(s@, j as int) == j as int);
            }
            if j > i + 2 && j < n && s.get_char(j) == '}' {
                consumed_token = true;
                let tok = s.substring_char(i, j + 1);
                match lookup_token(tok, vt) {
                    Some(rep) => {
                        let run = s.substring_char(run_start, i);
                        out.append(run);
                        out.append(rep);
                        proof {
                            let ghost rep_seq = spec_lookup_token(tok@, vt)->Some_0;
                            if spec_remap_from(s@, j + 1, vt) is Ok {
                                let t = spec_remap_from(s@, j + 1, vt)->Ok_0;
                                assert(out@ + s@.subrange(j + 1, j + 1) + t =~= prev_out
                                    + s@.subrange(run_start as int, i as int) + (rep_seq + t));
                            }
                        }
                        i = j + 1;
                        run_start = i;
                    },
                    None => {
                        return Err(ArgError::TokenNotSupported(String::from_str(tok)));
                    },
                }
            }
        }
        if !consumed_token {
            proof {
                if spec_remap_from(s@, i + 1, vt) is Ok {
                    let t = spec_remap_from(s@, i + 1, vt)->Ok_0;
                    assert(s@.subrange(run_start as int, i + 1) =~= s@.subrange(
                        run_start as int,
                        i as int,
                    ) + seq![s@[i as int]]);
                    assert(out@ + s@.subrange(run_start as int, i + 1) + t =~= out@ + s@.subrange(
                        run_start as int,
                        i as int,
                    ) + (seq![s@[i as int]] + t));
                }
            }
            i = i + 1;
        }
    }
    let run = s.substring_char(run_start, n);
    let ghost prev_out = out@;
    out.append(run);
    proof {
        assert(out@ + Seq::<char>::empty() =~= prev_out + s@.subrange(run_start as int, n as int));
    }
    Ok(out)
}

/// What a conditional argument's feature predicate resolves to: an argument
/// gated by a named flag (possibly recording a component trait), or a
/// deliberate skip for features the target launcher does not yet expose.
#[derive(Debug, Clone, Copy, PartialEq, Eq, Structural)]
pub enum FeatureOutcome {
    Skip,
    Use { feature: ConditionFeature, adds: Option<Trait> },
}

/// A feature predicate that cannot gate an argument.
#[derive(Debug, Clone, Copy, PartialEq, Eq, Structural)]
pub enum FeatureRuleError {
    /// A recognized flag was set to false.
    FlagNotTrue,
    /// More than one feature predicate was set on the same rule: the gating
    /// would be ambiguous.
    MultipleFeatures,
    /// No feature predicate was set at all.
    NoFeature,
}

/// The classification of a feature predicate, examined flag by flag in the
/// fixed order: demo, custom resolution, quick-play support (skipped),
/// quick-play singleplayer, quick-play multiplayer, quick-play realms
/// (skipped).
pub open spec fn spec_classify_features(f: FeaturesRule) -> Result<FeatureOutcome, FeatureRuleError> {
    let after_demo: Result<Option<ConditionFeature>, FeatureRuleError> = match f.is_demo_user {
        Some(v) => if v {
            Ok(Some(ConditionFeature::Demo))
        } else {
            Err(FeatureRuleError::FlagNotTrue)
        },
        None => Ok(None),
    };
    match after_demo {
        Err(e) => Err(e),
        Ok(feat0) => {
            let after_custom: Result<Option<ConditionFeature>, FeatureRuleError> =
                match f.has_custom_resolution {
                Some(v) => if !v {
                    Err(FeatureRuleError::FlagNotTrue)
                } else if feat0 is Some {
                    Err(FeatureRuleError::MultipleFeatures)
                } else {
                    Ok(Some(ConditionFeature::CustomResolution))
                },
                None => Ok(feat0),
            };
            match after_custom {
                Err(e) => Err(e),
                Ok(feat1) => match f.has_quick_plays_support {
                    Some(v) => if !v {
                        Err(FeatureRuleError::FlagNotTrue)
                    } else if feat1 is Some {
                        Err(FeatureRuleError::MultipleFeatures)
                    } else {
                        Ok(FeatureOutcome::Skip)
                    },
                    None => {
                        let after_world: Result<Option<ConditionFeature>, FeatureRuleError> =
                            match f.is_quick_play_singleplayer {
                            Some(v) => if !v {
                                Err(FeatureRuleError::FlagNotTrue)
                            } else if feat1 is Some {
                                Err(FeatureRuleError::MultipleFeatures)
                            } else {
                                Ok(Some(ConditionFeature::QuickPlayWorld))
                            },
                            None => Ok(feat1),
                        };
                        match after_world {
                            Err(e) => Err(e),
                            Ok(feat2) => {
                                let after_server: Result<
                                    Option<ConditionFeature>,
                                    FeatureRuleError,
                                > = match f.is_quick_play_multiplayer {
                                    Some(v) => if !v {
                                        Err(FeatureRuleError::FlagNotTrue)
                                    } else if feat2 is Some {
                                        Err(FeatureRuleError::MultipleFeatures)
                                    } else {
                                        Ok(Some(ConditionFeature::QuickPlayServer))
                                    },
                                    None => Ok(feat2),
                                };
                                match after_server {
                                    Err(e) => Err(e),
                                    Ok(feat3) => match f.is_quick_play_realms {
                                        Some(v) => if !v {
                                            Err(FeatureRuleError::FlagNotTrue)
                                        } else if feat3 is Some {
                                            Err(FeatureRuleError::MultipleFeatures)
                                        } else {
                                            Ok(FeatureOutcome::Skip)
                                        },
                                        None => match feat3 {
                                            Some(feature) => Ok(
                                                FeatureOutcome::Use {
                                                    feature,
                                                    adds: feature_trait(feature),
                                                },
                                            ),
                                            None => Err(FeatureRuleError::NoFeature),
                                        },
                                    },
                                }
                            },
                        }
                    },
                },
            }
        },
    }
}

/// The component trait a gated argument's feature records, if any.
pub open spec fn feature_trait(f: ConditionFeature) -> Option<Trait> {
    match f {
        ConditionFeature::Demo => None,
        ConditionFeature::CustomResolution => Some(Trait::SupportsCustomResolution),
        ConditionFeature::QuickPlayWorld => Some(Trait::SupportsQuickPlayWorld),
        ConditionFeature::QuickPlayServer => Some(Trait::SupportsQuickPlayServer),
    }
}

/// Classify a conditional argument's feature predicate.
pub fn classify_features(f: &FeaturesRule) -> (r: Result<FeatureOutcome, FeatureRuleError>)
    ensures
        r == spec_classify_features(*f),
{
    let mut feature: Option<ConditionFeature> = None;
    if let Some(v) = f.is_demo_user {
        if !v {
            return Err(FeatureRuleError::FlagNotTrue);
        }
        feature = Some(ConditionFeature::Demo);
    }
    if let Some(v) = f.has_custom_resolution {
        if !v {
            return Err(FeatureRuleError::FlagNotTrue);
        }
        if feature.is_some() {
            return Err(FeatureRuleError::MultipleFeatures);
        }
        feature = Some(ConditionFeature::CustomResolution);
    }
    if let Some(v) = f.has_quick_plays_support {
        if !v {
            return Err(FeatureRuleError::FlagNotTrue);
        }
        if feature.is_some() {
            return Err(FeatureRuleError::MultipleFeatures);
        }
        return Ok(FeatureOutcome::Skip);
    }
    if let Some(v) = f.is_quick_play_singleplayer {
        if !v {
            return Err(FeatureRuleError::FlagNotTrue);
        }
        if feature.is_some() {
            return Err(FeatureRuleError::MultipleFeatures);
        }
        feature = Some(ConditionFeature::QuickPlayWorld);
    }
    if let Some(v) = f.is_quick_play_multiplayer {
        if !v {
            return Err(FeatureRuleError::FlagNotTrue);
        }
        if feature.is_some() {
            return Err(FeatureRuleError::MultipleFeatures);
        }
        feature = Some(ConditionFeature::QuickPlayServer);
    }
    if let Some(v) = f.is_quick_play_realms {
        if !v {
            return Err(FeatureRuleError::FlagNotTrue);
        }
        if feature.is_some() {
            return Err(FeatureRuleError::MultipleFeatures);
        }
        return Ok(FeatureOutcome::Skip);
    }
    match feature {
        Some(feat) => {
            let adds = match feat {
                ConditionFeature::Demo => None,
                ConditionFeature::CustomResolution => Some(Trait::SupportsCustomResolution),
                ConditionFeature::QuickPlayWorld => Some(Trait::SupportsQuickPlayWorld),
                ConditionFeature::QuickPlayServer => Some(Trait::SupportsQuickPlayServer),
            };
            Ok(FeatureOutcome::Use { feature: feat, adds })
        },
        None => Err(FeatureRuleError::NoFeature),
    }
}

} // verus!

//! Platform-conditional rules: for a rule list and the fixed OS universe,
//! decide which operating systems an entry applies to, refusing every rule
//! shape outside the recognized set.

use vstd::prelude::*;
use vstd::string::*;

use crate::component::OsName;

verus! {

/// What a rule does when it matches.
#[derive(Debug, Clone, Copy, PartialEq, Eq, Structural)]
pub enum RuleAction {
    Allow,
    Disallow,
}

/// The OS predicate of a rule. Only the name may be interpreted; version and
/// architecture predicates are recognized but unsupported.
#[derive(Debug, Clone)]
pub struct OsRule {
    pub name: Option<OsName>,
    pub version: Option<String>,
    pub arch: Option<String>,
}

/// Model of an OS predicate.
pub struct OsRuleModel {
    pub name: Option<OsName>,
    pub version: Option<Seq<char>>,
    pub arch: Option<Seq<char>>,
}

impl View for OsRule {
    type V = OsRuleModel;

    open spec fn view(&self) -> OsRuleModel {
        OsRuleModel {
            name: self.name,
            version: match self.version {
                Some(ref v) => Some(v@),
                None => None,
            },
            arch: match self.arch {
                Some(ref a) => Some(a@),
                None => None,
            },
        }
    }
}

/// The feature predicate of a rule: at most one flag may be interpreted per
/// rule; every flag outside this set is a parse failure upstream.
#[derive(Debug, Clone, Copy, PartialEq, Eq, Structural)]
pub struct FeaturesRule {
    pub is_demo_user: Option<bool>,
    pub has_custom_resolution: Option<bool>,
    pub has_quick_plays_support: Option<bool>,
    pub is_quick_play_singleplayer: Option<bool>,
    pub is_quick_play_multiplayer: Option<bool>,
    pub is_quick_play_realms: Option<bool>,
}

/// One platform-conditional rule.
#[derive(Debug, Clone)]
pub struct Rule {
    pub features: Option<FeaturesRule>,
    pub os: Option<OsRule>,
    pub action: RuleAction,
}

/// Model of a rule.
pub struct RuleModel {
    pub features: Option<FeaturesRule>,
    pub os: Option<OsRuleModel>,
    pub action: RuleAction,
}

impl View for Rule {
    type V = RuleModel;

    open spec fn view(&self) -> RuleModel {
        RuleModel {
            features: self.features,
            os: match self.os {
                Some(ref o) => Some(o@),
                None => None,
            },
            action: self.action,
        }
    }
}

/// A rule that applies everywhere unconditionally.
pub open spec fn spec_is_always_allow(r: RuleModel) -> bool {
    r.action is Allow && r.features is None && r.os is None
}

impl Rule {
    /// Whether this rule is an unconditional allow.
    pub fn is_always_allow(&self) -> (b: bool)
        ensures
            b == spec_is_always_allow(self@),
    {
        match self.action {
            RuleAction::Allow => self.features.is_none() && self.os.is_none(),
            _ => false,
        }
    }
}

/// The unsupported predicate a rule list was refused for.
pub enum UnsupportedKind {
    Arch,
    OsVersion,
    Features,
}

/// The name an unsupported predicate is reported under.
pub open spec fn kind_text(k: UnsupportedKind) -> Seq<char> {
    match k {
        UnsupportedKind::Arch => "os.arch"@,
        UnsupportedKind::OsVersion => "os.version"@,
        UnsupportedKind::Features => "features"@,
    }
}

/// Rule evaluation failure: a recognized-but-unsupported predicate, named so
/// the rule table can be extended.
#[derive(Debug)]
pub enum Error {
    UnsupportedFeature(&'static str),
}

/// Model of an evaluation failure.
pub enum ErrorModel {
    UnsupportedFeature(Seq<char>),
}

impl View for Error {
    type V = ErrorModel;

    open spec fn view(&self) -> ErrorModel {
        match self {
            Error::UnsupportedFeature(s) => ErrorModel::UnsupportedFeature(s@),
        }
    }
}

/// Whether a rule's OS predicate matches the given OS: no predicate or no
/// name matches every OS.
pub open spec fn os_rule_matches(os_rule: Option<OsRuleModel>, os: OsName) -> bool {
    match os_rule {
        None => true,
        Some(r) => match r.name {
            None => true,
            Some(n) => n == os,
        },
    }
}

/// The unsupported predicate one rule trips over when evaluated for `os`,
/// in the order predicates are examined: architecture first, then OS
/// version; a rule whose OS name does not match is skipped before its
/// feature predicate is ever looked at.
pub open spec fn rule_issue(r: RuleModel, os: OsName) -> Option<UnsupportedKind> {
    match r.os {
        Some(o) => {
            if o.arch is Some {
                Some(UnsupportedKind::Arch)
            } else if o.version is Some {
                Some(UnsupportedKind::OsVersion)
            } else if os_rule_matches(r.os, os) {
                if r.features is Some {
                    Some(UnsupportedKind::Features)
                } else {
                    None
                }
            } else {
                None
            }
        },
        None => {
            if r.features is Some {
                Some(UnsupportedKind::Features)
            } else {
                None
            }
        },
    }
}

/// The first unsupported predicate hit when scanning the list for `os`.
pub open spec fn first_issue(rules: Seq<RuleModel>, os: OsName) -> Option<UnsupportedKind>
    decreases rules.len(),
{
    if rules.len() == 0 {
        None
    } else {
        match rule_issue(rules.first(), os) {
            Some(k) => Some(k),
            None => first_issue(rules.drop_first(), os),
        }
    }
}

/// The first unsupported predicate over the whole evaluation, which walks
/// the OS universe in the fixed order Linux, macOS, Windows.
pub open spec fn eval_issue(rules: Seq<RuleModel>) -> Option<UnsupportedKind> {
    match first_issue(rules, OsName::Linux) {
        Some(k) => Some(k),
        None => match first_issue(rules, OsName::Osx) {
            Some(k) => Some(k),
            None => first_issue(rules, OsName::Windows),
        },
    }
}

/// Whether the rules resolve to allowed for `os`: the state starts
/// disallowed and every matching rule overwrites it with its own action, so
/// the last matching rule wins.
pub open spec fn spec_allowed(rules: Seq<RuleModel>, os: OsName) -> bool
    decreases rules.len(),
{
    if rules.len() == 0 {
        false
    } else if os_rule_matches(rules.last().os, os) {
        rules.last().action is Allow
    } else {
        spec_allowed(rules.drop_last(), os)
    }
}

/// The subset of the OS universe the rules allow, in the universe's fixed
/// order.
pub open spec fn spec_allowed_oses(rules: Seq<RuleModel>) -> Seq<OsName> {
    (if spec_allowed(rules, OsName::Linux) {
        seq![OsName::Linux]
    } else {
        Seq::<OsName>::empty()
    }) + (if spec_allowed(rules, OsName::Osx) {
        seq![OsName::Osx]
    } else {
        Seq::<OsName>::empty()
    }) + (if spec_allowed(rules, OsName::Windows) {
        seq![OsName::Windows]
    } else {
        Seq::<OsName>::empty()
    })
}

/// The rule models of a rule slice.
pub open spec fn rule_models(rules: Seq<Rule>) -> Seq<RuleModel> {
    rules.map_values(|r: Rule| r@)
}

/// Evaluate one OS of the universe: allowed state, or the first unsupported
/// predicate.
fn eval_one_os(rules: &[Rule], os: OsName) -> (r: Result<bool, Error>)
    ensures
        match r {
            Ok(b) => first_issue(rule_models(rules@), os) is None && b == spec_allowed(
                rule_models(rules@),
                os,
            ),
            Err(e) => match first_issue(rule_models(rules@), os) {
                Some(k) => e@ == ErrorModel::UnsupportedFeature(kind_text(k)),
                None => false,
            },
        },
{
    let ghost rm = rule_models(rules@);
    let n = rules.len();
    let mut allow = false;
    let mut i: usize = 0;
    proof {
        assert(rm.skip(0) =~= rm);
        assert(rm.take(0) =~= Seq::<RuleModel>::empty());
    }
    while i < n
        invariant
            n == rules@.len(),
            rm == rule_models(rules@),
            0 <= i <= n,
            first_issue(rm, os) == first_issue(rm.skip(i as int), os),
            allow == spec_allowed(rm.take(i as int), os),
        decreases n - i,
    {
        let rule = &rules[i];
        proof {
            assert(rm.skip(i as int).first() == rm[i as int]);
            assert(rm.skip(i as int).drop_first() =~= rm.skip(i as int + 1));
            assert(rm.take(i as int + 1).last() == rm[i as int]);
            assert(rm.take(i as int + 1).drop_last() =~= rm.take(i as int));
        }
        let mut skip = false;
        if let Some(os_rule) = &rule.os {
            if os_rule.arch.is_some() {
                return Err(Error::UnsupportedFeature("os.arch"));
            }
            if os_rule.version.is_some() {
                return Err(Error::UnsupportedFeature("os.version"));
            }
            if let Some(name) = os_rule.name {
                if !(name == os) {
                    skip = true;
                }
            }
        }
        if !skip {
            if rule.features.is_some() {
                return Err(Error::UnsupportedFeature("features"));
            }
            allow = match rule.action {
                RuleAction::Allow => true,
                RuleAction::Disallow => false,
            };
        }
        i = i + 1;
    }
    proof {
        assert(rm.skip(i as int) =~= Seq::<RuleModel>::empty());
        assert(rm.take(i as int) =~= rm);
    }
    Ok(allow)
}

/// Evaluate a rule list against the fixed OS universe `{Linux, macOS,
/// Windows}`: the subset of the universe the rules resolve to allowed for,
/// or an error naming the first unsupported predicate encountered.
pub fn evaluate_rules_os_name(rules: &[Rule]) -> (r: Result<Vec<OsName>, Error>)
    ensures
        match r {
            Ok(list) => eval_issue(rule_models(rules@)) is None && list@ == spec_allowed_oses(
                rule_models(rules@),
            ),
            Err(e) => match eval_issue(rule_models(rules@)) {
                Some(k) => e@ == ErrorModel::UnsupportedFeature(kind_text(k)),
                None => false,
            },
        },
{
    let ghost rm = rule_models(rules@);
    let mut result: Vec<OsName> = Vec::new();
    let linux = eval_one_os(rules, OsName::Linux)?;
    let osx = eval_one_os(rules, OsName::Osx)?;
    let windows = eval_one_os(rules, OsName::Windows)?;
    if linux {
        result.push(OsName::Linux);
    }
    if osx {
        result.push(OsName::Osx);
    }
    if windows {
        result.push(OsName::Windows);
    }
    proof {
        assert(result@ =~= spec_allowed_oses(rm));
    }
    Ok(result)
}

/// Later rules override earlier ones: whatever a rule list decided for an
/// OS, appending one more rule whose OS predicate matches that OS makes the
/// appended rule's action the final state for it. Evaluation itself is a
/// function of the rule list and OS alone, hence deterministic.
pub proof fn lemma_later_rule_overrides(rules: Seq<RuleModel>, r: RuleModel, os: OsName)
    requires
        os_rule_matches(r.os, os),
    ensures
        spec_allowed(rules.push(r), os) == (r.action is Allow),
{
    assert(rules.push(r).last() == r);
}

/// A rule whose OS predicate does not match leaves the state for that OS
/// untouched.
pub proof fn lemma_unmatched_rule_keeps_state(rules: Seq<RuleModel>, r: RuleModel, os: OsName)
    requires
        !os_rule_matches(r.os, os),
    ensures
        spec_allowed(rules.push(r), os) == spec_allowed(rules, os),
{
    assert(rules.push(r).last() == r);
    assert(rules.push(r).drop_last() =~= rules);
}

} // verus!

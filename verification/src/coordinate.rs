//! Artifact coordinates: a structured identifier with group, artifact,
//! version, optional classifier and extension, with round-trip string
//! conversion and repository URL derivation.

use vstd::prelude::*;
use vstd::string::*;

use crate::strutil::{find_char, rfind_char, replace_all, spec_replace};

verus! {

/// Mathematical model of a coordinate: every text field as a character
/// sequence.
pub struct CoordModel {
    pub group: Seq<char>,
    pub artifact: Seq<char>,
    pub version: Seq<char>,
    pub classifier: Option<Seq<char>>,
    pub extension: Seq<char>,
}

/// A parsed artifact identifier, `group:artifact:version[:classifier][@extension]`.
/// The extension defaults to `jar`.
#[derive(Debug, Clone, Hash, PartialEq, Eq)]
pub struct GradleSpecifier {
    pub group: String,
    pub artifact: String,
    pub version: String,
    pub classifier: Option<String>,
    pub extension: String,
}

impl View for GradleSpecifier {
    type V = CoordModel;

    open spec fn view(&self) -> CoordModel {
        CoordModel {
            group: self.group@,
            artifact: self.artifact@,
            version: self.version@,
            classifier: match self.classifier {
                Some(ref c) => Some(c@),
                None => None,
            },
            extension: self.extension@,
        }
    }
}

impl GradleSpecifier {
    /// Whether two coordinates agree in every field. Equality of coordinates
    /// is structural.
    pub fn key_eq(&self, other: &Self) -> (r: bool)
        ensures
            r == (self@ == other@),
    {
        self.group == other.group && self.artifact == other.artifact && self.version
            == other.version && match (&self.classifier, &other.classifier) {
            (Some(a), Some(b)) => *a == *b,
            (None, None) => true,
            _ => false,
        } && self.extension == other.extension
    }

    /// An owned copy of this coordinate.
    pub fn duplicate(&self) -> (r: Self)
        ensures
            r@ == self@,
    {
        Self {
            group: self.group.clone(),
            artifact: self.artifact.clone(),
            version: self.version.clone(),
            classifier: match &self.classifier {
                Some(c) => Some(c.clone()),
                None => None,
            },
            extension: self.extension.clone(),
        }
    }

    /// The same coordinate with the classifier replaced.
    pub fn with_classifier(&self, classifier: String) -> (r: Self)
        ensures
            r@ == (CoordModel { classifier: Some(classifier@), ..self@ }),
    {
        Self {
            group: self.group.clone(),
            artifact: self.artifact.clone(),
            version: self.version.clone(),
            classifier: Some(classifier),
            extension: self.extension.clone(),
        }
    }
}

/// The canonical text form of a coordinate: the classifier segment is present
/// exactly when a classifier is, and the extension segment exactly when the
/// extension is not the default `jar`.
pub open spec fn spec_format(c: CoordModel) -> Seq<char> {
    c.group + ":"@ + c.artifact + ":"@ + c.version + (match c.classifier {
        Some(cl) => ":"@ + cl,
        None => Seq::<char>::empty(),
    }) + (if c.extension == "jar"@ {
        Seq::<char>::empty()
    } else {
        "@"@ + c.extension
    })
}

impl GradleSpecifier {
    /// Render the coordinate as text.
    pub fn format(&self) -> (r: String)
        ensures
            r@ == spec_format(self@),
    {
        let mut s = self.group.clone();
        s.append(":");
        s.append(self.artifact.as_str());
        s.append(":");
        s.append(self.version.as_str());
        if let Some(classifier) = &self.classifier {
            s.append(":");
            s.append(classifier.as_str());
        }
        if !(self.extension == String::from_str("jar")) {
            s.append("@");
            s.append(self.extension.as_str());
        }
        s
    }
}

/// Model of a coordinate-parsing failure, carrying the text that lacked the
/// expected segment.
pub enum ParseErrModel {
    ArtifactIdMissing(Seq<char>),
    VersionMissing(Seq<char>),
}

/// A coordinate string that could not be parsed: either no `:` at all (no
/// artifact id) or only one `:` (no version).
#[derive(Debug)]
pub enum GradleParseError {
    ArtifactIdMissing(String),
    VersionMissing(String),
}

impl View for GradleParseError {
    type V = ParseErrModel;

    open spec fn view(&self) -> ParseErrModel {
        match self {
            GradleParseError::ArtifactIdMissing(s) => ParseErrModel::ArtifactIdMissing(s@),
            GradleParseError::VersionMissing(s) => ParseErrModel::VersionMissing(s@),
        }
    }
}

/// What parsing a coordinate string yields: the text up to the first `:` is
/// the group and up to the next `:` the artifact; a trailing `@extension`
/// (split at the last `@`) overrides the default `jar` extension; a
/// `:classifier` (split at the first `:`) may follow the version.
pub open spec fn spec_parse(s: Seq<char>) -> Result<CoordModel, ParseErrModel> {
    match s.index_of_first(':') {
        None => Err(ParseErrModel::ArtifactIdMissing(s)),
        Some(i) => {
            let group = s.subrange(0, i);
            let rest = s.subrange(i + 1, s.len() as int);
            match rest.index_of_first(':') {
                None => Err(ParseErrModel::VersionMissing(rest)),
                Some(j) => {
                    let artifact = rest.subrange(0, j);
                    let rest2 = rest.subrange(j + 1, rest.len() as int);
                    let ve = match rest2.index_of_last('@') {
                        Some(k) => (
                            rest2.subrange(0, k),
                            rest2.subrange(k + 1, rest2.len() as int),
                        ),
                        None => (rest2, "jar"@),
                    };
                    let vc = match ve.0.index_of_first(':') {
                        Some(m) => (
                            ve.0.subrange(0, m),
                            Some(ve.0.subrange(m + 1, ve.0.len() as int)),
                        ),
                        None => (ve.0, None),
                    };
                    Ok(CoordModel {
                        group,
                        artifact,
                        version: vc.0,
                        classifier: vc.1,
                        extension: ve.1,
                    })
                },
            }
        },
    }
}

impl GradleSpecifier {
    /// Parse a coordinate string.
    pub fn parse(s: &str) -> (r: Result<Self, GradleParseError>)
        ensures
            match r {
                Ok(c) => spec_parse(s@) == Ok::<CoordModel, ParseErrModel>(c@),
                Err(e) => spec_parse(s@) == Err::<CoordModel, ParseErrModel>(e@),
            },
    {
        let n = s.unicode_len();
        let i = match find_char(s, ':') {
            None => {
                return Err(GradleParseError::ArtifactIdMissing(String::from_str(s)));
            },
            Some(i) => i,
        };
        proof {
            s@.index_of_first_ensures(':');
        }
        let group = s.substring_char(0, i);
        let rest = s.substring_char(i + 1, n);
        let rn = rest.unicode_len();
        let j = match find_char(rest, ':') {
            None => {
                return Err(GradleParseError::VersionMissing(String::from_str(rest)));
            },
            Some(j) => j,
        };
        proof {
            rest@.index_of_first_ensures(':');
        }
        let artifact = rest.substring_char(0, j);
        let rest2 = rest.substring_char(j + 1, rn);
        let r2n = rest2.unicode_len();
        let (vc, extension) = match rfind_char(rest2, '@') {
            Some(k) => {
                proof {
                    rest2@.index_of_last_ensures('@');
                }
                (rest2.substring_char(0, k), rest2.substring_char(k + 1, r2n))
            },
            None => (rest2, "jar"),
        };
        let vcn = vc.unicode_len();
        let (version, classifier) = match find_char(vc, ':') {
            Some(m) => {
                proof {
                    vc@.index_of_first_ensures(':');
                }
                (
                    vc.substring_char(0, m),
                    Some(String::from_str(vc.substring_char(m + 1, vcn))),
                )
            },
            None => (vc, None),
        };
        Ok(GradleSpecifier {
            group: String::from_str(group),
            artifact: String::from_str(artifact),
            version: String::from_str(version),
            classifier,
            extension: String::from_str(extension),
        })
    }
}

/// In `a + [c] + b` with `c` absent from `a`, the first occurrence of `c` is
/// the separator.
proof fn lemma_first_sep(a: Seq<char>, b: Seq<char>, c: char)
    requires
        !a.contains(c),
    ensures
        (a + seq![c] + b).index_of_first(c) == Some(a.len() as int),
{
    let s = a + seq![c] + b;
    assert(s[a.len() as int] == c);
    assert forall|j: int| 0 <= j < a.len() implies s[j] != c by {
        if s[j] == c {
            assert(a[j] == c);
            assert(a.contains(c));
        }
    }
    crate::strutil::lemma_first_index(s, c, a.len() as int);
}

/// In `a + [c] + b` with `c` absent from `b`, the last occurrence of `c` is
/// the separator.
proof fn lemma_last_sep(a: Seq<char>, b: Seq<char>, c: char)
    requires
        !b.contains(c),
    ensures
        (a + seq![c] + b).index_of_last(c) == Some(a.len() as int),
{
    let s = a + seq![c] + b;
    assert(s[a.len() as int] == c);
    assert forall|j: int| a.len() < j < s.len() implies s[j] != c by {
        if s[j] == c {
            assert(b[j - a.len() - 1] == c);
            assert(b.contains(c));
        }
    }
    crate::strutil::lemma_last_index(s, c, a.len() as int);
}

/// A character absent from both halves has no occurrence in their
/// concatenation.
proof fn lemma_no_occurrence_concat(a: Seq<char>, b: Seq<char>, c: char)
    requires
        !a.contains(c),
        !b.contains(c),
    ensures
        (a + b).index_of_first(c) is None,
{
    let s = a + b;
    assert forall|j: int| 0 <= j < s.len() implies s[j] != c by {
        if s[j] == c {
            if j < a.len() {
                assert(a[j] == c);
                assert(a.contains(c));
            } else {
                assert(b[j - a.len()] == c);
                assert(b.contains(c));
            }
        }
    }
    crate::strutil::lemma_no_first_index(s, c);
}

/// Formatting a coordinate and parsing the result gives the coordinate back,
/// provided no field smuggles in a separator that formatting would not
/// escape: the group, artifact and version must be free of `:`; when the
/// extension is the default `jar` (and is therefore omitted), the version and
/// classifier must be free of `@`; when it is not, the extension itself must
/// be free of `@`.
pub proof fn lemma_parse_format_roundtrip(c: CoordModel)
    requires
        !c.group.contains(':'),
        !c.artifact.contains(':'),
        !c.version.contains(':'),
        c.extension == "jar"@ ==> !c.version.contains('@') && match c.classifier {
            Some(cl) => !cl.contains('@'),
            None => true,
        },
        c.extension != "jar"@ ==> !c.extension.contains('@'),
    ensures
        spec_parse(spec_format(c)) == Ok::<CoordModel, ParseErrModel>(c),
{
    reveal_strlit(":");
    reveal_strlit("@");
    reveal_strlit("jar");
    let s = spec_format(c);
    let cls_part = match c.classifier {
        Some(cl) => ":"@ + cl,
        None => Seq::<char>::empty(),
    };
    let ext_part = if c.extension == "jar"@ {
        Seq::<char>::empty()
    } else {
        "@"@ + c.extension
    };
    let tail = c.version + cls_part + ext_part;
    let rest_all = c.artifact + seq![':'] + tail;
    assert(":"@ =~= seq![':']);
    assert("@"@ =~= seq!['@']);
    assert(s =~= c.group + seq![':'] + rest_all);

    // group
    lemma_first_sep(c.group, rest_all, ':');
    let i = c.group.len() as int;
    assert(s.subrange(0, i) =~= c.group);
    assert(s.subrange(i + 1, s.len() as int) =~= rest_all);

    // artifact
    lemma_first_sep(c.artifact, tail, ':');
    let j = c.artifact.len() as int;
    assert(rest_all.subrange(0, j) =~= c.artifact);
    assert(rest_all.subrange(j + 1, rest_all.len() as int) =~= tail);

    // extension
    let vc_seq = c.version + cls_part;
    if c.extension == "jar"@ {
        assert(tail =~= vc_seq);
        assert(!vc_seq.contains('@')) by {
            lemma_no_occurrence_concat(c.version, cls_part, '@');
            vc_seq.index_of_first_ensures('@');
            if vc_seq.contains('@') {
            }
        }
        assert(tail.index_of_last('@') is None) by {
            tail.index_of_last_ensures('@');
        }
    } else {
        assert(tail =~= vc_seq + seq!['@'] + c.extension);
        lemma_last_sep(vc_seq, c.extension, '@');
        let k = vc_seq.len() as int;
        assert(tail.subrange(0, k) =~= vc_seq);
        assert(tail.subrange(k + 1, tail.len() as int) =~= c.extension);
    }

    // version and classifier
    match c.classifier {
        Some(cl) => {
            assert(vc_seq =~= c.version + seq![':'] + cl);
            lemma_first_sep(c.version, cl, ':');
            let m = c.version.len() as int;
            assert(vc_seq.subrange(0, m) =~= c.version);
            assert(vc_seq.subrange(m + 1, vc_seq.len() as int) =~= cl);
        },
        None => {
            assert(vc_seq =~= c.version);
            crate::strutil::lemma_no_first_index(vc_seq, ':');
        },
    }
}

/// A formatted coordinate never hides an absent classifier or the default
/// extension: the classifier segment appears exactly when a classifier is
/// present, and the extension segment exactly when the extension is not
/// `jar`. This restates the shape of `spec_format` itself.
pub proof fn lemma_format_omits_defaults(c: CoordModel)
    ensures
        c.classifier is None && c.extension == "jar"@ ==> spec_format(c) == c.group + ":"@
            + c.artifact + ":"@ + c.version,
        c.classifier is None && c.extension != "jar"@ ==> spec_format(c) == c.group + ":"@
            + c.artifact + ":"@ + c.version + "@"@ + c.extension,
{
    if c.classifier is None && c.extension == "jar"@ {
        assert(spec_format(c) =~= c.group + ":"@ + c.artifact + ":"@ + c.version);
    }
    if c.classifier is None && c.extension != "jar"@ {
        assert(spec_format(c) =~= c.group + ":"@ + c.artifact + ":"@ + c.version + "@"@
            + c.extension);
    }
}

/// The repository path of a coordinate below a base URL: the group with each
/// `.` replaced by `/`, then artifact and version directories, then the file
/// name `artifact-version[-classifier].extension`.
pub open spec fn spec_url(c: CoordModel, base: Seq<char>) -> Seq<char> {
    base + spec_replace(c.group, "."@, "/"@) + "/"@ + c.artifact + "/"@ + c.version + "/"@
        + c.artifact + "-"@ + c.version + (match c.classifier {
        Some(cl) => "-"@ + cl,
        None => Seq::<char>::empty(),
    }) + "."@ + c.extension
}

impl GradleSpecifier {
    /// The download URL of this coordinate below `base`.
    pub fn to_url(&self, base: &str) -> (r: String)
        ensures
            r@ == spec_url(self@, base@),
    {
        proof {
            reveal_strlit(".");
        }
        let mut s = String::from_str(base);
        let path = replace_all(self.group.as_str(), ".", "/");
        s.append(path.as_str());
        s.append("/");
        s.append(self.artifact.as_str());
        s.append("/");
        s.append(self.version.as_str());
        s.append("/");
        s.append(self.artifact.as_str());
        s.append("-");
        s.append(self.version.as_str());
        if let Some(classifier) = &self.classifier {
            s.append("-");
            s.append(classifier.as_str());
        }
        s.append(".");
        s.append(self.extension.as_str());
        s
    }
}

} // verus!

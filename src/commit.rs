use vstd::prelude::*;

verus! {

/// The type of a conventional commit: the two that drive a version, and every other.
#[derive(Debug)]
pub enum CommitKind {
    Feature,
    BugFix,
    Other(String),
}

/// A commit as the revision store hands it over: its id, its message and the paths it touches.
#[derive(Debug)]
pub struct RawCommit {
    pub oid: String,
    pub message: String,
    pub paths: Vec<String>,
}

/// A commit whose message follows the conventional shape.
#[derive(Debug)]
pub struct ClassifiedCommit {
    pub oid: String,
    pub shorthand: String,
    pub kind: CommitKind,
    pub scope: Option<String>,
    pub breaking: bool,
    pub description: String,
}

/// Length of the short form of a commit id.
pub const SHORT_ID_LEN: usize = 7;

/// What the conventional-commit parser reads from a message: the type as written in its
/// canonical form, the scope, the breaking flag and the description.
pub uninterp spec fn parsed_header(message: Seq<char>) -> Option<
    (Seq<char>, Option<Seq<char>>, bool, Seq<char>),
>;

pub open spec fn opt_view(o: Option<String>) -> Option<Seq<char>> {
    match o {
        Some(s) => Some(s@),
        None => None,
    }
}

/// Relies on `conventional_commit_parser::parse`: `None` when the message does not follow
/// `<type>[(<scope>)][!]: <description>`; else the commit type's canonical name
/// (`CommitType::as_ref`), the scope, `is_breaking_change` (a `!` or a breaking footer) and the
/// summary.
#[verifier::external_body]
fn parse_header(message: &str) -> (r: Option<(String, Option<String>, bool, String)>)
    ensures
        r is None <==> parsed_header(message@) is None,
        r matches Some(h) ==> parsed_header(message@) == Some(
            (h.0@, opt_view(h.1), h.2, h.3@),
        ),
{
    match conventional_commit_parser::parse(message) {
        Ok(c) => Some((c.commit_type.as_ref().to_string(), c.scope, c.is_breaking_change, c.summary)),
        Err(_) => None,
    }
}

/// Whether `k` is the kind that the canonical type name `name` stands for.
pub open spec fn kind_matches(k: CommitKind, name: Seq<char>) -> bool {
    match k {
        CommitKind::Feature => name == "feat"@,
        CommitKind::BugFix => name == "fix"@,
        CommitKind::Other(s) => s@ == name && name != "feat"@ && name != "fix"@,
    }
}

/// The short form of a commit id: its first characters.
pub open spec fn short_id(oid: Seq<char>) -> Seq<char> {
    if oid.len() <= SHORT_ID_LEN {
        oid
    } else {
        oid.take(SHORT_ID_LEN as int)
    }
}

/// The classification of a raw commit, given what the parser read from its message.
pub open spec fn classified(
    raw: RawCommit,
    c: ClassifiedCommit,
    h: (Seq<char>, Option<Seq<char>>, bool, Seq<char>),
) -> bool {
    &&& c.oid == raw.oid
    &&& c.shorthand@ == short_id(raw.oid@)
    &&& kind_matches(c.kind, h.0)
    &&& opt_view(c.scope) == h.1
    &&& c.breaking == h.2
    &&& c.description@ == h.3
}

impl CommitKind {
    /// The kind that a canonical type name stands for.
    pub fn from_name(name: String) -> (r: CommitKind)
        ensures
            kind_matches(r, name@),
    {
        let feat = String::from_str("feat");
        let fix = String::from_str("fix");
        if name == feat {
            CommitKind::Feature
        } else if name == fix {
            CommitKind::BugFix
        } else {
            CommitKind::Other(name)
        }
    }

    pub open spec fn is_feature(&self) -> bool {
        *self is Feature
    }

    pub open spec fn is_fix(&self) -> bool {
        *self is BugFix
    }
}

/// Reads a raw commit as a conventional commit; `None` when its message does not conform.
pub fn classify(raw: &RawCommit) -> (r: Option<ClassifiedCommit>)
    ensures
        r is None <==> parsed_header(raw.message@) is None,
        r matches Some(c) ==> classified(*raw, c, parsed_header(raw.message@)->0),
{
    match parse_header(raw.message.as_str()) {
        None => None,
        Some((name, scope, breaking, description)) => {
            let kind = CommitKind::from_name(name);
            let n = raw.oid.as_str().unicode_len();
            let end: usize = if n <= SHORT_ID_LEN { n } else { SHORT_ID_LEN };
            let shorthand = String::from_str(raw.oid.as_str().substring_char(0, end));
            let c = ClassifiedCommit {
                oid: raw.oid.clone(),
                shorthand,
                kind,
                scope,
                breaking,
                description,
            };
            assert(c.shorthand@ =~= short_id(raw.oid@));
            Some(c)
        },
    }
}

} // verus!

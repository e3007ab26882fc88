//! Tiers, failure categories and the trail of failed attempts.
use vstd::prelude::*;

verus! {

/// One of the five cache locations, in decreasing priority.
#[derive(Clone, Copy, Debug, PartialEq, Eq, Hash, PartialOrd, Ord, Structural)]
pub enum Tier {
    Application,
    User,
    System,
    Temporary,
    Memory,
}

/// Position of a tier in the fixed priority order (0 is tried first).
pub open spec fn rank(t: Tier) -> nat {
    match t {
        Tier::Application => 0,
        Tier::User => 1,
        Tier::System => 2,
        Tier::Temporary => 3,
        Tier::Memory => 4,
    }
}

/// The label that opens every trail line of a tier.
pub open spec fn tier_label(t: Tier) -> Seq<char> {
    match t {
        Tier::Application => "[Application Cache]"@,
        Tier::User => "[User Cache]"@,
        Tier::System => "[System Cache]"@,
        Tier::Temporary => "[Tmp Cache]"@,
        Tier::Memory => "[Memory Cache]"@,
    }
}

impl Tier {
    /// The label of this tier (see `tier_label`).
    pub fn label(&self) -> (r: &'static str)
        ensures
            r@ == tier_label(*self),
    {
        match self {
            Tier::Application => "[Application Cache]",
            Tier::User => "[User Cache]",
            Tier::System => "[System Cache]",
            Tier::Temporary => "[Tmp Cache]",
            Tier::Memory => "[Memory Cache]",
        }
    }
}

/// Coarse category of a failure.
#[derive(Clone, Copy, Debug, PartialEq, Eq, Structural)]
pub enum FailureKind {
    NotFound,
    PermissionDenied,
    AlreadyExists,
    InvalidInput,
    Other,
}

/// The name of a category, as it appears in trail lines.
pub open spec fn kind_name(k: FailureKind) -> Seq<char> {
    match k {
        FailureKind::NotFound => "NotFound"@,
        FailureKind::PermissionDenied => "PermissionDenied"@,
        FailureKind::AlreadyExists => "AlreadyExists"@,
        FailureKind::InvalidInput => "InvalidInput"@,
        FailureKind::Other => "Other"@,
    }
}

impl FailureKind {
    /// The name of this category (see `kind_name`).
    pub fn name(&self) -> (r: &'static str)
        ensures
            r@ == kind_name(*self),
    {
        match self {
            FailureKind::NotFound => "NotFound",
            FailureKind::PermissionDenied => "PermissionDenied",
            FailureKind::AlreadyExists => "AlreadyExists",
            FailureKind::InvalidInput => "InvalidInput",
            FailureKind::Other => "Other",
        }
    }
}

/// Why one attempt failed.
#[derive(Clone, Debug)]
pub enum Reason {
    /// Creating the cache directory under a candidate parent failed.
    CreateFailed(String),
    /// An environment variable is not set.
    VariableUndefined(String),
    /// An environment variable is set to an empty string.
    VariableEmpty(String),
    /// The current working directory is not available.
    NoCurrentDir,
    /// The user's home directory is not available.
    NoHomeDir,
    /// The user's home directory is known but empty.
    EmptyHomeDir,
    /// The temporary directory's path is empty.
    NoTempDir,
    /// The tier has no candidate parent directory left to try.
    NoCandidates,
    /// The tier does not exist on this platform.
    Unsupported,
}

/// A `Reason` with its strings as character sequences.
pub enum ReasonV {
    CreateFailed(Seq<char>),
    VariableUndefined(Seq<char>),
    VariableEmpty(Seq<char>),
    NoCurrentDir,
    NoHomeDir,
    EmptyHomeDir,
    NoTempDir,
    NoCandidates,
    Unsupported,
}

impl View for Reason {
    type V = ReasonV;

    open spec fn view(&self) -> ReasonV {
        match self {
            Reason::CreateFailed(p) => ReasonV::CreateFailed(p@),
            Reason::VariableUndefined(v) => ReasonV::VariableUndefined(v@),
            Reason::VariableEmpty(v) => ReasonV::VariableEmpty(v@),
            Reason::NoCurrentDir => ReasonV::NoCurrentDir,
            Reason::NoHomeDir => ReasonV::NoHomeDir,
            Reason::EmptyHomeDir => ReasonV::EmptyHomeDir,
            Reason::NoTempDir => ReasonV::NoTempDir,
            Reason::NoCandidates => ReasonV::NoCandidates,
            Reason::Unsupported => ReasonV::Unsupported,
        }
    }
}

/// The human-readable text of a reason.
pub open spec fn reason_text(r: ReasonV) -> Seq<char> {
    match r {
        ReasonV::CreateFailed(p) => "Failed to create the cache directory: "@ + p,
        ReasonV::VariableUndefined(v) => "%"@ + v + "% is undefined"@,
        ReasonV::VariableEmpty(v) => "%"@ + v + "% is defined, but it is set to an empty string"@,
        ReasonV::NoCurrentDir => "Could not obtain the current directory"@,
        ReasonV::NoHomeDir => "Could not obtain user's home directory"@,
        ReasonV::EmptyHomeDir => "The user's home directory is set to an empty string"@,
        ReasonV::NoTempDir => "Could not obtain the temporary directory's path"@,
        ReasonV::NoCandidates => "No candidate cache directory is available"@,
        ReasonV::Unsupported => "This cache is not supported on this platform"@,
    }
}

impl Reason {
    /// A copy of this reason.
    pub fn duplicate(&self) -> (r: Reason)
        ensures
            r@ == self@,
    {
        match self {
            Reason::CreateFailed(p) => Reason::CreateFailed(p.clone()),
            Reason::VariableUndefined(v) => Reason::VariableUndefined(v.clone()),
            Reason::VariableEmpty(v) => Reason::VariableEmpty(v.clone()),
            Reason::NoCurrentDir => Reason::NoCurrentDir,
            Reason::NoHomeDir => Reason::NoHomeDir,
            Reason::EmptyHomeDir => Reason::EmptyHomeDir,
            Reason::NoTempDir => Reason::NoTempDir,
            Reason::NoCandidates => Reason::NoCandidates,
            Reason::Unsupported => Reason::Unsupported,
        }
    }

    /// The text of this reason (see `reason_text`).
    pub fn text(&self) -> (r: String)
        ensures
            r@ == reason_text(self@),
    {
        match self {
            Reason::CreateFailed(p) => {
                let s = String::from_str("Failed to create the cache directory: ");
                s.concat(p.as_str())
            },
            Reason::VariableUndefined(v) => {
                let s = String::from_str("%");
                s.concat(v.as_str()).concat("% is undefined")
            },
            Reason::VariableEmpty(v) => {
                let s = String::from_str("%");
                s.concat(v.as_str()).concat("% is defined, but it is set to an empty string")
            },
            Reason::NoCurrentDir => String::from_str("Could not obtain the current directory"),
            Reason::NoHomeDir => String::from_str("Could not obtain user's home directory"),
            Reason::EmptyHomeDir => String::from_str(
                "The user's home directory is set to an empty string",
            ),
            Reason::NoTempDir => String::from_str("Could not obtain the temporary directory's path"),
            Reason::NoCandidates => String::from_str("No candidate cache directory is available"),
            Reason::Unsupported => String::from_str("This cache is not supported on this platform"),
        }
    }
}

/// One failed attempt: the tier it belongs to, its category and its reason.
#[derive(Clone, Debug)]
pub struct Attempt {
    pub tier: Tier,
    pub kind: FailureKind,
    pub reason: Reason,
}

/// An `Attempt` with its strings as character sequences.
pub struct AttemptV {
    pub tier: Tier,
    pub kind: FailureKind,
    pub reason: ReasonV,
}

impl View for Attempt {
    type V = AttemptV;

    open spec fn view(&self) -> AttemptV {
        AttemptV { tier: self.tier, kind: self.kind, reason: self.reason@ }
    }
}

/// The trail line of one attempt: a line break, the tier's label, the category
/// in brackets, and the reason.
pub open spec fn attempt_line(a: AttemptV) -> Seq<char> {
    "\n"@ + tier_label(a.tier) + "["@ + kind_name(a.kind) + "]: "@ + reason_text(a.reason)
}

/// The diagnostic text of a trail: its lines in order.
pub open spec fn render(trail: Seq<AttemptV>) -> Seq<char>
    decreases trail.len(),
{
    if trail.len() == 0 {
        Seq::empty()
    } else {
        render(trail.drop_last()) + attempt_line(trail.last())
    }
}

/// The views of a vector of attempts.
pub open spec fn views(v: Seq<Attempt>) -> Seq<AttemptV> {
    v.map_values(|a: Attempt| a@)
}

impl Attempt {
    /// A copy of this attempt.
    pub fn duplicate(&self) -> (r: Attempt)
        ensures
            r@ == self@,
    {
        Attempt { tier: self.tier, kind: self.kind, reason: self.reason.duplicate() }
    }

    /// The trail line of this attempt (see `attempt_line`).
    pub fn line(&self) -> (r: String)
        ensures
            r@ == attempt_line(self@),
    {
        let s = String::from_str("\n");
        let s = s.concat(self.tier.label()).concat("[").concat(self.kind.name()).concat("]: ");
        let t = self.reason.text();
        s.concat(t.as_str())
    }
}

/// The diagnostic text of `trail` (see `render`).
pub fn render_trail(trail: &Vec<Attempt>) -> (r: String)
    ensures
        r@ == render(views(trail@)),
{
    let mut out = String::new();
    let mut i: usize = 0;
    while i < trail.len()
        invariant
            i <= trail@.len(),
            out@ == render(views(trail@.subrange(0, i as int))),
        decreases trail@.len() - i,
    {
        let line = trail[i].line();
        out.append(line.as_str());
        proof {
            let pre = trail@.subrange(0, i as int);
            let next = trail@.subrange(0, i + 1);
            assert(views(next).drop_last() =~= views(pre));
            assert(views(next).last() == trail@[i as int]@);
        }
        i = i + 1;
    }
    assert(trail@.subrange(0, i as int) =~= trail@);
    out
}

} // verus!

use vstd::prelude::*;
use crate::report::Severity;

verus! {

/// How strongly a rule is enforced.
#[derive(Debug, Clone, Copy, PartialEq, Eq, Structural)]
pub enum Level {
    Allow,
    Warn,
    Deny,
}

impl Level {
    /// The severity that findings of a rule at this level carry.
    pub open spec fn spec_severity(self) -> Severity {
        match self {
            Level::Allow => Severity::Info,
            Level::Warn => Severity::Warn,
            Level::Deny => Severity::Deny,
        }
    }

    /// A rule at this level runs.
    pub fn enabled(self) -> (r: bool)
        ensures
            r == (self != Level::Allow),
    {
        !matches!(self, Level::Allow)
    }

    /// The severity that findings of a rule at this level carry.
    pub fn to_severity(self) -> (r: Severity)
        ensures
            r == self.spec_severity(),
    {
        match self {
            Level::Allow => Severity::Info,
            Level::Warn => Severity::Warn,
            Level::Deny => Severity::Deny,
        }
    }

    /// The level's name as written in a policy file.
    pub fn as_str(self) -> (r: &'static str)
        ensures
            r@ == level_name(self),
    {
        proof {
            reveal_strlit("allow");
            reveal_strlit("warn");
            reveal_strlit("deny");
        }
        match self {
            Level::Allow => "allow",
            Level::Warn => "warn",
            Level::Deny => "deny",
        }
    }
}

/// The level's name as written in a policy file.
pub open spec fn level_name(level: Level) -> Seq<char> {
    match level {
        Level::Allow => seq!['a', 'l', 'l', 'o', 'w'],
        Level::Warn => seq!['w', 'a', 'r', 'n'],
        Level::Deny => seq!['d', 'e', 'n', 'y'],
    }
}

/// Each level carries its own severity: `allow` informs, `warn` warns and
/// `deny` is an error, so no two levels share one.
pub proof fn levels_keep_their_severity(a: Level, b: Level)
    ensures
        Level::Allow.spec_severity() == Severity::Info,
        Level::Warn.spec_severity() == Severity::Warn,
        Level::Deny.spec_severity() == Severity::Deny,
        a != b ==> a.spec_severity() != b.spec_severity(),
{
}

} // verus!

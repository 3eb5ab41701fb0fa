//! The Tcl release that an interpreter follows.

use vstd::prelude::*;

use crate::child::environment_domains;
use crate::number::utf8_str;
use crate::state::{GuardDomain, Interp, InterpState};

verus! {

/// A release, by its two numbers.
#[derive(Debug, Clone, Copy, PartialEq, Eq, Structural)]
pub struct TclVersion {
    pub major: u8,
    pub minor: u8,
}

/// A dialect: a plain release, or one that a vendor built on a release.
#[derive(Debug, Clone, Copy, PartialEq, Eq, Structural)]
pub struct DialectProfile {
    /// Names the profile: two profiles of one number are one profile.
    pub id: u32,
    /// The release that scripts run as.
    pub version: TclVersion,
    /// Whether it is the lenient profile, which hides no command.
    pub fallback: bool,
}

/// The release that a fresh interpreter follows.
pub open spec fn default_runtime_version() -> TclVersion {
    TclVersion { major: 9, minor: 0 }
}

/// The profile of a fresh interpreter.
pub open spec fn lenient_profile() -> DialectProfile {
    DialectProfile { id: 0, version: default_runtime_version(), fallback: true }
}

impl DialectProfile {
    /// The profile of a fresh interpreter.
    pub fn lenient() -> (r: DialectProfile)
        ensures
            r == lenient_profile(),
    {
        DialectProfile { id: 0, version: TclVersion { major: 9, minor: 0 }, fallback: true }
    }
}

/// The release of an interpreter is that of its profile, and number zero is the
/// lenient profile.
pub open spec fn release_valid(s: InterpState) -> bool {
    &&& s.runtime_version == s.dialect_profile.version
    &&& s.dialect_profile.id == lenient_profile().id ==> s.dialect_profile == lenient_profile()
}

/// What follows a change of the profile.
#[derive(Debug, Clone, Copy, PartialEq, Eq, Structural)]
pub enum ReleaseChange {
    /// It is the same profile.
    Nothing,
    /// The variables and the packages that report the release are to be written,
    /// and the namespaces to look variables up as the release does.
    Rewrite,
}

/// An interpreter that was told to follow `profile`.
pub open spec fn profile_selected(
    before: InterpState,
    after: InterpState,
    profile: DialectProfile,
) -> bool {
    if before.dialect_profile.id == profile.id {
        after == before
    } else {
        &&& after.guarded_commands@.len() == 0
        &&& after.invalidations@ == before.invalidations@.push(GuardDomain::Interpreter)
            + environment_domains()
        &&& after == (InterpState {
            dialect_profile: profile,
            runtime_version: profile.version,
            guarded_commands: after.guarded_commands,
            invalidations: after.invalidations,
            ..before
        })
    }
}

impl Interp {
    /// Selects the profile that the interpreter follows. Its grammar for numbers
    /// is to be installed whether or not anything changes.
    pub fn set_dialect_profile(&mut self, profile: DialectProfile) -> (c: ReleaseChange)
        ensures
            c == if old(self).state.dialect_profile.id == profile.id {
                ReleaseChange::Nothing
            } else {
                ReleaseChange::Rewrite
            },
            profile_selected(old(self).state, final(self).state, profile),
            final(self).children == old(self).children,
    {
        if self.state.dialect_profile.id == profile.id {
            return ReleaseChange::Nothing;
        }
        self.invalidate_interpreter_policy();
        self.invalidate_command_environment();
        self.state.dialect_profile = profile;
        self.state.runtime_version = profile.version;
        ReleaseChange::Rewrite
    }

    /// Selects a plain release; `plain` is the profile that goes by its name.
    pub fn set_runtime_version(&mut self, plain: DialectProfile) -> (c: ReleaseChange)
        ensures
            c == if old(self).state.dialect_profile.id == plain.id {
                ReleaseChange::Nothing
            } else {
                ReleaseChange::Rewrite
            },
            profile_selected(old(self).state, final(self).state, plain),
            final(self).children == old(self).children,
    {
        self.set_dialect_profile(plain)
    }

    /// The release that the interpreter follows.
    pub fn runtime_version(&self) -> (r: TclVersion)
        ensures
            r == self.state.runtime_version,
    {
        self.state.runtime_version
    }

    /// The profile that the interpreter follows.
    pub fn dialect_profile(&self) -> (r: DialectProfile)
        ensures
            r == self.state.dialect_profile,
    {
        self.state.dialect_profile
    }

    /// Whether the profile has a command. The lenient profile has all, and a
    /// command that the registry does not know is not gated. `dated` says that
    /// the registry has the command on the profile's surface.
    pub fn profile_admits_registry_builtin(&self, known: bool, dated: bool) -> (r: bool)
        ensures
            r == (self.state.dialect_profile.fallback || !known || dated),
    {
        self.state.dialect_profile.fallback || !known || dated
    }

    /// Whether a built-in command is visible on the selected release, which only
    /// gates names that are text. `permits` says whether the release has the
    /// command where it names a function of expressions.
    pub fn builtin_command_visible_for_surface(
        &self,
        name: &[u8],
        permits: bool,
        known: bool,
        dated: bool,
    ) -> (r: bool)
        ensures
            r == (!vstd::utf8::valid_utf8(name@) || (permits && (
            self.state.dialect_profile.fallback || !known || dated))),
    {
        match utf8_str(name) {
            Some(_) => permits && self.profile_admits_registry_builtin(known, dated),
            None => true,
        }
    }
}

/// Whatever profile is selected, the interpreter then follows it.
pub proof fn a_selected_profile_is_followed(
    before: InterpState,
    after: InterpState,
    profile: DialectProfile,
)
    requires
        release_valid(before),
        profile.id == lenient_profile().id ==> profile == lenient_profile(),
        profile_selected(before, after, profile),
    ensures
        release_valid(after),
        after.dialect_profile.id == profile.id,
{
}

/// Selecting the same profile again changes nothing.
pub proof fn selecting_twice_is_selecting_once(
    before: InterpState,
    once: InterpState,
    twice: InterpState,
    profile: DialectProfile,
)
    requires
        profile_selected(before, once, profile),
        profile_selected(once, twice, profile),
    ensures
        twice == once,
{
}

} // verus!

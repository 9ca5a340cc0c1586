//! Versions of a chunk's residency, data and metadata.

use vstd::prelude::*;

verus! {

/// Versioning for Chunks. Encompasses changes to its state of residency, as well as mutations
/// to its data and metadata during its lifecycle.
#[derive(Debug, Clone, Copy, PartialEq, Eq, Structural, PartialOrd, Ord, Hash)]
pub struct Version {
    /// increased when the object comes into context (e.g. upon chunk loading).
    /// Implies a full sweep has been done (e.g. entire rebuild).
    major: u64,
    /// Increased when the object suffers data mutation (e.g. upon a block breaking).
    /// Implies a big sweep has been done (e.g. physics/collision recalculations).
    minor: u64,
    /// Increased when the object suffers metadata mutation (e.g. upon an animated block being interacted with, lighting update).
    /// Implies a small sweep has been done (e.g. lightweight visual pass, texture update).
    patch: u64,
}

impl View for Version {
    type V = (u64, u64, u64);

    /// The version as `(major, minor, patch)`.
    closed spec fn view(&self) -> (u64, u64, u64) {
        (self.major, self.minor, self.patch)
    }
}

impl Version {
    /// Two versions are equal exactly when their three numbers are.
    pub broadcast proof fn lemma_view_eq(a: Self, b: Self)
        ensures
            #![trigger a@, b@]
            a@ == b@ <==> a == b,
    {
    }

    /// Whether two versions share the lifecycle version.
    pub open spec fn spec_eq_major(self, other: Self) -> bool {
        self@.0 == other@.0
    }

    /// Whether two versions share the lifecycle and data mutation versions.
    pub open spec fn spec_eq_minor(self, other: Self) -> bool {
        self@.0 == other@.0 && self@.1 == other@.1
    }

    /// Whether two versions are the same.
    pub open spec fn spec_eq_patch(self, other: Self) -> bool {
        self@ == other@
    }

    /// Creates a new version of the form: (major.minor.patch), to be used with the ChunkScheduler and other systems.
    pub fn new(major: u64, minor: u64, patch: u64) -> (r: Self)
        ensures
            r@ == (major, minor, patch),
    {
        Self { major, minor, patch }
    }

    /// Bumps the lifecycle version. Resets data mutation and metadata mutation versions.
    pub fn inc_major(&mut self)
        requires
            old(self)@.0 < u64::MAX,
        ensures
            final(self)@ == ((old(self)@.0 + 1) as u64, 0u64, 0u64),
    {
        self.major += 1;
        self.minor = 0;
        self.patch = 0;
    }

    /// Checks if a version belongs to the same lifecycle version as another.
    ///
    /// May be used to reject Save or Unload tasks originating from a previous Load of a chunk, for example.
    pub fn eq_major(&self, other: &Self) -> (r: bool)
        ensures
            r == self.spec_eq_major(*other),
    {
        self.major == other.major
    }

    /// Bumps the data mutation version. Resets the metadata mutation version.
    pub fn inc_minor(&mut self)
        requires
            old(self)@.1 < u64::MAX,
        ensures
            final(self)@ == (old(self)@.0, (old(self)@.1 + 1) as u64, 0u64),
    {
        self.minor += 1;
        self.patch = 0;
    }

    /// Checks if a version belongs to the same data mutation version as another.
    ///
    /// May be used to reject Mesh tasks originating from a previous state of a chunk, for example.
    pub fn eq_minor(&self, other: &Self) -> (r: bool)
        ensures
            r == self.spec_eq_minor(*other),
    {
        self.major == other.major && self.minor == other.minor
    }

    /// Bumps the metadata version.
    pub fn inc_patch(&mut self)
        requires
            old(self)@.2 < u64::MAX,
        ensures
            final(self)@ == (old(self)@.0, old(self)@.1, (old(self)@.2 + 1) as u64),
    {
        self.patch += 1;
    }

    /// Checks if a version belongs to the same metadata mutation version as another.
    pub fn eq_patch(&self, other: &Self) -> (r: bool)
        ensures
            r == self.spec_eq_patch(*other),
    {
        self.major == other.major && self.minor == other.minor && self.patch == other.patch
    }
}

/// Sharing the metadata version implies sharing the data mutation version,
/// which implies sharing the lifecycle version.
pub proof fn lemma_eq_levels(a: Version, b: Version)
    ensures
        a.spec_eq_patch(b) ==> a.spec_eq_minor(b),
        a.spec_eq_minor(b) ==> a.spec_eq_major(b),
        a.spec_eq_patch(b) <==> a == b,
{
}

/// Bumping a version makes it differ from the version before at the bumped
/// level and leaves the levels above it unchanged.
pub proof fn lemma_bumps(v: Version, major: Version, minor: Version, patch: Version)
    requires
        v@.0 < u64::MAX,
        v@.1 < u64::MAX,
        v@.2 < u64::MAX,
        major@ == ((v@.0 + 1) as u64, 0u64, 0u64),
        minor@ == (v@.0, (v@.1 + 1) as u64, 0u64),
        patch@ == (v@.0, v@.1, (v@.2 + 1) as u64),
    ensures
        !major.spec_eq_major(v),
        minor.spec_eq_major(v) && !minor.spec_eq_minor(v),
        patch.spec_eq_minor(v) && !patch.spec_eq_patch(v),
{
}

impl Default for Version {
    /// The zero value.
    fn default() -> (r: Self)
        ensures
            r@ == (0u64, 0u64, 0u64),
    {
        Self { major: 0, minor: 0, patch: 0 }
    }
}

} // verus!

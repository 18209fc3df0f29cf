//! Review mode: browsing a git diff, staging hunks, and annotating lines.

pub mod state;
pub mod diff;
pub mod annotations;
pub mod layout;
pub mod mock;
pub mod labels;
pub mod roundtrip;
pub mod keys;
pub mod sides;
pub mod hunk_roundtrip;

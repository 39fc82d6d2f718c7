//! Multi-client rendering previews: client profiles that rewrite HTML to show
//! each client's quirks, a linter for patterns known to break, and an
//! accessibility linter. A profile carries a fidelity badge, so that no preview
//! claims to be more than an approximation.

pub mod a11y;
pub mod laws;
pub mod lint;
pub mod profile;

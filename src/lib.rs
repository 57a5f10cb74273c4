//! A kernel heap allocator's request policy: every request is widened to
//! whole cache lines before it reaches the arena, and the outstanding
//! allocations can be shadowed by a tracker that refuses any two that
//! overlap. Also the plan of the repository's clippy runs.
pub mod lint;
pub mod live;
pub mod request;
pub mod span;

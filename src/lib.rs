//! Paginated fetching of a remote track collection and planning of the
//! cover-art downloads for it, as verified state machines and pure functions.
//! The network, the disk and the progress display are driven by the caller.

pub mod paginate;
pub mod paths;
pub mod pipeline;
pub mod song;

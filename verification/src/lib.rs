//! Verified core of the UMST material-state prototype: the constitutional
//! layer hierarchy, the admissibility filter bookkeeping, the multi-shot
//! feedback protocol, pixel heuristics for label reading, the HTTP framing of
//! the filter server, energy sampling records and the entity allocator.

pub mod constitution;
pub mod text;
pub mod complexity;
pub mod multishot;
pub mod imaging;
pub mod encoding;
pub mod http;
pub mod hardware;
pub mod data;
pub mod ecs;
pub mod datasets;

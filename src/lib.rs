//! Admission decisions on the container images of a Kubernetes workload:
//! image references are parsed, matched against registry, tag and image
//! allow/reject lists, and folded into one verdict with sorted reasons.

pub mod text;
pub mod reference;
pub mod settings;
pub mod matching;
pub mod verdict;
pub mod validation;
pub mod image;

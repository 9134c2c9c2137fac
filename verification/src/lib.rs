//! Resolution of wallet descriptors and node addresses into derived
//! spending-branch descriptors, an inferred network, and a backend
//! configuration, with an error taxonomy that reduces every backend failure
//! to a Network or an Internal kind.
pub mod backend;
pub mod config;
pub mod e;
pub mod text;

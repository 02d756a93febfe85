//! Core logic of a service supervisor: canonical state paths, the
//! single-instance process lock, census folding from gossiped rumors,
//! service lifecycle bookkeeping, atomic snapshot persistence, event
//! payload framing, and the scheduler dispatcher's reply decisions.
pub mod census;
pub mod errors;
pub mod events;
pub mod fsstate;
pub mod ident;
pub mod manager;
pub mod paths;
pub mod pidlock;
pub mod scheduler;
pub mod service;
pub mod status;

pub use errors::SupError;
pub use ident::PackageIdent;
pub use ident::ServiceGroup;
pub use paths::FsCfg;
pub use paths::ManagerConfig;

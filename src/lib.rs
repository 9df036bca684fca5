//! Tracks watched directories, detects when their contents change, and
//! decides the lifecycle of their backup archives: naming, space admission,
//! catalog synchronisation, and the engine commands of each operation.
pub mod naming;
pub mod text;
pub mod df;
pub mod du;
pub mod admission;
pub mod borg;
pub mod model;
pub mod fingerprint;
pub mod scanner;
pub mod permafrust;
pub mod locks;

//! Presence tracking core: geofence occupancy, the login rendezvous map, the
//! session state machine with its token lifecycle, and small server helpers.

pub mod text;
pub mod paging;
pub mod token;
pub mod session;
pub mod geofence;
pub mod rendezvous;
pub mod store;
pub mod web;
pub mod startup;

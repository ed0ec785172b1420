use vstd::prelude::*;

pub mod capabilities;
pub mod clock;
pub mod config;
pub mod config_laws;
pub mod control;
pub mod deferral;
pub mod delivery;
pub mod delivery_laws;
pub mod export_laws;
pub mod fib;
pub mod gr;
pub mod inbound;
pub mod inbound_laws;
pub mod kernel_laws;
pub mod laws;
pub mod message;
pub mod net;
pub mod origination;
pub mod origination_laws;
pub mod propagation;
pub mod reflection;
pub mod restart;
pub mod restart_laws;
pub mod rib;
pub mod route;
pub mod session;
pub mod session_laws;
pub mod state;
pub mod table;
pub mod update;
pub mod update_laws;
pub mod value_laws;
pub mod work;

verus! {

} // verus!

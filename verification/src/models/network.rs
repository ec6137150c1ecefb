//! Network interfaces.
use vstd::prelude::*;

verus! {

/// A network interface as the selector lists it.
#[derive(Debug, Clone)]
pub struct NetworkInterface {
    pub name: String,
    pub is_up: bool,
    pub is_loopback: bool,
    pub ip_address: Option<String>,
}

} // verus!

//! Whether calls that are unsafe to expose may be made.

use vstd::prelude::*;

verus! {

/// Whether unsafe calls are denied.
#[derive(Clone, Copy, Debug, PartialEq, Eq, Structural)]
pub enum DenyUnsafe {
    /// Denies only potentially unsafe RPCs.
    Yes,
    /// Allows calling every RPCs.
    No,
}

/// Signifies whether an RPC considered unsafe is denied to be called externally.
#[derive(Clone, Copy, Debug, PartialEq, Eq, Structural)]
pub struct UnsafeRpcError;

/// Which calls a server offers.
#[derive(Clone, Copy, Debug, PartialEq, Eq, Structural)]
pub enum RpcMethods {
    /// Unsafe calls are offered on local addresses only.
    Auto,
    /// Only safe calls are offered.
    Safe,
    /// Every call is offered.
    Unsafe,
}

impl DenyUnsafe {
    /// Returns `Ok(())` if the RPCs considered unsafe are safe to call,
    /// otherwise returns `Err(UnsafeRpcError)`.
    pub fn check_if_safe(self) -> (r: Result<(), UnsafeRpcError>)
        ensures
            r.is_ok() == (self == DenyUnsafe::No),
    {
        match self {
            DenyUnsafe::Yes => Err(UnsafeRpcError),
            DenyUnsafe::No => Ok(()),
        }
    }

    /// Whether unsafe calls are denied on a server: they are allowed where
    /// every call is offered, and on a loopback address unless only safe
    /// calls are offered.
    pub open spec fn spec_for_server(is_loopback: bool, methods: RpcMethods) -> DenyUnsafe {
        if methods == RpcMethods::Unsafe || (is_loopback && methods == RpcMethods::Auto) {
            DenyUnsafe::No
        } else {
            DenyUnsafe::Yes
        }
    }

    /// Whether unsafe calls are denied on a server at an address that is or
    /// is not a loopback address.
    pub fn for_server(is_loopback: bool, methods: RpcMethods) -> (r: DenyUnsafe)
        ensures
            r == Self::spec_for_server(is_loopback, methods),
    {
        let is_exposed_addr = !is_loopback;
        match (is_exposed_addr, methods) {
            (_, RpcMethods::Unsafe) => DenyUnsafe::No,
            (false, RpcMethods::Auto) => DenyUnsafe::No,
            _ => DenyUnsafe::Yes,
        }
    }
}

impl UnsafeRpcError {
    /// What is shown of the error.
    pub fn message(&self) -> (r: String)
        ensures
            r@ == "RPC call is unsafe to be called externally"@,
    {
        "RPC call is unsafe to be called externally".to_owned()
    }
}

/// What is tried after a server could not be started on an address: where
/// the address is in use or may not be used, port 0 is tried once, which
/// lets the system pick a port; any other failure is final.
#[derive(Clone, Copy, Debug, PartialEq, Eq, Structural)]
pub enum BindFailure {
    AddrInUse,
    PermissionDenied,
    Other,
}

/// The port to try after a failure, if another try is to be made.
pub fn retry_port(failure: BindFailure) -> (r: Option<u16>)
    ensures
        r == if failure == BindFailure::AddrInUse || failure == BindFailure::PermissionDenied {
            Some(0u16)
        } else {
            None
        },
{
    match failure {
        BindFailure::AddrInUse => Some(0),
        BindFailure::PermissionDenied => Some(0),
        BindFailure::Other => None,
    }
}

} // verus!

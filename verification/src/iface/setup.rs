//! The checks and settings that building a TUN or TAP interface starts from.

use vstd::prelude::*;
use crate::addr::Ipv4Addr;
use crate::network::Ipv4Route;

verus! {

/// The size of the kernel's interface-name buffer, the terminating NUL included.
pub const IF_NAMESIZE: usize = 16;

/// Why building an interface failed. The variants that come from a system call carry the
/// call's error number.
#[derive(Debug, Clone, Copy, PartialEq, Eq, Structural)]
pub enum IfaceBuildError {
    /// The interface name contains a NUL byte.
    NameContainsNul,
    /// The interface name, with its terminating NUL, does not fit in `IF_NAMESIZE` bytes.
    NameTooLong,
    TunPermissionDenied(i32),
    TunSymbolicLinks(i32),
    ProcessFileDescriptorLimit(i32),
    SystemFileDescriptorLimit(i32),
    TunDoesntExist(i32),
    TunDeviceNotLoaded(i32),
    CreateIfacePermissionDenied,
    InterfaceAlreadyExists,
    MacAddrNotAvailable(i32),
    Ipv4AddrNotAvailable(i32),
    Ipv6AddrNotAvailable(i32),
}

/// The bytes of an interface name: its UTF-8 encoding.
pub open spec fn name_bytes(name: Seq<char>) -> Seq<u8> {
    vstd::utf8::encode_utf8(name)
}

/// What the name check decides for `name`: a name with a NUL byte is refused first, then one
/// that does not fit in the kernel's buffer with its terminating NUL.
pub open spec fn name_check_result(name: Seq<char>) -> Result<(), IfaceBuildError> {
    if name_bytes(name).contains(0u8) {
        Err(IfaceBuildError::NameContainsNul)
    } else if name_bytes(name).len() + 1 > IF_NAMESIZE {
        Err(IfaceBuildError::NameTooLong)
    } else {
        Ok(())
    }
}

/// Checks that `name` can name an interface (see `name_check_result`).
pub fn check_name(name: &str) -> (res: Result<(), IfaceBuildError>)
    ensures
        res == name_check_result(name@),
{
    let bytes = name.as_bytes();
    let mut i: usize = 0;
    while i < bytes.len()
        invariant
            i <= bytes@.len(),
            bytes@ == name_bytes(name@),
            forall|j: int| 0 <= j < i ==> bytes@[j] != 0,
        decreases bytes@.len() - i,
    {
        if bytes[i] == 0 {
            assert(name_bytes(name@).contains(0u8)) by {
                assert(bytes@[i as int] == 0);
            }
            return Err(IfaceBuildError::NameContainsNul);
        }
        i = i + 1;
    }
    if bytes.len() >= IF_NAMESIZE {
        return Err(IfaceBuildError::NameTooLong);
    }
    Ok(())
}

/// The settings of a TAP interface: its name, address, netmask and routes.
#[derive(Debug)]
pub struct IfaceBuilder {
    pub name: String,
    pub address: Ipv4Addr,
    pub netmask: Ipv4Addr,
    pub routes: Vec<Ipv4Route>,
}

} // verus!

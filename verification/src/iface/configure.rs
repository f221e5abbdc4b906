//! The arithmetic of configuring an interface: the IPv4 netmask it is given, where the parts of
//! the netlink message that gives it an IPv6 address lie, and what the kernel's reply means.

use vstd::prelude::*;
use crate::network::{spec_netmask, netmask_bits_to_u32};

verus! {

/// `x` rounded up to a multiple of `multiple`.
pub open spec fn spec_round_up(x: int, multiple: int) -> int {
    if x % multiple == 0 {
        x
    } else {
        x + (multiple - x % multiple)
    }
}

/// `x` rounded up to a multiple of `multiple` (see `spec_round_up`).
pub fn round_up(x: usize, multiple: usize) -> (rounded: usize)
    requires
        multiple > 0,
        x + multiple <= usize::MAX,
    ensures
        rounded == spec_round_up(x as int, multiple as int),
        rounded % multiple == 0,
        x <= rounded < x + multiple,
{
    let r = x % multiple;
    let rounded = if r == 0 {
        x
    } else {
        x + (multiple - r)
    };
    proof {
        vstd::arithmetic::div_mod::lemma_fundamental_div_mod(x as int, multiple as int);
        if r != 0 {
            let q = x as int / multiple as int;
            assert((q + 1) * (multiple as int) == (multiple as int) * q + multiple) by (nonlinear_arith);
            vstd::arithmetic::div_mod::lemma_fundamental_div_mod_converse(
                rounded as int,
                multiple as int,
                x as int / multiple as int + 1,
                0,
            );
        }
    }
    rounded
}

/// The netmask an interface with a prefix of `subnet_mask_bits` bits gets: all ones for 32,
/// otherwise the top `subnet_mask_bits` bits set.
pub fn ipv4_netmask(subnet_mask_bits: u8) -> (mask: u32)
    requires
        subnet_mask_bits <= 32,
    ensures
        mask == spec_netmask(subnet_mask_bits),
{
    netmask_bits_to_u32(subnet_mask_bits)
}

/// The netmask of an IPv6 prefix of `bits` bits, as a 128-bit value: the top `bits` bits set,
/// all of them from 128 bits on.
pub open spec fn spec_ipv6_netmask(bits: u8) -> u128 {
    if bits >= 128 {
        0xffff_ffff_ffff_ffff_ffff_ffff_ffff_ffffu128
    } else {
        !(0xffff_ffff_ffff_ffff_ffff_ffff_ffff_ffffu128 >> bits)
    }
}

/// The netmask of an IPv6 route to a network with a prefix of `bits` bits (see
/// `spec_ipv6_netmask`).
pub fn ipv6_netmask(bits: u8) -> (mask: u128)
    ensures
        mask == spec_ipv6_netmask(bits),
{
    if bits >= 128 {
        0xffff_ffff_ffff_ffff_ffff_ffff_ffff_ffffu128
    } else {
        !(0xffff_ffff_ffff_ffff_ffff_ffff_ffff_ffffu128 >> bits)
    }
}

/// The alignment of netlink message parts.
pub const NLMSG_ALIGNTO: usize = 4;

/// Where the parts of a netlink request that sets an interface address lie: the message
/// header, the address message, the attribute header and the attribute's data (the address),
/// each starting at the first aligned offset after the previous part.
#[derive(Clone, Copy, Debug, PartialEq, Eq, Structural)]
pub struct NetlinkAddrLayout {
    pub header_end: usize,
    pub data_start: usize,
    pub data_end: usize,
    pub attr_header_start: usize,
    pub attr_header_end: usize,
    pub attr_data_start: usize,
    pub attr_data_end: usize,
    pub total_size: usize,
}

/// The layout of a request whose parts have the given sizes (see `NetlinkAddrLayout`).
pub fn netlink_addr_layout(header_size: usize, data_size: usize, attr_header_size: usize, addr_size: usize) -> (layout: NetlinkAddrLayout)
    requires
        header_size <= 0x1000,
        data_size <= 0x1000,
        attr_header_size <= 0x1000,
        addr_size <= 0x1000,
    ensures
        layout.header_end == header_size,
        layout.data_start == spec_round_up(header_size as int, NLMSG_ALIGNTO as int),
        layout.data_end == layout.data_start + data_size,
        layout.attr_header_start == spec_round_up(layout.data_end as int, NLMSG_ALIGNTO as int),
        layout.attr_header_end == layout.attr_header_start + attr_header_size,
        layout.attr_data_start == spec_round_up(layout.attr_header_end as int, NLMSG_ALIGNTO as int),
        layout.attr_data_end == layout.attr_data_start + addr_size,
        layout.total_size == layout.attr_data_end,
{
    let header_end = header_size;
    let data_start = round_up(header_end, NLMSG_ALIGNTO);
    let data_end = data_start + data_size;
    let attr_header_start = round_up(data_end, NLMSG_ALIGNTO);
    let attr_header_end = attr_header_start + attr_header_size;
    let attr_data_start = round_up(attr_header_end, NLMSG_ALIGNTO);
    let attr_data_end = attr_data_start + addr_size;
    NetlinkAddrLayout {
        header_end,
        data_start,
        data_end,
        attr_header_start,
        attr_header_end,
        attr_data_start,
        attr_data_end,
        total_size: attr_data_end,
    }
}

/// Where the error of a netlink acknowledgement lies: after the message header, aligned; and
/// the acknowledgement's total size.
pub fn netlink_ack_layout(header_size: usize, error_size: usize) -> (layout: (usize, usize))
    requires
        header_size <= 0x1000,
        error_size <= 0x1000,
    ensures
        layout.0 == spec_round_up(header_size as int, NLMSG_ALIGNTO as int),
        layout.1 == layout.0 + error_size,
{
    let error_start = round_up(header_size, NLMSG_ALIGNTO);
    (error_start, error_start + error_size)
}

/// The type of a netlink message that carries nothing.
pub const NLMSG_NOOP: u16 = 1;

/// The type of a netlink error message, which is also how a request is acknowledged.
pub const NLMSG_ERROR: u16 = 2;

/// What a reply read from a netlink socket is.
#[derive(Clone, Copy, Debug, PartialEq, Eq, Structural)]
pub enum NetlinkReply {
    /// It is shorter than a message header.
    TooShort,
    /// A message that carries nothing: the next one is read.
    Noop,
    /// Neither that nor an acknowledgement of the expected size.
    Unexpected,
    /// An acknowledgement, whose error code follows its header.
    Ack,
}

/// What a reply of `received` bytes is, whose header is `header_size` bytes long and gives the
/// type `msg_type`, when an acknowledgement is `ack_size` bytes long.
pub fn classify_netlink_reply(received: usize, header_size: usize, msg_type: u16, ack_size: usize) -> (reply: NetlinkReply)
    ensures
        reply == (if received < header_size {
            NetlinkReply::TooShort
        } else if msg_type == NLMSG_NOOP {
            NetlinkReply::Noop
        } else if msg_type != NLMSG_ERROR || received != ack_size {
            NetlinkReply::Unexpected
        } else {
            NetlinkReply::Ack
        }),
{
    if received < header_size {
        NetlinkReply::TooShort
    } else if msg_type == NLMSG_NOOP {
        NetlinkReply::Noop
    } else if msg_type != NLMSG_ERROR || received != ack_size {
        NetlinkReply::Unexpected
    } else {
        NetlinkReply::Ack
    }
}

/// The outcome that an acknowledgement with error code `error` reports: success for 0,
/// otherwise the failure with the (positive) error number `-error`.
pub fn ack_result(error: i32) -> (res: Result<(), i32>)
    requires
        error != i32::MIN,
    ensures
        error == 0 ==> res == Ok::<(), i32>(()),
        error != 0 ==> res == Err::<(), i32>((-error) as i32),
{
    if error == 0 {
        Ok(())
    } else {
        Err(-error)
    }
}

} // verus!

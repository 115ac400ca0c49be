//! The socket-option side of kernel timestamping: which capabilities an
//! interface offers, and the option bits that enable them on a socket.
//!
//! The bit values are the Linux SO_TIMESTAMPING ABI and must match it
//! exactly for interoperability; the I/O that applies them (setsockopt, the
//! interface capability ioctl) stays outside the library, which only
//! computes the words those calls carry.

use vstd::prelude::*;

verus! {

/// Report software transmit timestamps.
pub const SOF_TIMESTAMPING_TX_SOFTWARE: u32 = 2;

/// Report software receive timestamps.
pub const SOF_TIMESTAMPING_RX_SOFTWARE: u32 = 8;

/// Report any software-generated timestamps at all.
pub const SOF_TIMESTAMPING_SOFTWARE: u32 = 16;

/// Tag each transmit timestamp with the send's identifier.
pub const SOF_TIMESTAMPING_OPT_ID: u32 = 128;

/// Deliver the transmit timestamp alone, without echoing the payload.
pub const SOF_TIMESTAMPING_OPT_TSONLY: u32 = 2048;

/// What timestamping the socket's interface supports, fixed at socket
/// setup. Software receive timestamping is generated by the kernel's
/// receive stack and is available on any modern kernel; a probe that cannot
/// identify the interface reports no capability at all rather than failing.
#[derive(Clone, Copy, PartialEq, Eq, Structural, Debug, Default)]
pub struct TimestampingConfig {
    pub rx_software: bool,
    pub tx_software: bool,
}

/// The option word that enables exactly the supported timestamping: the
/// software-reporting bit whenever either direction is wanted, the receive
/// bit for receive support, and for transmit support the transmit bit
/// together with timestamp-only delivery and send-identifier tagging.
pub open spec fn spec_timestamping_flags(c: TimestampingConfig) -> u32 {
    if c.rx_software && c.tx_software {
        2202
    } else if c.rx_software {
        24
    } else if c.tx_software {
        2194
    } else {
        0
    }
}

/// Compute the SO_TIMESTAMPING option word for a capability descriptor.
pub fn timestamping_flags(c: TimestampingConfig) -> (r: u32)
    ensures
        r == spec_timestamping_flags(c),
        c.rx_software <==> (r & SOF_TIMESTAMPING_RX_SOFTWARE != 0),
        c.tx_software <==> (r & SOF_TIMESTAMPING_TX_SOFTWARE != 0),
        (c.rx_software || c.tx_software) <==> (r & SOF_TIMESTAMPING_SOFTWARE != 0),
        c.tx_software <==> (r & SOF_TIMESTAMPING_OPT_TSONLY != 0),
        c.tx_software <==> (r & SOF_TIMESTAMPING_OPT_ID != 0),
{
    let mut options: u32 = 0;
    if c.rx_software || c.tx_software {
        options = options | SOF_TIMESTAMPING_SOFTWARE;
    }
    if c.rx_software {
        options = options | SOF_TIMESTAMPING_RX_SOFTWARE;
    }
    if c.tx_software {
        options = options | SOF_TIMESTAMPING_TX_SOFTWARE | SOF_TIMESTAMPING_OPT_TSONLY
            | SOF_TIMESTAMPING_OPT_ID;
    }
    proof {
        assert(0u32 | 16u32 == 16u32) by (bit_vector);
        assert(16u32 | 8u32 == 24u32) by (bit_vector);
        assert(16u32 | 2u32 | 2048u32 | 128u32 == 2194u32) by (bit_vector);
        assert(24u32 | 2u32 | 2048u32 | 128u32 == 2202u32) by (bit_vector);
        assert(2202u32 & 8u32 != 0 && 2202u32 & 2u32 != 0 && 2202u32 & 16u32 != 0 && 2202u32
            & 2048u32 != 0 && 2202u32 & 128u32 != 0) by (bit_vector);
        assert(24u32 & 8u32 != 0 && 24u32 & 2u32 == 0 && 24u32 & 16u32 != 0 && 24u32 & 2048u32 == 0
            && 24u32 & 128u32 == 0) by (bit_vector);
        assert(2194u32 & 8u32 == 0 && 2194u32 & 2u32 != 0 && 2194u32 & 16u32 != 0 && 2194u32
            & 2048u32 != 0 && 2194u32 & 128u32 != 0) by (bit_vector);
        assert(0u32 & 8u32 == 0 && 0u32 & 2u32 == 0 && 0u32 & 16u32 == 0 && 0u32 & 2048u32 == 0
            && 0u32 & 128u32 == 0) by (bit_vector);
    }
    options
}

/// Read a capability descriptor out of the timestamping bitmask that the
/// interface's hardware-information query reports.
pub fn config_from_capability_bits(so_timestamping: u32) -> (r: TimestampingConfig)
    ensures
        r.rx_software == (so_timestamping & SOF_TIMESTAMPING_RX_SOFTWARE != 0),
        r.tx_software == (so_timestamping & SOF_TIMESTAMPING_TX_SOFTWARE != 0),
{
    TimestampingConfig {
        rx_software: so_timestamping & SOF_TIMESTAMPING_RX_SOFTWARE != 0,
        tx_software: so_timestamping & SOF_TIMESTAMPING_TX_SOFTWARE != 0,
    }
}

} // verus!

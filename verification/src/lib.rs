//! Electrolux portable air-conditioner IR protocol: the OFF frame, its checksum,
//! the mark/space pulse encoding, and the decisions that drive an IR transmitter.

pub mod frame;
pub mod pulse;

pub use frame::{build_off_frame, reverse_bits, FRAME_LEN};
pub use pulse::{
    encode_frame, Pulse, BIT_MARK, CARRIER_HZ, FOOTER_GAP, FOOTER_MARK, HEADER_MARK, HEADER_SPACE,
    ONE_SPACE, PULSE_LEN, ZERO_SPACE,
};
pub mod rmt;
pub mod session;
pub mod remote;

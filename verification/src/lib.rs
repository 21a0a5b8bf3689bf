pub mod bloom;
pub mod bytes;
pub mod codec;
pub mod codec_link;
pub mod codec_packet;
pub mod constants;
pub mod link;
pub mod crypto;
pub mod data;
pub mod errors;
pub mod hbfi;
pub mod identity;
pub mod narrow_waist;
pub mod router;
pub mod rs_frame;
pub mod wire_ints;

//! HomeKit Accessory Protocol camera streaming: the TLV8 codec, the camera
//! stream-management protocol messages, the stream session state machine and the
//! bookkeeping of accessories and characteristics around them.

pub mod tlv;
pub mod text;
pub mod protocol;
pub mod manager;
pub mod media;
pub mod characteristic;
pub mod camera;
pub mod accessory_list;

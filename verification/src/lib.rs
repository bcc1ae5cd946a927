pub mod audio;
pub mod audiohub;
pub mod codec;
pub mod connection;
pub mod constants;
pub mod datachannel;
pub mod encryption;
pub mod json;
pub mod lidar;
pub mod message;
pub mod msgs;
pub mod multicast;
pub mod signaling;
pub mod strmap;
pub mod tables;
pub mod text;
pub mod time;
pub mod utils;
pub mod video;

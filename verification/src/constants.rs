//! Connection methods and named values shared across the protocol.
use vstd::prelude::*;

verus! {

/// How the client reaches the robot.
#[derive(Clone, Copy, Debug, PartialEq, Eq, Structural)]
pub enum WebRTCConnectionMethod {
    /// The robot's own access point (the robot is at 192.168.12.1).
    LocalAP,
    /// The robot and the client share a local network.
    LocalSTA,
    /// Through the vendor's relay, by serial number.
    Remote,
}

/// Names of the colours the robot's light accepts.
#[allow(non_camel_case_types)]
pub struct VUI_COLOR;

impl VUI_COLOR {
    pub const WHITE: &'static str = "white";
    pub const RED: &'static str = "red";
    pub const YELLOW: &'static str = "yellow";
    pub const BLUE: &'static str = "blue";
    pub const GREEN: &'static str = "green";
    pub const CYAN: &'static str = "cyan";
    pub const PURPLE: &'static str = "purple";
}

} // verus!

pub mod error_handler;
pub mod future_resolver;
pub mod heartbeat;
pub mod pubsub;
pub mod rtc_inner_req;
pub mod validation;

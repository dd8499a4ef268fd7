//! Signal calculation support: the decision logic of the indicator pipeline
//! and of the websocket relay that forwards its results, with its contracts.

pub mod indicator;
pub mod indicator_trait;
pub mod util;
pub mod websocket;

//! Detection of solid-color caption boxes in video frames, motion-based
//! border cropping, and construction of the edit plans and job control
//! that drive an external encoder.

pub mod geom;
pub mod frame;
pub mod vision;
pub mod boxes;
pub mod crop;
pub mod textutil;
pub mod request;
pub mod plan;
pub mod orch;
pub mod control;
pub mod session;

//! Automated replay recording for a third-person spectator game client.
//!
//! The library is the verified core of the recorder: pixel metrics over
//! captured frames, a fixed-alphabet glyph matcher, screen-state predicates,
//! side resolution, and the decision logic of the automation controller.
//! Everything that talks to the outside world (the capture service, the game
//! window, the filesystem) lives in the surrounding application; this crate
//! only computes.

pub mod layout;
pub mod frame;
pub mod metrics;
pub mod predicates;
pub mod score;
pub mod text;
pub mod ocr;
pub mod range;
pub mod input;
pub mod side;
pub mod controller;
pub mod decode;

//! Orientation sampling for an inertial measurement unit with an onboard
//! motion processor.
//!
//! The motion processor queues fixed-size packets. Each packet starts with a
//! quaternion in fixed-point form. This crate holds the rules of the sampling
//! loop around it: when a packet may be read, how its quaternion is decoded
//! into yaw, pitch and roll, and how the loop recovers when the bus fails.
//! Nothing here touches the bus: a driver performs each [`acquisition::Command`]
//! and hands back what the device answered as an [`acquisition::Event`].

pub mod acquisition;
pub mod frame;
pub mod orientation;
pub mod quaternion;
pub mod telemetry;

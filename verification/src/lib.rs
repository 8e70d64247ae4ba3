//! Control logic of a split-flap display built from 28BYJ-48 stepper motors.
//!
//! Each display module carries a drum with 37 flaps (blank, the latin letters and the
//! digits). Showing a character means turning the drum forward until the flap that
//! carries it is at the front; a Hall-effect sensor marks the home position of the drum.
//!
//! This crate holds the decisions: which flap shows a character, how many steps the motor
//! has to make, where the drum stands afterwards, how the homing sequence proceeds, and
//! how the Wi-Fi link task reacts to what the radio reports. Driving the coils, reading
//! the sensor and talking to the network is left to the firmware around it.
pub mod drum;
pub mod character;
pub mod display;
pub mod module;
pub mod net;

//! Face-recognition access control: feature comparison, first-match
//! recognition, the authorized-face registry, the photo-directory monitor and
//! the capture-loop decisions, each with its contract.

pub mod cli;
pub mod features;
pub mod helpers;
pub mod monitor;
pub mod photo;
pub mod processors;
pub mod recognition;
pub mod registry;
pub mod session;
pub mod similarity;

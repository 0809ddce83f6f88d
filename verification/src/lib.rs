//! Restoring a saved tiling layout: the saved tree is replayed as a tree of
//! placeholder windows, and each placeholder is then swapped for the window
//! it stands for.

pub mod capture;
pub mod command;
pub mod error;
pub mod event;
pub mod matcher;
pub mod node;
pub mod orchestrate;
pub mod placeholder;
pub mod position;
pub mod reconcile;
pub mod replay;
pub mod share;
pub mod swap;
pub mod visit;

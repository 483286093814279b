//! Inspection of widget trees and the small pieces of rendering logic that
//! surround it: recording the inspectable widgets of a tree into a map keyed
//! by widget id, editing the properties of one widget, describing buttons,
//! and the integer bookkeeping of the quad and offscreen pipelines.
pub mod action;
pub mod backend;
pub mod button;
pub mod geometry;
pub mod inspectable;
pub mod inspector;
pub mod location;
pub mod offscreen;
pub mod quad;
pub mod specific;
pub mod widget_id;

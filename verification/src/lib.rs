//! Verified core of an Alight Motion (`.amproj`) batch tool: project
//! analysis, splitting, grouping, resource fixing, UI-dump parsing and the
//! decision logic that drives the device.

pub mod adb;
pub mod amproj;
pub mod config;
pub mod ffi;
pub mod text;
pub mod xml;
pub mod split;
pub mod ui_parser;
pub mod group_split;
pub mod fix;
pub mod paths;
pub mod ui;
pub mod render_monitor;
pub mod workflow;
pub mod batch;

//! Window arrangement logic: directional navigation, screen placement,
//! the leader-key state machine and the window picker.

pub mod error;
pub mod text;
pub mod geometry;
pub mod navigation;
pub mod screens;
pub mod config;
pub mod placement;
pub mod keymap;
pub mod leader_mode;
pub mod event_tap;
pub mod picker;
pub mod window;
pub mod window_service;
pub mod notification;
pub mod commands;

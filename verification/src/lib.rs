//! Verified core of OpenLogi.

use vstd::prelude::*;

pub mod action;
pub mod app_icon;
pub mod bindings;
pub mod camera;
pub mod capture;
pub mod carousel;
pub mod catalog;
pub mod components;
pub mod config;
pub mod controls;
pub mod data;
pub mod device;
pub mod diagnostics;
pub mod foreground;
pub mod glow;
pub mod haptic;
pub mod holes;
pub mod home;
pub mod inventory;
pub mod ipc;
pub mod keyboard;
pub mod keyed;
pub mod light_visual;
pub mod load;
pub mod menu;
pub mod mouse_view;
pub mod picker;
pub mod probe;
pub mod profile_scope;
pub mod ring;
pub mod ring_commands;
pub mod runtime;
pub mod session;
pub mod settings;
pub mod smartshift;
pub mod stacking;
pub mod state;
pub mod subscriptions;
pub mod text;
pub mod updater;

verus! {

} // verus!

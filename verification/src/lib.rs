//! A home-automation hub: devices, groups, scenes, routines and the
//! event-driven engine that keeps them consistent.
//!
//! The hub owns one state. Events change it, one at a time, and each leaves
//! effects for the program around the hub to carry out: events to put on
//! the bus, writes to the store, devices to hand to integrations, and the
//! timer of the debounced broadcast to the clients.

pub mod broadcast;
pub mod color;
pub mod db;
pub mod device;
pub mod device_table;
pub mod devices;
pub mod error;
pub mod event;
pub mod expr;
pub mod groups;
pub mod handle;
pub mod health;
pub mod ids;
pub mod integrations;
pub mod integrations_manager;
pub mod json;
pub mod routines;
pub mod scene;
pub mod scenes;
pub mod state;
pub mod table;
pub mod ui;
pub mod visit;
pub mod websockets;

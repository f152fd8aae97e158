use vstd::prelude::*;

pub mod access;
pub mod bindings;
pub mod bootstrap;
pub mod control;
pub mod conversation;
pub mod dto;
pub mod enqueue;
pub mod errors;
pub mod events;
pub mod files;
pub mod ingress;
pub mod json;
pub mod jobs;
pub mod numfmt;
pub mod observer_sync;
pub mod origins;
pub mod projection_gate;
pub mod state;
pub mod tasks;
pub mod text;
pub mod types;
pub mod validation;
pub mod web;
pub mod work_item_order;
pub mod workspace_listing;

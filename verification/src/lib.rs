//! Shell core of a Wayland compositor: surfaces, workspaces, outputs, per-seat focus
//! and the queue of requests handed to the policy engine.

pub mod focus;
pub mod input;
pub mod layer;
pub mod messages;
pub mod name_map;
pub mod output;
pub mod render;
pub mod seq_facts;
pub mod shell;
pub mod space;
pub mod state;
pub mod surface;
pub mod theorems;
pub mod workspace;

//! Tideline: the plugin SDK's wire logic and the decision logic of the
//! push-to-talk, tones, notifications and effects plugins.

pub mod audition;
pub mod audition_player;
pub mod binding;
pub mod capability;
pub mod catalog;
pub mod chains;
pub mod framing;
pub mod ids;
pub mod idmap;
pub mod install;
pub mod keys;
pub mod manifest;
pub mod notifications;
pub mod persist;
pub mod pipewire;
pub mod plugin_host;
pub mod plugin_paths;
pub mod ptt_config;
pub mod ptt_events;
pub mod ptt_state;
pub mod ptt_ui;
pub mod rack_event;
pub mod rack_model;
pub mod rpc;
pub mod slot_order;
pub mod strmap;
pub mod text;
pub mod tones;

//! Verified core of a small terminal dashboard for a Raspberry Pi: the
//! walking mascot's sprites and scene state, the stats panel's texts, the
//! health rules, and the local control API's request handling.

pub mod clawd;
pub mod text;
pub mod metrics;
pub mod scene;
pub mod control;
pub mod stats_panel;
pub mod sprite_preview;

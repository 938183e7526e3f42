//! Model-agnostic humanoid rig mapping and the integer side of webcam face
//! tracking for a VTuber-style avatar driver.
//!
//! - [`HumanoidBone`]: a canonical vocabulary of bone slots, modeled after
//!   the VRM/Unity Humanoid bone set.
//! - [`auto_map_bones`]: a heuristic that guesses a [`BoneMap`] from the raw
//!   joint names of an arbitrary loaded rig (Mixamo, VRM/Unity Humanoid, and
//!   similar conventions).
//! - [`BoneMap`] / [`ModelRigConfig`]: the resolved mapping, and the sidecar
//!   path convention for saving a hand-corrected copy of it.
//! - [`FaceLandmarkTopology`], [`infer_layout`], [`input_index`],
//!   [`TrackerState`]: the landmark indices, model-input layout and
//!   capture-loop decisions of the webcam face tracker.
pub mod automap;
pub mod bone;
pub mod cli;
pub mod config;
pub mod landmarks;
pub mod reorder;
pub mod scoring;
pub mod text;
pub mod tokenize;
pub mod topology;
pub mod tracker;

pub use automap::auto_map_bones;
pub use bone::HumanoidBone;
pub use cli::Args;
pub use config::{locate_bones, resolve_bone_map, BoneMap, ModelRigConfig};
pub use landmarks::{infer_layout, input_index, input_shape, values_per_point, Layout};
pub use topology::FaceLandmarkTopology;
pub use tracker::{center_square, TrackerAction, TrackerConfig, TrackerEvent, TrackerState};

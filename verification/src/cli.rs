//! The program's command-line settings.
use std::path::PathBuf;
use vstd::prelude::*;

verus! {

/// Drive a rigged 3D model's bones from webcam face tracking.
pub struct Args {
    /// Path to the rigged model to load (.glb or .gltf).
    pub model: PathBuf,
    /// Path to an ONNX face-landmark model (e.g. a MediaPipe Face Mesh export).
    pub face_model: PathBuf,
    /// Path to the ONNX Runtime shared library.
    pub onnxruntime_dylib: PathBuf,
    /// Webcam device index.
    pub camera_index: u32,
    /// Path to a hand-edited bone-map override (RON). Defaults to a
    /// `<model>.rig.ron` sidecar file next to the model.
    pub rig_config: Option<PathBuf>,
}

} // verus!

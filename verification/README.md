# ezvtb

A VTuber-style face tracker that drives a rigged 3D model's bones. The
library (`src/`) holds the parts of the program that decide things, each with
a contract proved by Verus:

- `bone`, `config`: the humanoid bone vocabulary, the bone map (slot -> bone
  name) with its merge of hand edits, and the `.rig.ron` sidecar path rule.
- `text`, `tokenize`, `scoring`, `automap`: splitting raw joint names into
  tokens, scoring them against slots, and the greedy assignment of bones to
  slots; `reorder` proves that the assignment does not depend on the order
  the joints are listed in.
- `topology`, `landmarks`, `tracker`: landmark indices, the landmark model's
  input layout and tensor indexing, the centered face crop, and the
  calibration / frame-numbering decisions of the capture loop.

`app/` is the desktop program around it: command line, Bevy scene and
animation, webcam capture (nokhwa), ONNX inference (ort), RON config files
(serde/ron), and the floating-point pose and blend estimates.

//! Which landmark indices the pose and blend estimates read.
use vstd::prelude::*;

verus! {

/// Indices into a model's landmark output that are needed to compute head
/// pose and simple facial blend values. The defaults
/// ([`FaceLandmarkTopology::mediapipe_face_mesh_468`]) match the canonical
/// 468-point MediaPipe Face Mesh topology. If a model uses a different point
/// set, build a custom `FaceLandmarkTopology` with the matching indices.
#[derive(Debug, Clone, Copy)]
pub struct FaceLandmarkTopology {
    pub left_eye_outer: usize,
    pub left_eye_inner: usize,
    pub left_eye_top: usize,
    pub left_eye_bottom: usize,
    pub right_eye_outer: usize,
    pub right_eye_inner: usize,
    pub right_eye_top: usize,
    pub right_eye_bottom: usize,
    pub nose_tip: usize,
    pub chin: usize,
    pub mouth_left: usize,
    pub mouth_right: usize,
    pub mouth_top: usize,
    pub mouth_bottom: usize,
}

impl FaceLandmarkTopology {
    /// Every index the topology names, in field order.
    pub open spec fn indices(self) -> Seq<usize> {
        seq![
            self.left_eye_outer,
            self.left_eye_inner,
            self.left_eye_top,
            self.left_eye_bottom,
            self.right_eye_outer,
            self.right_eye_inner,
            self.right_eye_top,
            self.right_eye_bottom,
            self.nose_tip,
            self.chin,
            self.mouth_left,
            self.mouth_right,
            self.mouth_top,
            self.mouth_bottom,
        ]
    }

    /// The indices of the standard 468-point MediaPipe Face Mesh topology.
    pub open spec fn mediapipe_indices() -> Seq<usize> {
        seq![33, 133, 159, 145, 263, 362, 386, 374, 1, 152, 61, 291, 13, 14]
    }

    /// Indices for the standard 468-point MediaPipe Face Mesh topology.
    /// "Left"/"right" follow MediaPipe's convention, which is the subject's
    /// own left/right (mirrored relative to a selfie-view image).
    pub fn mediapipe_face_mesh_468() -> (t: Self)
        ensures
            t.indices() == Self::mediapipe_indices(),
            t.left_eye_outer == 33,
            t.left_eye_inner == 133,
            t.left_eye_top == 159,
            t.left_eye_bottom == 145,
            t.right_eye_outer == 263,
            t.right_eye_inner == 362,
            t.right_eye_top == 386,
            t.right_eye_bottom == 374,
            t.nose_tip == 1,
            t.chin == 152,
            t.mouth_left == 61,
            t.mouth_right == 291,
            t.mouth_top == 13,
            t.mouth_bottom == 14,
    {
        let t = Self {
            left_eye_outer: 33,
            left_eye_inner: 133,
            left_eye_top: 159,
            left_eye_bottom: 145,
            right_eye_outer: 263,
            right_eye_inner: 362,
            right_eye_top: 386,
            right_eye_bottom: 374,
            nose_tip: 1,
            chin: 152,
            mouth_left: 61,
            mouth_right: 291,
            mouth_top: 13,
            mouth_bottom: 14,
        };
        assert(t.indices() =~= Self::mediapipe_indices());
        t
    }

    /// The largest index the topology names.
    pub fn max_index(&self) -> (m: usize)
        ensures
            self.indices().contains(m),
            forall|i: int| 0 <= i < self.indices().len() ==> self.indices()[i] <= m,
    {
        let all: [usize; 14] = [
            self.left_eye_outer,
            self.left_eye_inner,
            self.left_eye_top,
            self.left_eye_bottom,
            self.right_eye_outer,
            self.right_eye_inner,
            self.right_eye_top,
            self.right_eye_bottom,
            self.nose_tip,
            self.chin,
            self.mouth_left,
            self.mouth_right,
            self.mouth_top,
            self.mouth_bottom,
        ];
        assert(all@ =~= self.indices());
        let mut m = all[0];
        assert(all@.take(1)[0] == m);
        let mut i: usize = 1;
        while i < 14
            invariant
                all@ == self.indices(),
                1 <= i <= 14,
                all@.take(i as int).contains(m),
                forall|j: int| 0 <= j < i ==> all@[j] <= m,
            decreases 14 - i,
        {
            if all[i] > m {
                m = all[i];
                assert(all@.take(i + 1)[i as int] == m);
            } else {
                proof {
                    let k = choose|k: int| 0 <= k < i && all@.take(i as int)[k] == m;
                    assert(all@.take(i + 1)[k] == m);
                }
            }
            i = i + 1;
        }
        assert(all@.take(14) =~= all@);
        m
    }

    /// Whether a model output with `landmark_count` points holds every point
    /// this topology reads, i.e. all its indices are in range.
    pub fn fits(&self, landmark_count: usize) -> (r: bool)
        ensures
            r <==> forall|i: int| 0 <= i < self.indices().len() ==> self.indices()[i] < landmark_count,
    {
        let m = self.max_index();
        landmark_count > m
    }
}

impl Default for FaceLandmarkTopology {
    fn default() -> (t: Self)
        ensures
            t.indices() == Self::mediapipe_indices(),
            t.left_eye_outer == 33,
            t.left_eye_inner == 133,
            t.left_eye_top == 159,
            t.left_eye_bottom == 145,
            t.right_eye_outer == 263,
            t.right_eye_inner == 362,
            t.right_eye_top == 386,
            t.right_eye_bottom == 374,
            t.nose_tip == 1,
            t.chin == 152,
            t.mouth_left == 61,
            t.mouth_right == 291,
            t.mouth_top == 13,
            t.mouth_bottom == 14,
    {
        Self::mediapipe_face_mesh_468()
    }
}

} // verus!

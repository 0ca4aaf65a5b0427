use vstd::prelude::*;

verus! {

/// A rest-pose position: the three 32-bit words exactly as stored in the
/// file (IEEE 754 bit patterns). The decoder keeps them opaque; callers
/// that want floating-point values reinterpret the bits themselves.
#[derive(Debug, Clone, Copy, PartialEq, Eq, Structural)]
pub struct Vec3 {
    pub x: u32,
    pub y: u32,
    pub z: u32,
}

impl DeepView for Vec3 {
    type V = Vec3;

    open spec fn deep_view(&self) -> Vec3 {
        *self
    }
}

/// One skeletal joint. All references to other bones are indices into the
/// owning skeleton's bone list; `None` means the file held the reserved
/// sentinel byte (255) for that field.
#[derive(Debug, Clone, PartialEq, Eq)]
pub struct Bone {
    /// Behaviour class of the bone; opaque to the decoder.
    pub mode: u8,
    /// Index of the parent bone, absent for root bones.
    pub parent: Option<u8>,
    /// Auxiliary reference used by inverse-kinematics bones; parsed for
    /// every bone (the record layout is fixed) but meaningful only for
    /// the IK mode.
    pub pole_target: Option<u8>,
    /// Index of this bone's mirrored counterpart, absent if unmirrored.
    pub mirror: Option<u8>,
    /// Auxiliary byte of unknown meaning, preserved opaquely.
    pub unk2: u8,
    /// Name bytes as stored in the file (without the terminator).
    pub name: Vec<u8>,
}

/// Mathematical image of a `Bone`.
#[verifier::ext_equal]
pub struct BoneView {
    pub mode: u8,
    pub parent: Option<u8>,
    pub pole_target: Option<u8>,
    pub mirror: Option<u8>,
    pub unk2: u8,
    pub name: Seq<u8>,
}

impl DeepView for Bone {
    type V = BoneView;

    open spec fn deep_view(&self) -> BoneView {
        BoneView {
            mode: self.mode,
            parent: self.parent,
            pole_target: self.pole_target,
            mirror: self.mirror,
            unk2: self.unk2,
            name: self.name.deep_view(),
        }
    }
}

/// One rig: an ordered list of bones plus parallel per-bone tables and two
/// auxiliary name tables. A bone's position in `bones` is its identity for
/// every intra-skeleton reference.
#[derive(Debug, Clone, PartialEq, Eq)]
pub struct Skeleton {
    /// Name bytes as stored in the file (without the terminator).
    pub name: Vec<u8>,
    pub bones: Vec<Bone>,
    /// Rest-pose positions, index-aligned with `bones`.
    pub pos: Vec<Vec3>,
    /// Alternate parent-linkage table, index-aligned with `bones`; kept
    /// distinct from `Bone::parent`, which it is not guaranteed to match.
    pub parent_ids: Vec<i16>,
    /// Names mapping bones onto an external object-bone naming domain.
    pub object_bone_names: Vec<Vec<u8>>,
    /// Names mapping bones onto an external motion-bone naming domain.
    pub motion_bone_names: Vec<Vec<u8>>,
}

/// Mathematical image of a `Skeleton`.
#[verifier::ext_equal]
pub struct SkeletonView {
    pub name: Seq<u8>,
    pub bones: Seq<BoneView>,
    pub pos: Seq<Vec3>,
    pub parent_ids: Seq<i16>,
    pub object_bone_names: Seq<Seq<u8>>,
    pub motion_bone_names: Seq<Seq<u8>>,
}

impl DeepView for Skeleton {
    type V = SkeletonView;

    open spec fn deep_view(&self) -> SkeletonView {
        SkeletonView {
            name: self.name.deep_view(),
            bones: self.bones.deep_view(),
            pos: self.pos.deep_view(),
            parent_ids: self.parent_ids.deep_view(),
            object_bone_names: self.object_bone_names.deep_view(),
            motion_bone_names: self.motion_bone_names.deep_view(),
        }
    }
}

/// The root entity of one decoded file.
#[derive(Debug, Clone, PartialEq, Eq)]
pub struct BoneDatabase {
    /// 32-bit value identifying the file format/version; the decoder
    /// reports it and leaves any version gating to the caller.
    pub signature: u32,
    /// Skeletons in file order.
    pub skeletons: Vec<Skeleton>,
}

/// Mathematical image of a `BoneDatabase`.
#[verifier::ext_equal]
pub struct DatabaseView {
    pub signature: u32,
    pub skeletons: Seq<SkeletonView>,
}

impl DeepView for BoneDatabase {
    type V = DatabaseView;

    open spec fn deep_view(&self) -> DatabaseView {
        DatabaseView {
            signature: self.signature,
            skeletons: self.skeletons.deep_view(),
        }
    }
}

/// An optional bone reference is either absent or an index below the
/// owning skeleton's bone count `n`.
pub open spec fn ref_ok(r: Option<u8>, n: int) -> bool {
    match r {
        Some(i) => (i as int) < n,
        None => true,
    }
}

/// Every reference of the bone is absent or a valid index below `n`.
pub open spec fn bone_wf(b: BoneView, n: int) -> bool {
    ref_ok(b.parent, n) && ref_ok(b.pole_target, n) && ref_ok(b.mirror, n)
}

/// The parallel tables are index-aligned with the bone list and every
/// bone reference stays inside the skeleton.
pub open spec fn skeleton_wf(s: SkeletonView) -> bool {
    &&& s.pos.len() == s.bones.len()
    &&& s.parent_ids.len() == s.bones.len()
    &&& forall|i: int|
        0 <= i < s.bones.len() ==> bone_wf(#[trigger] s.bones[i], s.bones.len() as int)
}

/// Every skeleton of the database is well formed.
pub open spec fn database_wf(d: DatabaseView) -> bool {
    forall|i: int| 0 <= i < d.skeletons.len() ==> skeleton_wf(#[trigger] d.skeletons[i])
}

impl Skeleton {
    /// Bounds-checked access to the bone list: the bone whose identity is
    /// `idx`, or `None` when `idx` is out of range.
    pub fn get_bone(&self, idx: usize) -> (r: Option<&Bone>)
        ensures
            match r {
                Some(b) => idx < self.bones@.len() && b.deep_view() == self.deep_view().bones[idx as int],
                None => idx >= self.bones@.len(),
            },
    {
        if idx < self.bones.len() {
            Some(&self.bones[idx])
        } else {
            None
        }
    }
}

} // verus!

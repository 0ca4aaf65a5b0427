use vstd::prelude::*;

use crate::error::{DecodeError, RefField};
use crate::model::{
    bone_wf, database_wf, ref_ok, skeleton_wf, BoneView, DatabaseView, SkeletonView, Vec3,
};

verus! {

/// The reserved byte that encodes "no reference" in the parent,
/// pole-target and mirror fields of a bone record.
pub const ABSENT_REF: u8 = 255;

/// The truncated-input error for a read of `need` bytes at `pos` into `b`,
/// carrying the read's offset and the number of bytes short.
pub open spec fn truncated(b: Seq<u8>, pos: int, need: int) -> DecodeError {
    DecodeError::Truncated { offset: pos as usize, short: (need - (b.len() - pos)) as usize }
}

/// One byte.
pub open spec fn spec_read_u8(b: Seq<u8>, pos: int) -> Result<(u8, int), DecodeError> {
    if pos + 1 <= b.len() {
        Ok((b[pos], pos + 1))
    } else {
        Err(truncated(b, pos, 1))
    }
}

/// A little-endian unsigned 16-bit integer.
pub open spec fn spec_read_u16(b: Seq<u8>, pos: int) -> Result<(u16, int), DecodeError> {
    if pos + 2 <= b.len() {
        Ok(((b[pos] + b[pos + 1] * 0x100) as u16, pos + 2))
    } else {
        Err(truncated(b, pos, 2))
    }
}

/// A little-endian unsigned 32-bit integer.
pub open spec fn spec_read_u32(b: Seq<u8>, pos: int) -> Result<(u32, int), DecodeError> {
    if pos + 4 <= b.len() {
        Ok(
            (
                (b[pos] + b[pos + 1] * 0x100 + b[pos + 2] * 0x1_0000 + b[pos + 3]
                    * 0x100_0000) as u32,
                pos + 4,
            ),
        )
    } else {
        Err(truncated(b, pos, 4))
    }
}

/// A little-endian signed 16-bit integer (two's complement).
pub open spec fn spec_read_i16(b: Seq<u8>, pos: int) -> Result<(i16, int), DecodeError> {
    match spec_read_u16(b, pos) {
        Ok((v, p)) => Ok(
            (
                if v < 0x8000 {
                    v as i16
                } else {
                    (v - 0x1_0000) as i16
                },
                p,
            ),
        ),
        Err(e) => Err(e),
    }
}

/// Three consecutive little-endian 32-bit words: one rest-pose position.
pub open spec fn spec_read_vec3(b: Seq<u8>, pos: int) -> Result<(Vec3, int), DecodeError> {
    match spec_read_u32(b, pos) {
        Err(e) => Err(e),
        Ok((x, p1)) => match spec_read_u32(b, p1) {
            Err(e) => Err(e),
            Ok((y, p2)) => match spec_read_u32(b, p2) {
                Err(e) => Err(e),
                Ok((z, p3)) => Ok((Vec3 { x, y, z }, p3)),
            },
        },
    }
}

/// Position of the first zero byte at or after `pos`, if any.
pub open spec fn find_nul(b: Seq<u8>, pos: int) -> Option<int>
    decreases b.len() - pos,
{
    if pos >= b.len() {
        None
    } else if b[pos] == 0 {
        Some(pos)
    } else {
        find_nul(b, pos + 1)
    }
}

/// A name: the bytes up to the first zero byte, with the terminator
/// consumed but not kept. A buffer that ends before a terminator is
/// truncated input: at least one more byte would be needed.
pub open spec fn spec_read_name(b: Seq<u8>, pos: int) -> Result<(Seq<u8>, int), DecodeError> {
    match find_nul(b, pos) {
        Some(i) => Ok((b.subrange(pos, i), i + 1)),
        None => Err(DecodeError::Truncated { offset: pos as usize, short: 1 }),
    }
}

/// The optional index a raw reference byte encodes: the reserved sentinel
/// means "absent", every other value is the index itself.
pub open spec fn spec_ref(raw: u8) -> Option<u8> {
    if raw == ABSENT_REF {
        None
    } else {
        Some(raw)
    }
}

/// One bone record: mode, the three raw reference bytes (parent, pole
/// target, mirror), the auxiliary byte, then the name.
pub open spec fn spec_read_bone(b: Seq<u8>, pos: int) -> Result<(BoneView, int), DecodeError> {
    match spec_read_u8(b, pos) {
        Err(e) => Err(e),
        Ok((mode, p1)) => match spec_read_u8(b, p1) {
            Err(e) => Err(e),
            Ok((parent, p2)) => match spec_read_u8(b, p2) {
                Err(e) => Err(e),
                Ok((pole, p3)) => match spec_read_u8(b, p3) {
                    Err(e) => Err(e),
                    Ok((mirror, p4)) => match spec_read_u8(b, p4) {
                        Err(e) => Err(e),
                        Ok((unk2, p5)) => match spec_read_name(b, p5) {
                            Err(e) => Err(e),
                            Ok((name, p6)) => Ok(
                                (
                                    BoneView {
                                        mode,
                                        parent: spec_ref(parent),
                                        pole_target: spec_ref(pole),
                                        mirror: spec_ref(mirror),
                                        unk2,
                                        name,
                                    },
                                    p6,
                                ),
                            ),
                        },
                    },
                },
            },
        },
    }
}

/// `count` bone records in sequence.
pub open spec fn spec_read_bones(b: Seq<u8>, pos: int, count: nat) -> Result<
    (Seq<BoneView>, int),
    DecodeError,
>
    decreases count,
{
    if count == 0 {
        Ok((Seq::empty(), pos))
    } else {
        match spec_read_bone(b, pos) {
            Err(e) => Err(e),
            Ok((bone, p1)) => match spec_read_bones(b, p1, (count - 1) as nat) {
                Err(e) => Err(e),
                Ok((rest, p2)) => Ok((seq![bone] + rest, p2)),
            },
        }
    }
}

/// The first out-of-range reference at or after bone `i` of skeleton
/// `skel_idx`, checked in record order (parent, pole target, mirror);
/// `None` when every bone from `i` on is well formed.
pub open spec fn spec_check_refs(bones: Seq<BoneView>, skel_idx: int, i: int) -> Option<
    DecodeError,
>
    decreases bones.len() - i,
{
    if i >= bones.len() {
        None
    } else if !ref_ok(bones[i].parent, bones.len() as int) {
        Some(
            DecodeError::InvalidReference {
                skeleton: skel_idx as usize,
                bone: i as usize,
                field: RefField::Parent,
            },
        )
    } else if !ref_ok(bones[i].pole_target, bones.len() as int) {
        Some(
            DecodeError::InvalidReference {
                skeleton: skel_idx as usize,
                bone: i as usize,
                field: RefField::PoleTarget,
            },
        )
    } else if !ref_ok(bones[i].mirror, bones.len() as int) {
        Some(
            DecodeError::InvalidReference {
                skeleton: skel_idx as usize,
                bone: i as usize,
                field: RefField::Mirror,
            },
        )
    } else {
        spec_check_refs(bones, skel_idx, i + 1)
    }
}

/// `count` rest-pose positions in sequence.
pub open spec fn spec_read_vec3s(b: Seq<u8>, pos: int, count: nat) -> Result<
    (Seq<Vec3>, int),
    DecodeError,
>
    decreases count,
{
    if count == 0 {
        Ok((Seq::empty(), pos))
    } else {
        match spec_read_vec3(b, pos) {
            Err(e) => Err(e),
            Ok((v, p1)) => match spec_read_vec3s(b, p1, (count - 1) as nat) {
                Err(e) => Err(e),
                Ok((rest, p2)) => Ok((seq![v] + rest, p2)),
            },
        }
    }
}

/// `count` signed 16-bit parent ids in sequence.
pub open spec fn spec_read_i16s(b: Seq<u8>, pos: int, count: nat) -> Result<
    (Seq<i16>, int),
    DecodeError,
>
    decreases count,
{
    if count == 0 {
        Ok((Seq::empty(), pos))
    } else {
        match spec_read_i16(b, pos) {
            Err(e) => Err(e),
            Ok((v, p1)) => match spec_read_i16s(b, p1, (count - 1) as nat) {
                Err(e) => Err(e),
                Ok((rest, p2)) => Ok((seq![v] + rest, p2)),
            },
        }
    }
}

/// `count` names in sequence.
pub open spec fn spec_read_names(b: Seq<u8>, pos: int, count: nat) -> Result<
    (Seq<Seq<u8>>, int),
    DecodeError,
>
    decreases count,
{
    if count == 0 {
        Ok((Seq::empty(), pos))
    } else {
        match spec_read_name(b, pos) {
            Err(e) => Err(e),
            Ok((v, p1)) => match spec_read_names(b, p1, (count - 1) as nat) {
                Err(e) => Err(e),
                Ok((rest, p2)) => Ok((seq![v] + rest, p2)),
            },
        }
    }
}

/// A name table: a 32-bit count, then that many names.
pub open spec fn spec_read_name_table(b: Seq<u8>, pos: int) -> Result<
    (Seq<Seq<u8>>, int),
    DecodeError,
> {
    match spec_read_u32(b, pos) {
        Err(e) => Err(e),
        Ok((c, p1)) => spec_read_names(b, p1, c as nat),
    }
}

/// One skeleton, the `skel_idx`-th of its database: name, bone count `n`,
/// the `n` bone records — whose references are then checked against `n` —
/// the `n` positions, the `n` parent ids, and the two name tables.
pub open spec fn spec_read_skeleton(b: Seq<u8>, pos: int, skel_idx: int) -> Result<
    (SkeletonView, int),
    DecodeError,
> {
    match spec_read_name(b, pos) {
        Err(e) => Err(e),
        Ok((name, p1)) => match spec_read_u32(b, p1) {
            Err(e) => Err(e),
            Ok((n, p2)) => match spec_read_bones(b, p2, n as nat) {
                Err(e) => Err(e),
                Ok((bones, p3)) => match spec_check_refs(bones, skel_idx, 0) {
                    Some(e) => Err(e),
                    None => match spec_read_vec3s(b, p3, n as nat) {
                        Err(e) => Err(e),
                        Ok((positions, p4)) => match spec_read_i16s(b, p4, n as nat) {
                            Err(e) => Err(e),
                            Ok((parent_ids, p5)) => match spec_read_name_table(b, p5) {
                                Err(e) => Err(e),
                                Ok((object_names, p6)) => match spec_read_name_table(b, p6) {
                                    Err(e) => Err(e),
                                    Ok((motion_names, p7)) => Ok(
                                        (
                                            SkeletonView {
                                                name,
                                                bones,
                                                pos: positions,
                                                parent_ids,
                                                object_bone_names: object_names,
                                                motion_bone_names: motion_names,
                                            },
                                            p7,
                                        ),
                                    ),
                                },
                            },
                        },
                    },
                },
            },
        },
    }
}

/// `count` skeletons in sequence, the first being the `first_idx`-th of
/// its database.
pub open spec fn spec_read_skeletons(b: Seq<u8>, pos: int, first_idx: int, count: nat) -> Result<
    (Seq<SkeletonView>, int),
    DecodeError,
>
    decreases count,
{
    if count == 0 {
        Ok((Seq::empty(), pos))
    } else {
        match spec_read_skeleton(b, pos, first_idx) {
            Err(e) => Err(e),
            Ok((s, p1)) => match spec_read_skeletons(b, p1, first_idx + 1, (count - 1) as nat) {
                Err(e) => Err(e),
                Ok((rest, p2)) => Ok((seq![s] + rest, p2)),
            },
        }
    }
}

/// The whole database: signature, skeleton count, then the skeletons.
/// The returned position is where decoding stopped; any bytes after it
/// are leftover and deliberately ignored, since the format may sit inside
/// a larger container.
pub open spec fn spec_read_database(b: Seq<u8>, pos: int) -> Result<
    (DatabaseView, int),
    DecodeError,
> {
    match spec_read_u32(b, pos) {
        Err(e) => Err(e),
        Ok((signature, p1)) => match spec_read_u32(b, p1) {
            Err(e) => Err(e),
            Ok((k, p2)) => match spec_read_skeletons(b, p2, 0, k as nat) {
                Err(e) => Err(e),
                Ok((skeletons, p3)) => Ok((DatabaseView { signature, skeletons }, p3)),
            },
        },
    }
}

/// What decoding `b` yields: the database alone, with the leftover
/// position dropped.
pub open spec fn spec_decode(b: Seq<u8>) -> Result<DatabaseView, DecodeError> {
    match spec_read_database(b, 0) {
        Ok((d, _)) => Ok(d),
        Err(e) => Err(e),
    }
}

/// How many leading bytes a successful decode of `b` consumes.
pub open spec fn spec_consumed(b: Seq<u8>) -> int {
    match spec_read_database(b, 0) {
        Ok((_, p)) => p,
        Err(_) => 0,
    }
}

/// Decoding is deterministic: it is a pure function of the input bytes,
/// so any two successful decodes of the same buffer yield structurally
/// equal databases. Together with `decode`'s contract — its result always
/// equals `spec_decode` of the input — this makes every run of `decode`
/// on equal buffers agree.
pub proof fn lemma_decode_deterministic(b: Seq<u8>, d1: DatabaseView, d2: DatabaseView)
    requires
        spec_decode(b) == Ok::<DatabaseView, DecodeError>(d1),
        spec_decode(b) == Ok::<DatabaseView, DecodeError>(d2),
    ensures
        d1 == d2,
{
}

/// Every database that decoding yields is well formed: in each skeleton
/// the bone, position and parent-id tables have equal lengths, and every
/// present parent, mirror or pole-target index lies below the skeleton's
/// bone count.
pub proof fn lemma_decode_wf(b: Seq<u8>)
    ensures
        spec_decode(b) matches Ok(d) ==> database_wf(d),
{
    lemma_read_database_wf(b, 0);
}

/// A clean reference check means every bone from `i` on keeps its
/// references inside the bone list.
pub proof fn lemma_check_refs_ok(bones: Seq<BoneView>, skel_idx: int, i: int)
    requires
        0 <= i,
        spec_check_refs(bones, skel_idx, i) is None,
    ensures
        forall|j: int| i <= j < bones.len() ==> bone_wf(#[trigger] bones[j], bones.len() as int),
    decreases bones.len() - i,
{
    if i < bones.len() {
        lemma_check_refs_ok(bones, skel_idx, i + 1);
    }
}

/// A successful bone-list parse yields exactly `count` bones.
pub proof fn lemma_read_bones_len(b: Seq<u8>, pos: int, count: nat)
    ensures
        spec_read_bones(b, pos, count) matches Ok((s, _)) ==> s.len() == count,
    decreases count,
{
    if count > 0 {
        match spec_read_bone(b, pos) {
            Ok((_, p1)) => {
                lemma_read_bones_len(b, p1, (count - 1) as nat);
            },
            Err(_) => {},
        }
    }
}

/// A successful position-table parse yields exactly `count` entries.
pub proof fn lemma_read_vec3s_len(b: Seq<u8>, pos: int, count: nat)
    ensures
        spec_read_vec3s(b, pos, count) matches Ok((s, _)) ==> s.len() == count,
    decreases count,
{
    if count > 0 {
        match spec_read_vec3(b, pos) {
            Ok((_, p1)) => {
                lemma_read_vec3s_len(b, p1, (count - 1) as nat);
            },
            Err(_) => {},
        }
    }
}

/// A successful parent-id-table parse yields exactly `count` entries.
pub proof fn lemma_read_i16s_len(b: Seq<u8>, pos: int, count: nat)
    ensures
        spec_read_i16s(b, pos, count) matches Ok((s, _)) ==> s.len() == count,
    decreases count,
{
    if count > 0 {
        match spec_read_i16(b, pos) {
            Ok((_, p1)) => {
                lemma_read_i16s_len(b, p1, (count - 1) as nat);
            },
            Err(_) => {},
        }
    }
}

/// Every skeleton a successful parse yields is well formed: its tables
/// are index-aligned with its bone list and every bone reference stays
/// inside the skeleton.
pub proof fn lemma_read_skeleton_wf(b: Seq<u8>, pos: int, skel_idx: int)
    ensures
        spec_read_skeleton(b, pos, skel_idx) matches Ok((s, _)) ==> skeleton_wf(s),
{
    match spec_read_name(b, pos) {
        Err(_) => {},
        Ok((_, p1)) => match spec_read_u32(b, p1) {
            Err(_) => {},
            Ok((n, p2)) => {
                lemma_read_bones_len(b, p2, n as nat);
                match spec_read_bones(b, p2, n as nat) {
                    Err(_) => {},
                    Ok((bones, p3)) => match spec_check_refs(bones, skel_idx, 0) {
                        Some(_) => {},
                        None => {
                            lemma_check_refs_ok(bones, skel_idx, 0);
                            lemma_read_vec3s_len(b, p3, n as nat);
                            match spec_read_vec3s(b, p3, n as nat) {
                                Err(_) => {},
                                Ok((_, p4)) => {
                                    lemma_read_i16s_len(b, p4, n as nat);
                                },
                            }
                        },
                    },
                }
            },
        },
    }
}

/// Every skeleton of a successful skeleton-sequence parse is well formed.
pub proof fn lemma_read_skeletons_wf(b: Seq<u8>, pos: int, first_idx: int, count: nat)
    ensures
        spec_read_skeletons(b, pos, first_idx, count) matches Ok((ss, _)) ==> forall|i: int|
            0 <= i < ss.len() ==> skeleton_wf(#[trigger] ss[i]),
    decreases count,
{
    if count > 0 {
        lemma_read_skeleton_wf(b, pos, first_idx);
        match spec_read_skeleton(b, pos, first_idx) {
            Err(_) => {},
            Ok((_, p1)) => {
                lemma_read_skeletons_wf(b, p1, first_idx + 1, (count - 1) as nat);
            },
        }
    }
}

/// Every database a successful parse yields is well formed.
pub proof fn lemma_read_database_wf(b: Seq<u8>, pos: int)
    ensures
        spec_read_database(b, pos) matches Ok((d, _)) ==> database_wf(d),
{
    match spec_read_u32(b, pos) {
        Err(_) => {},
        Ok((_, p1)) => match spec_read_u32(b, p1) {
            Err(_) => {},
            Ok((k, p2)) => {
                lemma_read_skeletons_wf(b, p2, 0, k as nat);
            },
        },
    }
}

/// What `find_nul` finds: the position it returns holds the first zero
/// byte at or after `pos`; `None` means there is none.
pub proof fn lemma_find_nul_props(b: Seq<u8>, pos: int)
    requires
        0 <= pos <= b.len(),
    ensures
        match find_nul(b, pos) {
            Some(i) => pos <= i < b.len() && b[i] == 0 && (forall|j: int|
                pos <= j < i ==> b[j] != 0),
            None => forall|j: int| pos <= j < b.len() ==> b[j] != 0,
        },
    decreases b.len() - pos,
{
    if pos < b.len() && b[pos] != 0 {
        lemma_find_nul_props(b, pos + 1);
    }
}

/// `find_nul` returns the position of a zero byte that nothing but
/// nonzero bytes precedes.
pub proof fn lemma_find_nul_at(b: Seq<u8>, pos: int, i: int)
    requires
        0 <= pos <= i < b.len(),
        b[i] == 0,
        forall|j: int| pos <= j < i ==> b[j] != 0,
    ensures
        find_nul(b, pos) == Some(i),
    decreases i - pos,
{
    if pos < i {
        lemma_find_nul_at(b, pos + 1, i);
    }
}

/// Without a zero byte from `pos` on, `find_nul` finds nothing.
pub proof fn lemma_find_nul_none(b: Seq<u8>, pos: int)
    requires
        0 <= pos <= b.len(),
        forall|j: int| pos <= j < b.len() ==> b[j] != 0,
    ensures
        find_nul(b, pos) == None::<int>,
    decreases b.len() - pos,
{
    if pos < b.len() {
        lemma_find_nul_none(b, pos + 1);
    }
}

/// The exec-level outcome `r` agrees with the spec-level parse `s`: same
/// success or failure, same value (up to views), same stop position.
pub open spec fn matches_read<T: DeepView>(
    s: Result<(T::V, int), DecodeError>,
    r: Result<(T, usize), DecodeError>,
) -> bool {
    match r {
        Ok((v, p)) => s == Ok::<(T::V, int), DecodeError>((v.deep_view(), p as int)),
        Err(e) => s == Err::<(T::V, int), DecodeError>(e),
    }
}

} // verus!

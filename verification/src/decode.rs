use vstd::prelude::*;

use crate::error::{DecodeError, RefField};
use crate::format::{
    find_nul, lemma_find_nul_at, lemma_find_nul_none, lemma_read_database_wf, matches_read,
    spec_check_refs, spec_decode, spec_read_bone, spec_read_bones, spec_read_database,
    spec_read_i16, spec_read_i16s, spec_read_name, spec_read_name_table, spec_read_names,
    spec_read_skeleton, spec_read_skeletons, spec_read_u16, spec_read_u32, spec_read_u8,
    spec_read_vec3, spec_read_vec3s, spec_ref, ABSENT_REF,
};
use crate::model::{
    database_wf, Bone, BoneDatabase, BoneView, DatabaseView, Skeleton, SkeletonView, Vec3,
};

verus! {

/// One byte at `pos`.
fn read_u8(b: &[u8], pos: usize) -> (r: Result<(u8, usize), DecodeError>)
    requires
        pos <= b@.len(),
    ensures
        matches_read(spec_read_u8(b@, pos as int), r),
        (match r {
            Ok((_, p)) => pos <= p && p <= b@.len(),
            Err(_) => true,
        }),
{
    if b.len() - pos >= 1 {
        Ok((b[pos], pos + 1))
    } else {
        Err(DecodeError::Truncated { offset: pos, short: 1 })
    }
}

/// A little-endian unsigned 16-bit integer at `pos`.
fn read_u16(b: &[u8], pos: usize) -> (r: Result<(u16, usize), DecodeError>)
    requires
        pos <= b@.len(),
    ensures
        matches_read(spec_read_u16(b@, pos as int), r),
        (match r {
            Ok((_, p)) => pos <= p && p <= b@.len(),
            Err(_) => true,
        }),
{
    let avail = b.len() - pos;
    if avail >= 2 {
        let v = b[pos] as u16 + (b[pos + 1] as u16) * 0x100;
        Ok((v, pos + 2))
    } else {
        Err(DecodeError::Truncated { offset: pos, short: 2 - avail })
    }
}

/// A little-endian unsigned 32-bit integer at `pos`.
fn read_u32(b: &[u8], pos: usize) -> (r: Result<(u32, usize), DecodeError>)
    requires
        pos <= b@.len(),
    ensures
        matches_read(spec_read_u32(b@, pos as int), r),
        (match r {
            Ok((_, p)) => pos <= p && p <= b@.len(),
            Err(_) => true,
        }),
{
    let avail = b.len() - pos;
    if avail >= 4 {
        let lo = b[pos] as u32 + (b[pos + 1] as u32) * 0x100;
        let hi = (b[pos + 2] as u32) * 0x1_0000 + (b[pos + 3] as u32) * 0x100_0000;
        Ok((lo + hi, pos + 4))
    } else {
        Err(DecodeError::Truncated { offset: pos, short: 4 - avail })
    }
}

/// A little-endian signed 16-bit integer (two's complement) at `pos`.
fn read_i16(b: &[u8], pos: usize) -> (r: Result<(i16, usize), DecodeError>)
    requires
        pos <= b@.len(),
    ensures
        matches_read(spec_read_i16(b@, pos as int), r),
        (match r {
            Ok((_, p)) => pos <= p && p <= b@.len(),
            Err(_) => true,
        }),
{
    match read_u16(b, pos) {
        Err(e) => Err(e),
        Ok((v, p)) => {
            let s: i16 = if v < 0x8000 {
                v as i16
            } else {
                ((v as i32) - 0x1_0000) as i16
            };
            Ok((s, p))
        },
    }
}

/// One rest-pose position: three little-endian 32-bit words at `pos`.
fn read_vec3(b: &[u8], pos: usize) -> (r: Result<(Vec3, usize), DecodeError>)
    requires
        pos <= b@.len(),
    ensures
        matches_read(spec_read_vec3(b@, pos as int), r),
        (match r {
            Ok((_, p)) => pos <= p && p <= b@.len(),
            Err(_) => true,
        }),
{
    let (x, p1) = match read_u32(b, pos) {
        Ok(v) => v,
        Err(e) => {
            return Err(e);
        },
    };
    let (y, p2) = match read_u32(b, p1) {
        Ok(v) => v,
        Err(e) => {
            return Err(e);
        },
    };
    let (z, p3) = match read_u32(b, p2) {
        Ok(v) => v,
        Err(e) => {
            return Err(e);
        },
    };
    Ok((Vec3 { x, y, z }, p3))
}

/// A name at `pos`: the bytes before the first zero byte, which is
/// consumed with them but not kept.
fn read_name(b: &[u8], pos: usize) -> (r: Result<(Vec<u8>, usize), DecodeError>)
    requires
        pos <= b@.len(),
    ensures
        matches_read(spec_read_name(b@, pos as int), r),
        (match r {
            Ok((_, p)) => pos <= p && p <= b@.len(),
            Err(_) => true,
        }),
{
    let mut end: usize = pos;
    while end < b.len() && b[end] != 0
        invariant
            pos <= end <= b@.len(),
            forall|j: int| pos <= j < end ==> b@[j] != 0,
        decreases b@.len() - end,
    {
        end = end + 1;
    }
    if end == b.len() {
        proof {
            lemma_find_nul_none(b@, pos as int);
        }
        return Err(DecodeError::Truncated { offset: pos, short: 1 });
    }
    proof {
        lemma_find_nul_at(b@, pos as int, end as int);
    }
    let mut name: Vec<u8> = Vec::new();
    let mut j: usize = pos;
    while j < end
        invariant
            pos <= j <= end < b@.len(),
            name@ == b@.subrange(pos as int, j as int),
        decreases end - j,
    {
        name.push(b[j]);
        proof {
            assert(name@ =~= b@.subrange(pos as int, j + 1));
        }
        j = j + 1;
    }
    proof {
        assert(name.deep_view() =~= name@);
    }
    Ok((name, end + 1))
}

/// The optional index a raw reference byte encodes.
fn decode_ref(raw: u8) -> (r: Option<u8>)
    ensures
        r == spec_ref(raw),
{
    if raw == ABSENT_REF {
        None
    } else {
        Some(raw)
    }
}

/// One bone record at `pos`.
pub fn read_bone(b: &[u8], pos: usize) -> (r: Result<(Bone, usize), DecodeError>)
    requires
        pos <= b@.len(),
    ensures
        matches_read(spec_read_bone(b@, pos as int), r),
        (match r {
            Ok((_, p)) => pos <= p && p <= b@.len(),
            Err(_) => true,
        }),
{
    let (mode, p1) = match read_u8(b, pos) {
        Ok(v) => v,
        Err(e) => {
            return Err(e);
        },
    };
    let (parent_raw, p2) = match read_u8(b, p1) {
        Ok(v) => v,
        Err(e) => {
            return Err(e);
        },
    };
    let (pole_raw, p3) = match read_u8(b, p2) {
        Ok(v) => v,
        Err(e) => {
            return Err(e);
        },
    };
    let (mirror_raw, p4) = match read_u8(b, p3) {
        Ok(v) => v,
        Err(e) => {
            return Err(e);
        },
    };
    let (unk2, p5) = match read_u8(b, p4) {
        Ok(v) => v,
        Err(e) => {
            return Err(e);
        },
    };
    let (name, p6) = match read_name(b, p5) {
        Ok(v) => v,
        Err(e) => {
            return Err(e);
        },
    };
    let bone = Bone {
        mode,
        parent: decode_ref(parent_raw),
        pole_target: decode_ref(pole_raw),
        mirror: decode_ref(mirror_raw),
        unk2,
        name,
    };
    Ok((bone, p6))
}

/// `count` bone records starting at `pos`.
fn read_bones(b: &[u8], pos: usize, count: u32) -> (r: Result<(Vec<Bone>, usize), DecodeError>)
    requires
        pos <= b@.len(),
    ensures
        matches_read(spec_read_bones(b@, pos as int, count as nat), r),
        (match r {
            Ok((_, p)) => pos <= p && p <= b@.len(),
            Err(_) => true,
        }),
{
    let mut acc: Vec<Bone> = Vec::new();
    let mut cur: usize = pos;
    let mut i: u32 = 0;
    while i < count
        invariant
            pos <= cur <= b@.len(),
            i <= count,
            (match spec_read_bones(b@, cur as int, (count - i) as nat) {
                Ok((rest, p)) => spec_read_bones(b@, pos as int, count as nat) == Ok::<
                    (Seq<BoneView>, int),
                    DecodeError,
                >((acc.deep_view() + rest, p)),
                Err(e) => spec_read_bones(b@, pos as int, count as nat) == Err::<
                    (Seq<BoneView>, int),
                    DecodeError,
                >(e),
            }),
        decreases count - i,
    {
        match read_bone(b, cur) {
            Err(e) => {
                return Err(e);
            },
            Ok((bone, p)) => {
                proof {
                    let av = acc.deep_view();
                    let bv = bone.deep_view();
                    match spec_read_bones(b@, p as int, (count - i - 1) as nat) {
                        Ok((rest2, _)) => {
                            assert((av + seq![bv]) + rest2 =~= av + (seq![bv] + rest2));
                        },
                        Err(_) => {},
                    }
                }
                let ghost prev = acc.deep_view();
                acc.push(bone);
                proof {
                    assert(acc.deep_view() =~= prev + seq![bone.deep_view()]);
                }
                cur = p;
                i = i + 1;
            },
        }
    }
    proof {
        assert(acc.deep_view() + Seq::<BoneView>::empty() =~= acc.deep_view());
    }
    Ok((acc, cur))
}

/// `count` rest-pose positions starting at `pos`.
fn read_vec3s(b: &[u8], pos: usize, count: u32) -> (r: Result<(Vec<Vec3>, usize), DecodeError>)
    requires
        pos <= b@.len(),
    ensures
        matches_read(spec_read_vec3s(b@, pos as int, count as nat), r),
        (match r {
            Ok((_, p)) => pos <= p && p <= b@.len(),
            Err(_) => true,
        }),
{
    let mut acc: Vec<Vec3> = Vec::new();
    let mut cur: usize = pos;
    let mut i: u32 = 0;
    while i < count
        invariant
            pos <= cur <= b@.len(),
            i <= count,
            (match spec_read_vec3s(b@, cur as int, (count - i) as nat) {
                Ok((rest, p)) => spec_read_vec3s(b@, pos as int, count as nat) == Ok::<
                    (Seq<Vec3>, int),
                    DecodeError,
                >((acc.deep_view() + rest, p)),
                Err(e) => spec_read_vec3s(b@, pos as int, count as nat) == Err::<
                    (Seq<Vec3>, int),
                    DecodeError,
                >(e),
            }),
        decreases count - i,
    {
        match read_vec3(b, cur) {
            Err(e) => {
                return Err(e);
            },
            Ok((v, p)) => {
                proof {
                    let av = acc.deep_view();
                    match spec_read_vec3s(b@, p as int, (count - i - 1) as nat) {
                        Ok((rest2, _)) => {
                            assert((av + seq![v]) + rest2 =~= av + (seq![v] + rest2));
                        },
                        Err(_) => {},
                    }
                }
                let ghost prev = acc.deep_view();
                acc.push(v);
                proof {
                    assert(acc.deep_view() =~= prev + seq![v]);
                }
                cur = p;
                i = i + 1;
            },
        }
    }
    proof {
        assert(acc.deep_view() + Seq::<Vec3>::empty() =~= acc.deep_view());
    }
    Ok((acc, cur))
}

/// `count` signed 16-bit parent ids starting at `pos`.
fn read_i16s(b: &[u8], pos: usize, count: u32) -> (r: Result<(Vec<i16>, usize), DecodeError>)
    requires
        pos <= b@.len(),
    ensures
        matches_read(spec_read_i16s(b@, pos as int, count as nat), r),
        (match r {
            Ok((_, p)) => pos <= p && p <= b@.len(),
            Err(_) => true,
        }),
{
    let mut acc: Vec<i16> = Vec::new();
    let mut cur: usize = pos;
    let mut i: u32 = 0;
    while i < count
        invariant
            pos <= cur <= b@.len(),
            i <= count,
            (match spec_read_i16s(b@, cur as int, (count - i) as nat) {
                Ok((rest, p)) => spec_read_i16s(b@, pos as int, count as nat) == Ok::<
                    (Seq<i16>, int),
                    DecodeError,
                >((acc.deep_view() + rest, p)),
                Err(e) => spec_read_i16s(b@, pos as int, count as nat) == Err::<
                    (Seq<i16>, int),
                    DecodeError,
                >(e),
            }),
        decreases count - i,
    {
        match read_i16(b, cur) {
            Err(e) => {
                return Err(e);
            },
            Ok((v, p)) => {
                proof {
                    let av = acc.deep_view();
                    match spec_read_i16s(b@, p as int, (count - i - 1) as nat) {
                        Ok((rest2, _)) => {
                            assert((av + seq![v]) + rest2 =~= av + (seq![v] + rest2));
                        },
                        Err(_) => {},
                    }
                }
                let ghost prev = acc.deep_view();
                acc.push(v);
                proof {
                    assert(acc.deep_view() =~= prev + seq![v]);
                }
                cur = p;
                i = i + 1;
            },
        }
    }
    proof {
        assert(acc.deep_view() + Seq::<i16>::empty() =~= acc.deep_view());
    }
    Ok((acc, cur))
}

/// `count` names starting at `pos`.
fn read_names(b: &[u8], pos: usize, count: u32) -> (r: Result<
    (Vec<Vec<u8>>, usize),
    DecodeError,
>)
    requires
        pos <= b@.len(),
    ensures
        matches_read(spec_read_names(b@, pos as int, count as nat), r),
        (match r {
            Ok((_, p)) => pos <= p && p <= b@.len(),
            Err(_) => true,
        }),
{
    let mut acc: Vec<Vec<u8>> = Vec::new();
    let mut cur: usize = pos;
    let mut i: u32 = 0;
    while i < count
        invariant
            pos <= cur <= b@.len(),
            i <= count,
            (match spec_read_names(b@, cur as int, (count - i) as nat) {
                Ok((rest, p)) => spec_read_names(b@, pos as int, count as nat) == Ok::<
                    (Seq<Seq<u8>>, int),
                    DecodeError,
                >((acc.deep_view() + rest, p)),
                Err(e) => spec_read_names(b@, pos as int, count as nat) == Err::<
                    (Seq<Seq<u8>>, int),
                    DecodeError,
                >(e),
            }),
        decreases count - i,
    {
        match read_name(b, cur) {
            Err(e) => {
                return Err(e);
            },
            Ok((v, p)) => {
                proof {
                    let av = acc.deep_view();
                    let vv = v.deep_view();
                    match spec_read_names(b@, p as int, (count - i - 1) as nat) {
                        Ok((rest2, _)) => {
                            assert((av + seq![vv]) + rest2 =~= av + (seq![vv] + rest2));
                        },
                        Err(_) => {},
                    }
                }
                let ghost prev = acc.deep_view();
                acc.push(v);
                proof {
                    assert(acc.deep_view() =~= prev + seq![v.deep_view()]);
                }
                cur = p;
                i = i + 1;
            },
        }
    }
    proof {
        assert(acc.deep_view() + Seq::<Seq<u8>>::empty() =~= acc.deep_view());
    }
    Ok((acc, cur))
}

/// A name table at `pos`: a 32-bit count, then that many names.
fn read_name_table(b: &[u8], pos: usize) -> (r: Result<(Vec<Vec<u8>>, usize), DecodeError>)
    requires
        pos <= b@.len(),
    ensures
        matches_read(spec_read_name_table(b@, pos as int), r),
        (match r {
            Ok((_, p)) => pos <= p && p <= b@.len(),
            Err(_) => true,
        }),
{
    let (c, p1) = match read_u32(b, pos) {
        Ok(v) => v,
        Err(e) => {
            return Err(e);
        },
    };
    read_names(b, p1, c)
}

/// First out-of-range reference of the bone list, if any, reported for
/// skeleton `skel_idx` in record order (parent, pole target, mirror).
fn check_refs(bones: &Vec<Bone>, skel_idx: usize) -> (r: Option<DecodeError>)
    ensures
        r == spec_check_refs(bones.deep_view(), skel_idx as int, 0),
{
    let n = bones.len();
    let mut i: usize = 0;
    while i < n
        invariant
            n == bones@.len(),
            i <= n,
            spec_check_refs(bones.deep_view(), skel_idx as int, 0) == spec_check_refs(
                bones.deep_view(),
                skel_idx as int,
                i as int,
            ),
        decreases n - i,
    {
        let bone = &bones[i];
        if let Some(p) = bone.parent {
            if p as usize >= n {
                return Some(
                    DecodeError::InvalidReference {
                        skeleton: skel_idx,
                        bone: i,
                        field: RefField::Parent,
                    },
                );
            }
        }
        if let Some(p) = bone.pole_target {
            if p as usize >= n {
                return Some(
                    DecodeError::InvalidReference {
                        skeleton: skel_idx,
                        bone: i,
                        field: RefField::PoleTarget,
                    },
                );
            }
        }
        if let Some(p) = bone.mirror {
            if p as usize >= n {
                return Some(
                    DecodeError::InvalidReference {
                        skeleton: skel_idx,
                        bone: i,
                        field: RefField::Mirror,
                    },
                );
            }
        }
        i = i + 1;
    }
    None
}

/// One skeleton at `pos`, the `skel_idx`-th of its database: name, bone
/// count, bone records, reference check, position table, parent-id table,
/// and the two name tables.
pub fn read_skeleton(b: &[u8], pos: usize, skel_idx: usize) -> (r: Result<
    (Skeleton, usize),
    DecodeError,
>)
    requires
        pos <= b@.len(),
    ensures
        matches_read(spec_read_skeleton(b@, pos as int, skel_idx as int), r),
        (match r {
            Ok((_, p)) => pos <= p && p <= b@.len(),
            Err(_) => true,
        }),
{
    let (name, p1) = match read_name(b, pos) {
        Ok(v) => v,
        Err(e) => {
            return Err(e);
        },
    };
    let (n, p2) = match read_u32(b, p1) {
        Ok(v) => v,
        Err(e) => {
            return Err(e);
        },
    };
    let (bones, p3) = match read_bones(b, p2, n) {
        Ok(v) => v,
        Err(e) => {
            return Err(e);
        },
    };
    if let Some(e) = check_refs(&bones, skel_idx) {
        return Err(e);
    }
    let (positions, p4) = match read_vec3s(b, p3, n) {
        Ok(v) => v,
        Err(e) => {
            return Err(e);
        },
    };
    let (parent_ids, p5) = match read_i16s(b, p4, n) {
        Ok(v) => v,
        Err(e) => {
            return Err(e);
        },
    };
    let (object_bone_names, p6) = match read_name_table(b, p5) {
        Ok(v) => v,
        Err(e) => {
            return Err(e);
        },
    };
    let (motion_bone_names, p7) = match read_name_table(b, p6) {
        Ok(v) => v,
        Err(e) => {
            return Err(e);
        },
    };
    let skel = Skeleton {
        name,
        bones,
        pos: positions,
        parent_ids,
        object_bone_names,
        motion_bone_names,
    };
    Ok((skel, p7))
}

/// `count` skeletons starting at `pos`, the first being the
/// `first_idx`-th of its database.
fn read_skeletons(b: &[u8], pos: usize, first_idx: usize, count: u32) -> (r: Result<
    (Vec<Skeleton>, usize),
    DecodeError,
>)
    requires
        pos <= b@.len(),
        first_idx + count <= usize::MAX,
    ensures
        matches_read(spec_read_skeletons(b@, pos as int, first_idx as int, count as nat), r),
        (match r {
            Ok((_, p)) => pos <= p && p <= b@.len(),
            Err(_) => true,
        }),
{
    let mut acc: Vec<Skeleton> = Vec::new();
    let mut cur: usize = pos;
    let mut i: u32 = 0;
    while i < count
        invariant
            pos <= cur <= b@.len(),
            i <= count,
            first_idx + count <= usize::MAX,
            (match spec_read_skeletons(
                b@,
                cur as int,
                first_idx + i as int,
                (count - i) as nat,
            ) {
                Ok((rest, p)) => spec_read_skeletons(
                    b@,
                    pos as int,
                    first_idx as int,
                    count as nat,
                ) == Ok::<(Seq<SkeletonView>, int), DecodeError>((acc.deep_view() + rest, p)),
                Err(e) => spec_read_skeletons(b@, pos as int, first_idx as int, count as nat)
                    == Err::<(Seq<SkeletonView>, int), DecodeError>(e),
            }),
        decreases count - i,
    {
        let idx = first_idx + (i as usize);
        match read_skeleton(b, cur, idx) {
            Err(e) => {
                return Err(e);
            },
            Ok((skel, p)) => {
                proof {
                    let av = acc.deep_view();
                    let sv = skel.deep_view();
                    match spec_read_skeletons(
                        b@,
                        p as int,
                        first_idx + i + 1,
                        (count - i - 1) as nat,
                    ) {
                        Ok((rest2, _)) => {
                            assert((av + seq![sv]) + rest2 =~= av + (seq![sv] + rest2));
                        },
                        Err(_) => {},
                    }
                }
                let ghost prev = acc.deep_view();
                acc.push(skel);
                proof {
                    assert(acc.deep_view() =~= prev + seq![skel.deep_view()]);
                }
                cur = p;
                i = i + 1;
            },
        }
    }
    proof {
        assert(acc.deep_view() + Seq::<SkeletonView>::empty() =~= acc.deep_view());
    }
    Ok((acc, cur))
}

/// The whole database from the start of `b`: signature, skeleton count,
/// then the skeletons. On success also returns how many bytes were
/// consumed; bytes after that are leftover and ignored, since the format
/// may sit inside a larger container.
pub fn read_database(b: &[u8]) -> (r: Result<(BoneDatabase, usize), DecodeError>)
    ensures
        (match r {
            Ok((db, used)) => spec_read_database(b@, 0) == Ok::<(DatabaseView, int), DecodeError>(
                (db.deep_view(), used as int),
            ) && used <= b@.len() && database_wf(db.deep_view()),
            Err(e) => spec_read_database(b@, 0) == Err::<(DatabaseView, int), DecodeError>(e),
        }),
{
    proof {
        lemma_read_database_wf(b@, 0);
    }
    let (signature, p1) = match read_u32(b, 0) {
        Ok(v) => v,
        Err(e) => {
            return Err(e);
        },
    };
    let (k, p2) = match read_u32(b, p1) {
        Ok(v) => v,
        Err(e) => {
            return Err(e);
        },
    };
    let (skeletons, p3) = match read_skeletons(b, p2, 0, k) {
        Ok(v) => v,
        Err(e) => {
            return Err(e);
        },
    };
    let db = BoneDatabase { signature, skeletons };
    Ok((db, p3))
}

/// Decodes a full bone-database file. Trailing bytes after the encoded
/// database are allowed and ignored; any missing byte or out-of-range
/// bone reference aborts the decode with a positioned error.
pub fn decode(b: &[u8]) -> (r: Result<BoneDatabase, DecodeError>)
    ensures
        (match r {
            Ok(db) => spec_decode(b@) == Ok::<DatabaseView, DecodeError>(db.deep_view())
                && database_wf(db.deep_view()),
            Err(e) => spec_decode(b@) == Err::<DatabaseView, DecodeError>(e),
        }),
{
    match read_database(b) {
        Ok((db, _)) => Ok(db),
        Err(e) => Err(e),
    }
}

} // verus!

use bone_db::decode::decode;
use bone_db::error::{DecodeError, RefField};
use bone_db::model::{Bone, Skeleton, Vec3};

fn push_u32(buf: &mut Vec<u8>, v: u32) {
    buf.extend_from_slice(&v.to_le_bytes());
}

fn push_name(buf: &mut Vec<u8>, name: &[u8]) {
    buf.extend_from_slice(name);
    buf.push(0);
}

fn push_bone(buf: &mut Vec<u8>, mode: u8, parent: u8, pole: u8, mirror: u8, unk2: u8, name: &[u8]) {
    buf.push(mode);
    buf.push(parent);
    buf.push(pole);
    buf.push(mirror);
    buf.push(unk2);
    push_name(buf, name);
}

/// A database with one skeleton of `bones` records, each bone being
/// (parent, pole, mirror) raw bytes, with matching-length tables.
fn db_with_bones(bones: &[(u8, u8, u8)]) -> Vec<u8> {
    let mut buf = Vec::new();
    push_u32(&mut buf, 0xBEEF);
    push_u32(&mut buf, 1);
    push_name(&mut buf, b"skel");
    push_u32(&mut buf, bones.len() as u32);
    for (i, (parent, pole, mirror)) in bones.iter().enumerate() {
        push_bone(&mut buf, 0, *parent, *pole, *mirror, 0, &[b'a' + i as u8]);
    }
    for _ in bones {
        push_u32(&mut buf, 0);
        push_u32(&mut buf, 0);
        push_u32(&mut buf, 0);
    }
    for _ in bones {
        buf.extend_from_slice(&0i16.to_le_bytes());
    }
    push_u32(&mut buf, 0);
    push_u32(&mut buf, 0);
    buf
}

#[test]
fn sentinel_parent_byte_means_absent_even_with_more_bones() {
    let buf = db_with_bones(&[(255, 255, 255), (0, 255, 255), (255, 255, 255)]);
    let db = decode(&buf).unwrap();
    let skel = &db.skeletons[0];
    assert_eq!(skel.bones.len(), 3);
    assert_eq!(skel.bones[0].parent, None);
    assert_ne!(skel.bones[0].parent, Some(255));
    assert_eq!(skel.bones[1].parent, Some(0));
    assert_eq!(skel.bones[2].parent, None);
}

#[test]
fn out_of_range_parent_is_an_invalid_reference() {
    let buf = db_with_bones(&[(5, 255, 255)]);
    let err = decode(&buf).unwrap_err();
    assert_eq!(
        err,
        DecodeError::InvalidReference {
            skeleton: 0,
            bone: 0,
            field: RefField::Parent,
        }
    );
}

#[test]
fn out_of_range_pole_target_is_reported_with_its_field() {
    let buf = db_with_bones(&[(255, 255, 255), (0, 9, 255)]);
    let err = decode(&buf).unwrap_err();
    assert_eq!(
        err,
        DecodeError::InvalidReference {
            skeleton: 0,
            bone: 1,
            field: RefField::PoleTarget,
        }
    );
}

#[test]
fn out_of_range_mirror_is_reported_with_its_field() {
    let buf = db_with_bones(&[(255, 255, 3)]);
    let err = decode(&buf).unwrap_err();
    assert_eq!(
        err,
        DecodeError::InvalidReference {
            skeleton: 0,
            bone: 0,
            field: RefField::Mirror,
        }
    );
}

#[test]
fn invalid_reference_names_the_failing_skeleton() {
    let mut buf = Vec::new();
    push_u32(&mut buf, 0);
    push_u32(&mut buf, 2);
    // first skeleton: empty and clean
    push_name(&mut buf, b"ok");
    push_u32(&mut buf, 0);
    push_u32(&mut buf, 0);
    push_u32(&mut buf, 0);
    // second skeleton: one bone with a bad mirror index
    push_name(&mut buf, b"bad");
    push_u32(&mut buf, 1);
    push_bone(&mut buf, 0, 255, 255, 200, 0, b"x");
    push_u32(&mut buf, 0);
    push_u32(&mut buf, 0);
    push_u32(&mut buf, 0);
    buf.extend_from_slice(&0i16.to_le_bytes());
    push_u32(&mut buf, 0);
    push_u32(&mut buf, 0);
    let err = decode(&buf).unwrap_err();
    assert_eq!(
        err,
        DecodeError::InvalidReference {
            skeleton: 1,
            bone: 0,
            field: RefField::Mirror,
        }
    );
}

#[test]
fn every_truncation_of_a_valid_file_is_reported() {
    let buf = db_with_bones(&[(255, 255, 255), (0, 255, 255)]);
    assert!(decode(&buf).is_ok());
    for t in 0..buf.len() {
        let err = decode(&buf[..t]).unwrap_err();
        assert!(
            matches!(err, DecodeError::Truncated { .. }),
            "cut at {} gave {:?}",
            t,
            err
        );
    }
}

#[test]
fn truncated_header_reports_offset_and_missing_bytes() {
    let buf = db_with_bones(&[]);
    let err = decode(&buf[..2]).unwrap_err();
    assert_eq!(err, DecodeError::Truncated { offset: 0, short: 2 });
    let err = decode(&buf[..6]).unwrap_err();
    assert_eq!(err, DecodeError::Truncated { offset: 4, short: 2 });
}

#[test]
fn unterminated_name_is_truncated_input() {
    let mut buf = Vec::new();
    push_u32(&mut buf, 0);
    push_u32(&mut buf, 1);
    let name_start = buf.len();
    buf.extend_from_slice(b"never terminated");
    let err = decode(&buf).unwrap_err();
    assert_eq!(
        err,
        DecodeError::Truncated {
            offset: name_start,
            short: 1,
        }
    );
}

#[test]
fn self_referencing_parent_decodes_but_fails_the_hierarchy_check() {
    // bone 1 is its own parent: in range, so decoding succeeds, and the
    // optional validation pass is what reports the cycle.
    let buf = db_with_bones(&[(255, 255, 255), (1, 255, 255)]);
    let db = decode(&buf).unwrap();
    assert_eq!(db.skeletons[0].bones[1].parent, Some(1));
    assert_eq!(db.skeletons[0].check_hierarchy(), Some(1));
    assert_eq!(db.check_hierarchy(), Some((0, 1)));
}

#[test]
fn two_bone_cycle_fails_the_hierarchy_check() {
    let buf = db_with_bones(&[(1, 255, 255), (0, 255, 255)]);
    let db = decode(&buf).unwrap();
    assert_eq!(db.skeletons[0].check_hierarchy(), Some(0));
}

#[test]
fn proper_chains_pass_the_hierarchy_check() {
    let buf = db_with_bones(&[(255, 255, 255), (0, 255, 255), (1, 255, 255)]);
    let db = decode(&buf).unwrap();
    assert_eq!(db.skeletons[0].check_hierarchy(), None);
    assert_eq!(db.check_hierarchy(), None);
}

#[test]
fn hand_built_skeleton_with_broken_chain_fails_the_hierarchy_check() {
    // The walk itself is defensive: an out-of-range parent index in a
    // skeleton that never went through the decoder is reported too.
    let bone = Bone {
        mode: 0,
        parent: Some(5),
        pole_target: None,
        mirror: None,
        unk2: 0,
        name: b"loose".to_vec(),
    };
    let skel = Skeleton {
        name: b"broken".to_vec(),
        bones: vec![bone],
        pos: vec![Vec3 { x: 0, y: 0, z: 0 }],
        parent_ids: vec![0],
        object_bone_names: vec![],
        motion_bone_names: vec![],
    };
    assert_eq!(skel.check_hierarchy(), Some(0));
}

#[test]
fn empty_skeleton_passes_the_hierarchy_check() {
    let buf = db_with_bones(&[]);
    let db = decode(&buf).unwrap();
    assert_eq!(db.skeletons[0].check_hierarchy(), None);
    assert_eq!(db.check_hierarchy(), None);
}

use bone_db::decode::{decode, read_bone, read_database, read_skeleton};
use bone_db::model::{Bone, BoneDatabase, Skeleton};

fn push_u32(buf: &mut Vec<u8>, v: u32) {
    buf.extend_from_slice(&v.to_le_bytes());
}

fn push_name(buf: &mut Vec<u8>, name: &[u8]) {
    buf.extend_from_slice(name);
    buf.push(0);
}

fn push_bone(buf: &mut Vec<u8>, mode: u8, parent: u8, pole: u8, mirror: u8, unk2: u8, name: &[u8]) {
    buf.push(mode);
    buf.push(parent);
    buf.push(pole);
    buf.push(mirror);
    buf.push(unk2);
    push_name(buf, name);
}

/// A database with one skeleton holding one root bone with empty name.
fn minimal_db() -> Vec<u8> {
    let mut buf = Vec::new();
    push_u32(&mut buf, 0x12345678); // signature
    push_u32(&mut buf, 1); // skeleton count
    push_name(&mut buf, b""); // skeleton name
    push_u32(&mut buf, 1); // bone count
    push_bone(&mut buf, 0, 255, 255, 255, 0, b"");
    push_u32(&mut buf, 0); // pos x
    push_u32(&mut buf, 0); // pos y
    push_u32(&mut buf, 0); // pos z
    buf.extend_from_slice(&(-1i16).to_le_bytes()); // parent id
    push_u32(&mut buf, 0); // object bone names
    push_u32(&mut buf, 0); // motion bone names
    buf
}

#[test]
fn single_root_bone_decodes_with_all_refs_absent() {
    let db = decode(&minimal_db()).unwrap();
    assert_eq!(db.signature, 0x12345678);
    assert_eq!(db.skeletons.len(), 1);
    let skel = &db.skeletons[0];
    assert_eq!(skel.name, b"".to_vec());
    assert_eq!(skel.bones.len(), 1);
    let bone = &skel.bones[0];
    assert_eq!(bone.mode, 0);
    assert_eq!(bone.parent, None);
    assert_eq!(bone.mirror, None);
    assert_eq!(bone.pole_target, None);
    assert_eq!(bone.unk2, 0);
    assert_eq!(bone.name, b"".to_vec());
}

#[test]
fn parallel_tables_have_bone_count_lengths() {
    let db = decode(&minimal_db()).unwrap();
    let skel = &db.skeletons[0];
    assert_eq!(skel.bones.len(), 1);
    assert_eq!(skel.pos.len(), 1);
    assert_eq!(skel.parent_ids.len(), 1);
    assert_eq!(skel.parent_ids[0], -1);
    assert_eq!(skel.object_bone_names.len(), 0);
    assert_eq!(skel.motion_bone_names.len(), 0);
}

#[test]
fn signature_is_little_endian() {
    let mut buf = vec![0x78, 0x56, 0x34, 0x12];
    push_u32(&mut buf, 0); // no skeletons
    let db = decode(&buf).unwrap();
    assert_eq!(db.signature, 0x12345678);
    assert_eq!(db.skeletons.len(), 0);
}

#[test]
fn decoding_twice_yields_equal_values() {
    let buf = minimal_db();
    let first = decode(&buf).unwrap();
    let second = decode(&buf).unwrap();
    assert_eq!(first, second);
}

#[test]
fn trailing_bytes_are_leftover_not_an_error() {
    let mut buf = minimal_db();
    let plain_len = buf.len();
    let plain = decode(&buf).unwrap();
    buf.extend_from_slice(&[9, 9, 9]);
    let with_trailing = decode(&buf).unwrap();
    assert_eq!(plain, with_trailing);
    let (_, used) = read_database(&buf).unwrap();
    assert_eq!(used, plain_len);
}

#[test]
fn bone_record_fields_and_name_bytes() {
    let mut buf = Vec::new();
    push_bone(&mut buf, 5, 2, 7, 1, 0xAB, b"elbow_L");
    let (bone, used) = read_bone(&buf, 0).unwrap();
    assert_eq!(used, buf.len());
    let expected = Bone {
        mode: 5,
        parent: Some(2),
        pole_target: Some(7),
        mirror: Some(1),
        unk2: 0xAB,
        name: b"elbow_L".to_vec(),
    };
    assert_eq!(bone, expected);
}

#[test]
fn positions_carry_float_bit_patterns() {
    let mut buf = Vec::new();
    push_u32(&mut buf, 0); // signature
    push_u32(&mut buf, 1);
    push_name(&mut buf, b"s");
    push_u32(&mut buf, 1);
    push_bone(&mut buf, 0, 255, 255, 255, 0, b"b");
    push_u32(&mut buf, 1.5f32.to_bits());
    push_u32(&mut buf, (-2.0f32).to_bits());
    push_u32(&mut buf, 0.25f32.to_bits());
    buf.extend_from_slice(&0i16.to_le_bytes());
    push_u32(&mut buf, 0);
    push_u32(&mut buf, 0);
    let db = decode(&buf).unwrap();
    let v = db.skeletons[0].pos[0];
    assert_eq!(f32::from_bits(v.x), 1.5);
    assert_eq!(f32::from_bits(v.y), -2.0);
    assert_eq!(f32::from_bits(v.z), 0.25);
}

#[test]
fn parent_ids_are_signed_little_endian() {
    let mut buf = Vec::new();
    push_u32(&mut buf, 0);
    push_u32(&mut buf, 1);
    push_name(&mut buf, b"s");
    push_u32(&mut buf, 2);
    push_bone(&mut buf, 0, 255, 255, 255, 0, b"a");
    push_bone(&mut buf, 0, 0, 255, 255, 0, b"b");
    for _ in 0..2 {
        push_u32(&mut buf, 0);
        push_u32(&mut buf, 0);
        push_u32(&mut buf, 0);
    }
    buf.extend_from_slice(&(-2i16).to_le_bytes());
    buf.extend_from_slice(&0x1234i16.to_le_bytes());
    push_u32(&mut buf, 0);
    push_u32(&mut buf, 0);
    let db = decode(&buf).unwrap();
    assert_eq!(db.skeletons[0].parent_ids, vec![-2, 0x1234]);
}

#[test]
fn name_tables_are_count_prefixed() {
    let mut buf = Vec::new();
    push_name(&mut buf, b"rig");
    push_u32(&mut buf, 0); // no bones
    push_u32(&mut buf, 2); // object bone names
    push_name(&mut buf, b"obj_a");
    push_name(&mut buf, b"obj_b");
    push_u32(&mut buf, 1); // motion bone names
    push_name(&mut buf, b"mot_a");
    let (skel, used) = read_skeleton(&buf, 0, 0).unwrap();
    assert_eq!(used, buf.len());
    assert_eq!(skel.name, b"rig".to_vec());
    assert_eq!(
        skel.object_bone_names,
        vec![b"obj_a".to_vec(), b"obj_b".to_vec()]
    );
    assert_eq!(skel.motion_bone_names, vec![b"mot_a".to_vec()]);
}

#[test]
fn skeleton_order_is_preserved() {
    let mut buf = Vec::new();
    push_u32(&mut buf, 7);
    push_u32(&mut buf, 2);
    for name in [b"first", b"other"] {
        push_name(&mut buf, name);
        push_u32(&mut buf, 0); // bones
        push_u32(&mut buf, 0); // object bone names
        push_u32(&mut buf, 0); // motion bone names
    }
    let db = decode(&buf).unwrap();
    assert_eq!(db.skeletons.len(), 2);
    assert_eq!(db.skeletons[0].name, b"first".to_vec());
    assert_eq!(db.skeletons[1].name, b"other".to_vec());
}

#[test]
fn get_bone_is_bounds_checked() {
    let db = decode(&minimal_db()).unwrap();
    let skel: &Skeleton = &db.skeletons[0];
    assert!(skel.get_bone(0).is_some());
    assert!(skel.get_bone(1).is_none());
    assert!(skel.get_bone(usize::MAX).is_none());
}

#[test]
fn name_bytes_are_preserved_verbatim() {
    // Names are kept as the raw bytes of the file; nothing is decoded or
    // normalized, only the zero terminator is dropped.
    let raw = [0xFFu8, 0x41, 0x80, 0x01];
    let mut buf = Vec::new();
    push_name(&mut buf, &raw);
    push_u32(&mut buf, 0); // bones
    push_u32(&mut buf, 0); // object bone names
    push_u32(&mut buf, 0); // motion bone names
    let (skel, _) = read_skeleton(&buf, 0, 0).unwrap();
    assert_eq!(skel.name, raw.to_vec());
}

#[test]
fn empty_buffer_is_not_a_database() {
    let db: Result<BoneDatabase, _> = decode(&[]);
    assert!(db.is_err());
}

//! Truncating a valid file below what its declared counts require can
//! never decode successfully: the decode fails, and fails with a
//! truncated-input error. The proof walks the format top-down, showing
//! for every layer that a parse on a prefix either agrees with the parse
//! on the full buffer (when the full parse stops inside the prefix) or
//! stops with a truncated-input error (when it does not).

use vstd::prelude::*;

use crate::error::DecodeError;
use crate::format::{
    find_nul, lemma_find_nul_at, lemma_find_nul_none, lemma_find_nul_props, spec_check_refs,
    spec_consumed, spec_decode, spec_read_bone, spec_read_bones, spec_read_database,
    spec_read_i16, spec_read_i16s, spec_read_name, spec_read_name_table, spec_read_names,
    spec_read_skeleton, spec_read_skeletons, spec_read_u16, spec_read_u32, spec_read_u8,
    spec_read_vec3, spec_read_vec3s,
};

verus! {

/// The result is a truncated-input error.
pub open spec fn truncated_err<T>(r: Result<(T, int), DecodeError>) -> bool {
    match r {
        Ok(_) => false,
        Err(e) => e.is_truncated(),
    }
}

/// `pre`, the parse on the prefix of length `t`, relates to `full`, the
/// parse on the whole buffer: where the full parse succeeds within the
/// prefix the two agree, and where it succeeds beyond the prefix the
/// prefix parse reports truncated input.
pub open spec fn prefix_faithful<T>(
    full: Result<(T, int), DecodeError>,
    pre: Result<(T, int), DecodeError>,
    t: int,
) -> bool {
    match full {
        Ok((v, p)) => if p <= t {
            pre == full
        } else {
            truncated_err(pre)
        },
        Err(_) => true,
    }
}

/// A successful name parse stops past its start and inside the buffer.
pub proof fn lemma_read_name_bounds(b: Seq<u8>, pos: int)
    requires
        0 <= pos <= b.len(),
    ensures
        spec_read_name(b, pos) matches Ok((v, p)) ==> pos < p <= b.len(),
{
    lemma_find_nul_props(b, pos);
}

/// A successful bone parse stops past its start and inside the buffer.
pub proof fn lemma_read_bone_bounds(b: Seq<u8>, pos: int)
    requires
        0 <= pos <= b.len(),
    ensures
        spec_read_bone(b, pos) matches Ok((v, p)) ==> pos < p <= b.len(),
{
    if pos + 5 <= b.len() {
        lemma_read_name_bounds(b, pos + 5);
    }
}

/// A successful bone-list parse never moves backwards nor out of the buffer.
pub proof fn lemma_read_bones_bounds(b: Seq<u8>, pos: int, count: nat)
    requires
        0 <= pos <= b.len(),
    ensures
        spec_read_bones(b, pos, count) matches Ok((v, p)) ==> pos <= p <= b.len(),
    decreases count,
{
    if count > 0 {
        lemma_read_bone_bounds(b, pos);
        match spec_read_bone(b, pos) {
            Ok((_, p1)) => {
                lemma_read_bones_bounds(b, p1, (count - 1) as nat);
            },
            Err(_) => {},
        }
    }
}

/// A successful position-table parse never moves backwards nor out of the buffer.
pub proof fn lemma_read_vec3s_bounds(b: Seq<u8>, pos: int, count: nat)
    requires
        0 <= pos <= b.len(),
    ensures
        spec_read_vec3s(b, pos, count) matches Ok((v, p)) ==> pos <= p <= b.len(),
    decreases count,
{
    if count > 0 {
        match spec_read_vec3(b, pos) {
            Ok((_, p1)) => {
                lemma_read_vec3s_bounds(b, p1, (count - 1) as nat);
            },
            Err(_) => {},
        }
    }
}

/// A successful parent-id-table parse never moves backwards nor out of the buffer.
pub proof fn lemma_read_i16s_bounds(b: Seq<u8>, pos: int, count: nat)
    requires
        0 <= pos <= b.len(),
    ensures
        spec_read_i16s(b, pos, count) matches Ok((v, p)) ==> pos <= p <= b.len(),
    decreases count,
{
    if count > 0 {
        match spec_read_i16(b, pos) {
            Ok((_, p1)) => {
                lemma_read_i16s_bounds(b, p1, (count - 1) as nat);
            },
            Err(_) => {},
        }
    }
}

/// A successful name-list parse never moves backwards nor out of the buffer.
pub proof fn lemma_read_names_bounds(b: Seq<u8>, pos: int, count: nat)
    requires
        0 <= pos <= b.len(),
    ensures
        spec_read_names(b, pos, count) matches Ok((v, p)) ==> pos <= p <= b.len(),
    decreases count,
{
    if count > 0 {
        lemma_read_name_bounds(b, pos);
        match spec_read_name(b, pos) {
            Ok((_, p1)) => {
                lemma_read_names_bounds(b, p1, (count - 1) as nat);
            },
            Err(_) => {},
        }
    }
}

/// A successful name-table parse never moves backwards nor out of the buffer.
pub proof fn lemma_read_name_table_bounds(b: Seq<u8>, pos: int)
    requires
        0 <= pos <= b.len(),
    ensures
        spec_read_name_table(b, pos) matches Ok((v, p)) ==> pos <= p <= b.len(),
{
    match spec_read_u32(b, pos) {
        Ok((c, p1)) => {
            lemma_read_names_bounds(b, p1, c as nat);
        },
        Err(_) => {},
    }
}

/// A successful skeleton parse never moves backwards nor out of the buffer.
pub proof fn lemma_read_skeleton_bounds(b: Seq<u8>, pos: int, skel_idx: int)
    requires
        0 <= pos <= b.len(),
    ensures
        spec_read_skeleton(b, pos, skel_idx) matches Ok((v, p)) ==> pos <= p <= b.len(),
{
    lemma_read_name_bounds(b, pos);
    match spec_read_name(b, pos) {
        Err(_) => {},
        Ok((_, p1)) => match spec_read_u32(b, p1) {
            Err(_) => {},
            Ok((n, p2)) => {
                lemma_read_bones_bounds(b, p2, n as nat);
                match spec_read_bones(b, p2, n as nat) {
                    Err(_) => {},
                    Ok((bones, p3)) => {
                        lemma_read_vec3s_bounds(b, p3, n as nat);
                        match spec_read_vec3s(b, p3, n as nat) {
                            Err(_) => {},
                            Ok((_, p4)) => {
                                lemma_read_i16s_bounds(b, p4, n as nat);
                                match spec_read_i16s(b, p4, n as nat) {
                                    Err(_) => {},
                                    Ok((_, p5)) => {
                                        lemma_read_name_table_bounds(b, p5);
                                        match spec_read_name_table(b, p5) {
                                            Err(_) => {},
                                            Ok((_, p6)) => {
                                                lemma_read_name_table_bounds(b, p6);
                                            },
                                        }
                                    },
                                }
                            },
                        }
                    },
                }
            },
        },
    }
}

/// A successful skeleton-sequence parse never moves backwards nor out of the buffer.
pub proof fn lemma_read_skeletons_bounds(b: Seq<u8>, pos: int, first_idx: int, count: nat)
    requires
        0 <= pos <= b.len(),
    ensures
        spec_read_skeletons(b, pos, first_idx, count) matches Ok((v, p)) ==> pos <= p <= b.len(),
    decreases count,
{
    if count > 0 {
        lemma_read_skeleton_bounds(b, pos, first_idx);
        match spec_read_skeleton(b, pos, first_idx) {
            Ok((_, p1)) => {
                lemma_read_skeletons_bounds(b, p1, first_idx + 1, (count - 1) as nat);
            },
            Err(_) => {},
        }
    }
}

/// A successful database parse never moves backwards nor out of the buffer.
pub proof fn lemma_read_database_bounds(b: Seq<u8>, pos: int)
    requires
        0 <= pos <= b.len(),
    ensures
        spec_read_database(b, pos) matches Ok((v, p)) ==> pos <= p <= b.len(),
{
    match spec_read_u32(b, pos) {
        Err(_) => {},
        Ok((_, p1)) => match spec_read_u32(b, p1) {
            Err(_) => {},
            Ok((k, p2)) => {
                lemma_read_skeletons_bounds(b, p2, 0, k as nat);
            },
        },
    }
}

/// Reading one byte is prefix-faithful.
pub proof fn lemma_prefix_u8(b: Seq<u8>, t: int, pos: int)
    requires
        0 <= pos <= t <= b.len(),
    ensures
        prefix_faithful(spec_read_u8(b, pos), spec_read_u8(b.subrange(0, t), pos), t),
{
}

/// Reading a 16-bit integer is prefix-faithful.
pub proof fn lemma_prefix_u16(b: Seq<u8>, t: int, pos: int)
    requires
        0 <= pos <= t <= b.len(),
    ensures
        prefix_faithful(spec_read_u16(b, pos), spec_read_u16(b.subrange(0, t), pos), t),
{
}

/// Reading a 32-bit integer is prefix-faithful.
pub proof fn lemma_prefix_u32(b: Seq<u8>, t: int, pos: int)
    requires
        0 <= pos <= t <= b.len(),
    ensures
        prefix_faithful(spec_read_u32(b, pos), spec_read_u32(b.subrange(0, t), pos), t),
{
}

/// Reading a signed 16-bit integer is prefix-faithful.
pub proof fn lemma_prefix_i16(b: Seq<u8>, t: int, pos: int)
    requires
        0 <= pos <= t <= b.len(),
    ensures
        prefix_faithful(spec_read_i16(b, pos), spec_read_i16(b.subrange(0, t), pos), t),
{
    lemma_prefix_u16(b, t, pos);
}

/// Reading a position vector is prefix-faithful.
pub proof fn lemma_prefix_vec3(b: Seq<u8>, t: int, pos: int)
    requires
        0 <= pos <= t <= b.len(),
    ensures
        prefix_faithful(spec_read_vec3(b, pos), spec_read_vec3(b.subrange(0, t), pos), t),
{
    lemma_prefix_u32(b, t, pos);
    match spec_read_u32(b, pos) {
        Err(_) => {},
        Ok((_, p1)) => {
            if p1 <= t {
                lemma_prefix_u32(b, t, p1);
                match spec_read_u32(b, p1) {
                    Err(_) => {},
                    Ok((_, p2)) => {
                        if p2 <= t {
                            lemma_prefix_u32(b, t, p2);
                        }
                    },
                }
            }
        },
    }
}

/// Reading a name is prefix-faithful.
pub proof fn lemma_prefix_name(b: Seq<u8>, t: int, pos: int)
    requires
        0 <= pos <= t <= b.len(),
    ensures
        prefix_faithful(spec_read_name(b, pos), spec_read_name(b.subrange(0, t), pos), t),
{
    let c = b.subrange(0, t);
    lemma_find_nul_props(b, pos);
    match find_nul(b, pos) {
        None => {},
        Some(i) => {
            if i + 1 <= t {
                lemma_find_nul_at(c, pos, i);
                assert(c.subrange(pos, i) =~= b.subrange(pos, i));
            } else {
                assert(forall|j: int| pos <= j < t ==> c[j] != 0);
                lemma_find_nul_none(c, pos);
            }
        },
    }
}

/// Reading a bone record is prefix-faithful.
pub proof fn lemma_prefix_bone(b: Seq<u8>, t: int, pos: int)
    requires
        0 <= pos <= t <= b.len(),
    ensures
        prefix_faithful(spec_read_bone(b, pos), spec_read_bone(b.subrange(0, t), pos), t),
{
    if pos + 5 <= b.len() {
        lemma_read_name_bounds(b, pos + 5);
    }
    lemma_prefix_u8(b, t, pos);
    if pos + 1 <= t {
        lemma_prefix_u8(b, t, pos + 1);
        if pos + 2 <= t {
            lemma_prefix_u8(b, t, pos + 2);
            if pos + 3 <= t {
                lemma_prefix_u8(b, t, pos + 3);
                if pos + 4 <= t {
                    lemma_prefix_u8(b, t, pos + 4);
                    if pos + 5 <= t {
                        lemma_prefix_name(b, t, pos + 5);
                    }
                }
            }
        }
    }
}

/// Reading a bone list is prefix-faithful.
pub proof fn lemma_prefix_bones(b: Seq<u8>, t: int, pos: int, count: nat)
    requires
        0 <= pos <= t <= b.len(),
    ensures
        prefix_faithful(
            spec_read_bones(b, pos, count),
            spec_read_bones(b.subrange(0, t), pos, count),
            t,
        ),
    decreases count,
{
    if count > 0 {
        lemma_prefix_bone(b, t, pos);
        lemma_read_bone_bounds(b, pos);
        match spec_read_bone(b, pos) {
            Err(_) => {},
            Ok((_, p1)) => {
                if p1 <= t {
                    lemma_prefix_bones(b, t, p1, (count - 1) as nat);
                    lemma_read_bones_bounds(b, p1, (count - 1) as nat);
                } else {
                    lemma_read_bones_bounds(b, p1, (count - 1) as nat);
                }
            },
        }
    }
}

/// Reading a position table is prefix-faithful.
pub proof fn lemma_prefix_vec3s(b: Seq<u8>, t: int, pos: int, count: nat)
    requires
        0 <= pos <= t <= b.len(),
    ensures
        prefix_faithful(
            spec_read_vec3s(b, pos, count),
            spec_read_vec3s(b.subrange(0, t), pos, count),
            t,
        ),
    decreases count,
{
    if count > 0 {
        lemma_prefix_vec3(b, t, pos);
        match spec_read_vec3(b, pos) {
            Err(_) => {},
            Ok((_, p1)) => {
                lemma_read_vec3s_bounds(b, p1, (count - 1) as nat);
                if p1 <= t {
                    lemma_prefix_vec3s(b, t, p1, (count - 1) as nat);
                }
            },
        }
    }
}

/// Reading a parent-id table is prefix-faithful.
pub proof fn lemma_prefix_i16s(b: Seq<u8>, t: int, pos: int, count: nat)
    requires
        0 <= pos <= t <= b.len(),
    ensures
        prefix_faithful(
            spec_read_i16s(b, pos, count),
            spec_read_i16s(b.subrange(0, t), pos, count),
            t,
        ),
    decreases count,
{
    if count > 0 {
        lemma_prefix_i16(b, t, pos);
        match spec_read_i16(b, pos) {
            Err(_) => {},
            Ok((_, p1)) => {
                lemma_read_i16s_bounds(b, p1, (count - 1) as nat);
                if p1 <= t {
                    lemma_prefix_i16s(b, t, p1, (count - 1) as nat);
                }
            },
        }
    }
}

/// Reading a name list is prefix-faithful.
pub proof fn lemma_prefix_names(b: Seq<u8>, t: int, pos: int, count: nat)
    requires
        0 <= pos <= t <= b.len(),
    ensures
        prefix_faithful(
            spec_read_names(b, pos, count),
            spec_read_names(b.subrange(0, t), pos, count),
            t,
        ),
    decreases count,
{
    if count > 0 {
        lemma_prefix_name(b, t, pos);
        lemma_read_name_bounds(b, pos);
        match spec_read_name(b, pos) {
            Err(_) => {},
            Ok((_, p1)) => {
                lemma_read_names_bounds(b, p1, (count - 1) as nat);
                if p1 <= t {
                    lemma_prefix_names(b, t, p1, (count - 1) as nat);
                }
            },
        }
    }
}

/// Reading a name table is prefix-faithful.
pub proof fn lemma_prefix_name_table(b: Seq<u8>, t: int, pos: int)
    requires
        0 <= pos <= t <= b.len(),
    ensures
        prefix_faithful(
            spec_read_name_table(b, pos),
            spec_read_name_table(b.subrange(0, t), pos),
            t,
        ),
{
    lemma_prefix_u32(b, t, pos);
    match spec_read_u32(b, pos) {
        Err(_) => {},
        Ok((c, p1)) => {
            lemma_read_names_bounds(b, p1, c as nat);
            if p1 <= t {
                lemma_prefix_names(b, t, p1, c as nat);
            }
        },
    }
}

/// Reading a skeleton is prefix-faithful.
pub proof fn lemma_prefix_skeleton(b: Seq<u8>, t: int, pos: int, skel_idx: int)
    requires
        0 <= pos <= t <= b.len(),
    ensures
        prefix_faithful(
            spec_read_skeleton(b, pos, skel_idx),
            spec_read_skeleton(b.subrange(0, t), pos, skel_idx),
            t,
        ),
{
    lemma_prefix_name(b, t, pos);
    lemma_read_name_bounds(b, pos);
    match spec_read_name(b, pos) {
        Err(_) => {},
        Ok((_, p1)) => match spec_read_u32(b, p1) {
            Err(_) => {},
            Ok((n, p2)) => {
                lemma_read_bones_bounds(b, p2, n as nat);
                match spec_read_bones(b, p2, n as nat) {
                    Err(_) => {},
                    Ok((bones, p3)) => match spec_check_refs(bones, skel_idx, 0) {
                        Some(_) => {},
                        None => {
                            lemma_read_vec3s_bounds(b, p3, n as nat);
                            match spec_read_vec3s(b, p3, n as nat) {
                                Err(_) => {},
                                Ok((_, p4)) => {
                                    lemma_read_i16s_bounds(b, p4, n as nat);
                                    match spec_read_i16s(b, p4, n as nat) {
                                        Err(_) => {},
                                        Ok((_, p5)) => {
                                            lemma_read_name_table_bounds(b, p5);
                                            match spec_read_name_table(b, p5) {
                                                Err(_) => {},
                                                Ok((_, p6)) => {
                                                    lemma_read_name_table_bounds(b, p6);
                                                    if p1 <= t {
                                                        lemma_prefix_u32(b, t, p1);
                                                        if p2 <= t {
                                                            lemma_prefix_bones(b, t, p2, n as nat);
                                                            if p3 <= t {
                                                                lemma_prefix_vec3s(
                                                                    b,
                                                                    t,
                                                                    p3,
                                                                    n as nat,
                                                                );
                                                                if p4 <= t {
                                                                    lemma_prefix_i16s(
                                                                        b,
                                                                        t,
                                                                        p4,
                                                                        n as nat,
                                                                    );
                                                                    if p5 <= t {
                                                                        lemma_prefix_name_table(
                                                                            b,
                                                                            t,
                                                                            p5,
                                                                        );
                                                                        if p6 <= t {
                                                                            lemma_prefix_name_table(
                                                                                b,
                                                                                t,
                                                                                p6,
                                                                            );
                                                                        }
                                                                    }
                                                                }
                                                            }
                                                        }
                                                    }
                                                },
                                            }
                                        },
                                    }
                                },
                            }
                        },
                    },
                }
            },
        },
    }
}

/// Reading a skeleton sequence is prefix-faithful.
pub proof fn lemma_prefix_skeletons(b: Seq<u8>, t: int, pos: int, first_idx: int, count: nat)
    requires
        0 <= pos <= t <= b.len(),
    ensures
        prefix_faithful(
            spec_read_skeletons(b, pos, first_idx, count),
            spec_read_skeletons(b.subrange(0, t), pos, first_idx, count),
            t,
        ),
    decreases count,
{
    if count > 0 {
        lemma_prefix_skeleton(b, t, pos, first_idx);
        lemma_read_skeleton_bounds(b, pos, first_idx);
        match spec_read_skeleton(b, pos, first_idx) {
            Err(_) => {},
            Ok((_, p1)) => {
                lemma_read_skeletons_bounds(b, p1, first_idx + 1, (count - 1) as nat);
                if p1 <= t {
                    lemma_prefix_skeletons(b, t, p1, first_idx + 1, (count - 1) as nat);
                }
            },
        }
    }
}

/// Reading the whole database is prefix-faithful.
pub proof fn lemma_prefix_database(b: Seq<u8>, t: int)
    requires
        0 <= t <= b.len(),
    ensures
        prefix_faithful(spec_read_database(b, 0), spec_read_database(b.subrange(0, t), 0), t),
{
    lemma_prefix_u32(b, t, 0);
    match spec_read_u32(b, 0) {
        Err(_) => {},
        Ok((_, p1)) => match spec_read_u32(b, p1) {
            Err(_) => {},
            Ok((k, p2)) => {
                lemma_read_skeletons_bounds(b, p2, 0, k as nat);
                if p1 <= t {
                    lemma_prefix_u32(b, t, p1);
                    if p2 <= t {
                        lemma_prefix_skeletons(b, t, p2, 0, k as nat);
                    }
                }
            },
        },
    }
}

/// Cutting a decodable buffer anywhere short of the bytes its decode
/// consumes makes every decode of the cut buffer fail with a
/// truncated-input error — never succeed.
pub proof fn lemma_truncation_detected(b: Seq<u8>, t: int)
    requires
        0 <= t <= b.len(),
        spec_read_database(b, 0) is Ok,
        t < spec_consumed(b),
    ensures
        spec_read_database(b.subrange(0, t), 0) matches Err(e) && e.is_truncated(),
        spec_decode(b.subrange(0, t)) matches Err(e) && e.is_truncated(),
{
    lemma_prefix_database(b, t);
}

} // verus!

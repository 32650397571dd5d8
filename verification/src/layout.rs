//! Byte-exact serialization of the scene for the GPU kernel.
//!
//! The kernel's data contract fixes every offset: each buffer starts
//! with a four-byte little-endian element count padded to sixteen
//! bytes, followed by fixed-size records. A hypersphere record is 32
//! bytes (center, radius, material, eight bytes of padding), a
//! hyperplane record 48 bytes (point, normal, material, twelve bytes
//! of padding), a material record 32 bytes (base color, four bytes of
//! padding, emissive color, strength). A buffer always holds room for
//! at least one record, zero-filled if the sequence is empty. The
//! camera record is a fixed 96 bytes. Any reordering or repadding here
//! would break the kernel, so each function's contract pins every byte.

use vstd::prelude::*;
use crate::scene::{HyperPlane, HyperSphere, Material};

verus! {

/// The four bytes of `x`, least significant first.
pub open spec fn le4(x: u32) -> Seq<u8> {
    seq![
        (x & 0xff) as u8,
        ((x >> 8) & 0xff) as u8,
        ((x >> 16) & 0xff) as u8,
        ((x >> 24) & 0xff) as u8,
    ]
}

/// `n` zero bytes.
pub open spec fn zero_bytes(n: int) -> Seq<u8> {
    Seq::new(n as nat, |i: int| 0u8)
}

/// The sixteen-byte buffer header: the element count, then padding.
pub open spec fn header_bytes(count: u32) -> Seq<u8> {
    le4(count) + zero_bytes(12)
}

/// One serialized hypersphere record (32 bytes).
pub open spec fn sphere_record(s: HyperSphere) -> Seq<u8> {
    le4(s.center_x) + le4(s.center_y) + le4(s.center_z) + le4(s.center_w) + le4(s.radius)
        + le4(s.material) + zero_bytes(8)
}

/// One serialized hyperplane record (48 bytes).
pub open spec fn plane_record(p: HyperPlane) -> Seq<u8> {
    le4(p.point_x) + le4(p.point_y) + le4(p.point_z) + le4(p.point_w) + le4(p.normal_x) + le4(
        p.normal_y,
    ) + le4(p.normal_z) + le4(p.normal_w) + le4(p.material) + zero_bytes(12)
}

/// One serialized material record (32 bytes).
pub open spec fn material_record(m: Material) -> Seq<u8> {
    le4(m.base_r) + le4(m.base_g) + le4(m.base_b) + zero_bytes(4) + le4(m.emissive_r) + le4(
        m.emissive_g,
    ) + le4(m.emissive_b) + le4(m.emission_strength)
}

/// The concatenation of the records of a sphere sequence.
pub open spec fn sphere_records(s: Seq<HyperSphere>) -> Seq<u8>
    decreases s.len(),
{
    if s.len() == 0 {
        Seq::empty()
    } else {
        sphere_records(s.drop_last()) + sphere_record(s.last())
    }
}

/// The concatenation of the records of a plane sequence.
pub open spec fn plane_records(s: Seq<HyperPlane>) -> Seq<u8>
    decreases s.len(),
{
    if s.len() == 0 {
        Seq::empty()
    } else {
        plane_records(s.drop_last()) + plane_record(s.last())
    }
}

/// The concatenation of the records of a material sequence.
pub open spec fn material_records(s: Seq<Material>) -> Seq<u8>
    decreases s.len(),
{
    if s.len() == 0 {
        Seq::empty()
    } else {
        material_records(s.drop_last()) + material_record(s.last())
    }
}

/// The whole sphere buffer: header, records, and one zero-filled
/// record's room when the sequence is empty.
pub open spec fn sphere_payload_model(s: Seq<HyperSphere>) -> Seq<u8> {
    if s.len() == 0 {
        header_bytes(0) + zero_bytes(32)
    } else {
        header_bytes(s.len() as u32) + sphere_records(s)
    }
}

/// The whole plane buffer.
pub open spec fn plane_payload_model(s: Seq<HyperPlane>) -> Seq<u8> {
    if s.len() == 0 {
        header_bytes(0) + zero_bytes(48)
    } else {
        header_bytes(s.len() as u32) + plane_records(s)
    }
}

/// The whole material buffer.
pub open spec fn material_payload_model(s: Seq<Material>) -> Seq<u8> {
    if s.len() == 0 {
        header_bytes(0) + zero_bytes(32)
    } else {
        header_bytes(s.len() as u32) + material_records(s)
    }
}

/// Append the four little-endian bytes of `x`.
fn push_u32(v: &mut Vec<u8>, x: u32)
    ensures
        final(v)@ == old(v)@ + le4(x),
{
    v.push((x & 0xff) as u8);
    v.push(((x >> 8) & 0xff) as u8);
    v.push(((x >> 16) & 0xff) as u8);
    v.push(((x >> 24) & 0xff) as u8);
    proof {
        assert(v@ =~= old(v)@ + le4(x));
    }
}

/// Append `n` zero bytes.
fn push_zeros(v: &mut Vec<u8>, n: usize)
    ensures
        final(v)@ == old(v)@ + zero_bytes(n as int),
{
    let mut i: usize = 0;
    while i < n
        invariant
            i <= n,
            v@ == old(v)@ + zero_bytes(i as int),
        decreases n - i,
    {
        v.push(0u8);
        i = i + 1;
        proof {
            assert(v@ =~= old(v)@ + zero_bytes(i as int));
        }
    }
}

/// Append the sixteen-byte header.
fn push_header(v: &mut Vec<u8>, count: u32)
    ensures
        final(v)@ == old(v)@ + header_bytes(count),
{
    push_u32(v, count);
    push_zeros(v, 12);
    proof {
        assert(v@ =~= old(v)@ + header_bytes(count));
    }
}

/// Serialize a sphere sequence into its exact buffer bytes.
pub fn sphere_payload(s: &Vec<HyperSphere>) -> (r: Vec<u8>)
    ensures
        r@ == sphere_payload_model(s@),
        s@.len() > 0 ==> r@.len() == 16 + 32 * s@.len(),
        s@.len() == 0 ==> r@.len() == 48,
{
    let mut v: Vec<u8> = Vec::new();
    if s.len() == 0 {
        push_header(&mut v, 0);
        push_zeros(&mut v, 32);
        proof {
            assert(v@ =~= sphere_payload_model(s@));
        }
        v
    } else {
        push_header(&mut v, s.len() as u32);
        let mut i: usize = 0;
        while i < s.len()
            invariant
                i <= s@.len(),
                v@ == header_bytes(s@.len() as u32) + sphere_records(s@.subrange(0, i as int)),
                v@.len() == 16 + 32 * i,
            decreases s@.len() - i,
        {
            let e: HyperSphere = s[i];
            push_u32(&mut v, e.center_x);
            push_u32(&mut v, e.center_y);
            push_u32(&mut v, e.center_z);
            push_u32(&mut v, e.center_w);
            push_u32(&mut v, e.radius);
            push_u32(&mut v, e.material);
            push_zeros(&mut v, 8);
            proof {
                let pre = s@.subrange(0, i as int);
                let post = s@.subrange(0, i + 1 as int);
                assert(post.drop_last() =~= pre);
                assert(post.last() == s@[i as int]);
                assert(v@ =~= header_bytes(s@.len() as u32) + sphere_records(post));
            }
            i = i + 1;
        }
        proof {
            assert(s@.subrange(0, s@.len() as int) =~= s@);
        }
        v
    }
}

/// Serialize a plane sequence into its exact buffer bytes.
pub fn plane_payload(s: &Vec<HyperPlane>) -> (r: Vec<u8>)
    ensures
        r@ == plane_payload_model(s@),
        s@.len() > 0 ==> r@.len() == 16 + 48 * s@.len(),
        s@.len() == 0 ==> r@.len() == 64,
{
    let mut v: Vec<u8> = Vec::new();
    if s.len() == 0 {
        push_header(&mut v, 0);
        push_zeros(&mut v, 48);
        proof {
            assert(v@ =~= plane_payload_model(s@));
        }
        v
    } else {
        push_header(&mut v, s.len() as u32);
        let mut i: usize = 0;
        while i < s.len()
            invariant
                i <= s@.len(),
                v@ == header_bytes(s@.len() as u32) + plane_records(s@.subrange(0, i as int)),
                v@.len() == 16 + 48 * i,
            decreases s@.len() - i,
        {
            let e: HyperPlane = s[i];
            push_u32(&mut v, e.point_x);
            push_u32(&mut v, e.point_y);
            push_u32(&mut v, e.point_z);
            push_u32(&mut v, e.point_w);
            push_u32(&mut v, e.normal_x);
            push_u32(&mut v, e.normal_y);
            push_u32(&mut v, e.normal_z);
            push_u32(&mut v, e.normal_w);
            push_u32(&mut v, e.material);
            push_zeros(&mut v, 12);
            proof {
                let pre = s@.subrange(0, i as int);
                let post = s@.subrange(0, i + 1 as int);
                assert(post.drop_last() =~= pre);
                assert(post.last() == s@[i as int]);
                assert(v@ =~= header_bytes(s@.len() as u32) + plane_records(post));
            }
            i = i + 1;
        }
        proof {
            assert(s@.subrange(0, s@.len() as int) =~= s@);
        }
        v
    }
}

/// Serialize a material sequence into its exact buffer bytes.
pub fn material_payload(s: &Vec<Material>) -> (r: Vec<u8>)
    ensures
        r@ == material_payload_model(s@),
        s@.len() > 0 ==> r@.len() == 16 + 32 * s@.len(),
        s@.len() == 0 ==> r@.len() == 48,
{
    let mut v: Vec<u8> = Vec::new();
    if s.len() == 0 {
        push_header(&mut v, 0);
        push_zeros(&mut v, 32);
        proof {
            assert(v@ =~= material_payload_model(s@));
        }
        v
    } else {
        push_header(&mut v, s.len() as u32);
        let mut i: usize = 0;
        while i < s.len()
            invariant
                i <= s@.len(),
                v@ == header_bytes(s@.len() as u32) + material_records(
                    s@.subrange(0, i as int),
                ),
                v@.len() == 16 + 32 * i,
            decreases s@.len() - i,
        {
            let e: Material = s[i];
            push_u32(&mut v, e.base_r);
            push_u32(&mut v, e.base_g);
            push_u32(&mut v, e.base_b);
            push_zeros(&mut v, 4);
            push_u32(&mut v, e.emissive_r);
            push_u32(&mut v, e.emissive_g);
            push_u32(&mut v, e.emissive_b);
            push_u32(&mut v, e.emission_strength);
            proof {
                let pre = s@.subrange(0, i as int);
                let post = s@.subrange(0, i + 1 as int);
                assert(post.drop_last() =~= pre);
                assert(post.last() == s@[i as int]);
                assert(v@ =~= header_bytes(s@.len() as u32) + material_records(post));
            }
            i = i + 1;
        }
        proof {
            assert(s@.subrange(0, s@.len() as int) =~= s@);
        }
        v
    }
}

/// The camera record handed to the kernel: position, the three derived
/// basis directions, viewing limits and counts, all scalars as float
/// bit patterns except the two counts.
#[derive(Clone, Copy, PartialEq, Eq, Structural, Debug)]
pub struct KernelCamera {
    pub pos_x: u32,
    pub pos_y: u32,
    pub pos_z: u32,
    pub pos_w: u32,
    pub fwd_x: u32,
    pub fwd_y: u32,
    pub fwd_z: u32,
    pub fwd_w: u32,
    pub right_x: u32,
    pub right_y: u32,
    pub right_z: u32,
    pub right_w: u32,
    pub up_x: u32,
    pub up_y: u32,
    pub up_z: u32,
    pub up_w: u32,
    pub fov: u32,
    pub min_distance: u32,
    pub max_distance: u32,
    pub bounce_count: u32,
    pub sample_count: u32,
}

/// The camera's 96 exact bytes.
pub open spec fn camera_payload_model(c: KernelCamera) -> Seq<u8> {
    le4(c.pos_x) + le4(c.pos_y) + le4(c.pos_z) + le4(c.pos_w) + le4(c.fwd_x) + le4(c.fwd_y)
        + le4(c.fwd_z) + le4(c.fwd_w) + le4(c.right_x) + le4(c.right_y) + le4(c.right_z) + le4(
        c.right_w,
    ) + le4(c.up_x) + le4(c.up_y) + le4(c.up_z) + le4(c.up_w) + le4(c.fov) + le4(
        c.min_distance,
    ) + le4(c.max_distance) + le4(c.bounce_count) + le4(c.sample_count) + zero_bytes(12)
}

/// Serialize the camera record into its exact 96 bytes.
pub fn camera_payload(c: &KernelCamera) -> (r: Vec<u8>)
    ensures
        r@ == camera_payload_model(*c),
        r@.len() == 96,
{
    let mut v: Vec<u8> = Vec::new();
    push_u32(&mut v, c.pos_x);
    push_u32(&mut v, c.pos_y);
    push_u32(&mut v, c.pos_z);
    push_u32(&mut v, c.pos_w);
    push_u32(&mut v, c.fwd_x);
    push_u32(&mut v, c.fwd_y);
    push_u32(&mut v, c.fwd_z);
    push_u32(&mut v, c.fwd_w);
    push_u32(&mut v, c.right_x);
    push_u32(&mut v, c.right_y);
    push_u32(&mut v, c.right_z);
    push_u32(&mut v, c.right_w);
    push_u32(&mut v, c.up_x);
    push_u32(&mut v, c.up_y);
    push_u32(&mut v, c.up_z);
    push_u32(&mut v, c.up_w);
    push_u32(&mut v, c.fov);
    push_u32(&mut v, c.min_distance);
    push_u32(&mut v, c.max_distance);
    push_u32(&mut v, c.bounce_count);
    push_u32(&mut v, c.sample_count);
    push_zeros(&mut v, 12);
    proof {
        assert(v@ =~= camera_payload_model(*c));
    }
    v
}

} // verus!

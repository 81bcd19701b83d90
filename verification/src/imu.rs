//! Inertial measurements: vectors, orientation, and the bundle of the four
//! readings that an inertial unit may deliver with a frame.
//!
//! Every real number is held as the bit pattern of its IEEE 754 value, 64 bits
//! wide unless said otherwise, and is written to the wire as that pattern.

use crate::fixed::{
    fixed64_field, lemma_fixed64_field_complete, lemma_fixed64_field_sound, parse_fixed64_field,
    put_fixed64_field, take_fixed64_field,
};
use crate::wire::{
    above_at, at, has_key, lemma_at_all, lemma_at_bounds, lemma_at_empty, lemma_at_split,
    lemma_at_whole, lemma_len_field_complete, lemma_len_field_sound, len_field, not_below,
    parse_len_field, peek_key, put_len_field, take_len_field,
};
use vstd::prelude::*;
use vstd::slice::slice_subrange;

verus! {

/// The bit pattern of `1.0`.
pub const ONE_BITS: u64 = 0x3FF0_0000_0000_0000;

/// A vector of three components.
#[derive(Clone, Copy, Debug, PartialEq, Eq)]
pub struct Vec3 {
    pub x: u64,
    pub y: u64,
    pub z: u64,
}

/// A rotation as a quaternion. Nothing here normalises it.
#[derive(Clone, Copy, Debug, PartialEq, Eq)]
pub struct ImuQuaternion {
    pub x: u64,
    pub y: u64,
    pub z: u64,
    pub w: u64,
}

/// What an inertial unit delivered with one frame; each reading may be absent.
#[derive(Clone, Copy, Debug, PartialEq, Eq)]
pub struct ImuValues {
    pub accel: Option<Vec3>,
    pub gyro: Option<Vec3>,
    pub mag: Option<Vec3>,
    pub quaternion: Option<ImuQuaternion>,
}

impl Default for Vec3 {
    /// The zero vector.
    fn default() -> (v: Vec3)
        ensures
            v == (Vec3 { x: 0, y: 0, z: 0 }),
    {
        Vec3 { x: 0, y: 0, z: 0 }
    }
}

impl Default for ImuQuaternion {
    /// The identity rotation.
    fn default() -> (q: ImuQuaternion)
        ensures
            q == (ImuQuaternion { x: 0, y: 0, z: 0, w: ONE_BITS }),
    {
        ImuQuaternion { x: 0, y: 0, z: 0, w: ONE_BITS }
    }
}

impl Default for ImuValues {
    /// No reading at all.
    fn default() -> (v: ImuValues)
        ensures
            v == (ImuValues { accel: None, gyro: None, mag: None, quaternion: None }),
    {
        ImuValues { accel: None, gyro: None, mag: None, quaternion: None }
    }
}

/// Key of field 1, 64 bits.
pub const KEY_X: u8 = 0x09;

/// Key of field 2, 64 bits.
pub const KEY_Y: u8 = 0x11;

/// Key of field 3, 64 bits.
pub const KEY_Z: u8 = 0x19;

/// Key of field 4, 64 bits.
pub const KEY_W: u8 = 0x21;

/// Key of field 1, length-delimited.
pub const KEY_ACCEL: u8 = 0x0A;

/// Key of field 2, length-delimited.
pub const KEY_GYRO: u8 = 0x12;

/// Key of field 3, length-delimited.
pub const KEY_MAG: u8 = 0x1A;

/// Key of field 4, length-delimited.
pub const KEY_QUATERNION: u8 = 0x22;

/// A vector on the wire: its three components, each a 64-bit field.
pub open spec fn vec3_bytes(v: Vec3) -> Seq<u8> {
    fixed64_field(KEY_X, v.x) + fixed64_field(KEY_Y, v.y) + fixed64_field(KEY_Z, v.z)
}

/// The vector that `p` holds, where `p` is one vector and nothing more.
#[verifier::opaque]
pub open spec fn parse_vec3(p: Seq<u8>) -> Option<Vec3> {
    match parse_fixed64_field(p, 0, KEY_X) {
        Some((x, a)) => match parse_fixed64_field(p, a, KEY_Y) {
            Some((y, b)) => match parse_fixed64_field(p, b, KEY_Z) {
                Some((z, c)) => if c == p.len() {
                    Some(Vec3 { x, y, z })
                } else {
                    None
                },
                None => None,
            },
            None => None,
        },
        None => None,
    }
}

/// A vector's bytes are read back as that vector.
pub proof fn lemma_vec3_complete(v: Vec3)
    ensures
        parse_vec3(vec3_bytes(v)) == Some(v),
{
    reveal(parse_vec3);
    let p = vec3_bytes(v);
    let fx = fixed64_field(KEY_X, v.x);
    let fy = fixed64_field(KEY_Y, v.y);
    let fz = fixed64_field(KEY_Z, v.z);
    lemma_at_whole(p);
    lemma_at_split(p, 0, fx + fy, fz);
    lemma_at_split(p, 0, fx, fy);
    lemma_fixed64_field_complete(p, 0, KEY_X, v.x);
    lemma_fixed64_field_complete(p, 9, KEY_Y, v.y);
    lemma_fixed64_field_complete(p, 18, KEY_Z, v.z);
}

/// Bytes that read as a vector are that vector's bytes.
pub proof fn lemma_vec3_sound(p: Seq<u8>)
    requires
        parse_vec3(p) is Some,
    ensures
        p == vec3_bytes(parse_vec3(p).unwrap()),
{
    reveal(parse_vec3);
    let v = parse_vec3(p).unwrap();
    let fx = fixed64_field(KEY_X, v.x);
    let fy = fixed64_field(KEY_Y, v.y);
    let fz = fixed64_field(KEY_Z, v.z);
    lemma_fixed64_field_sound(p, 0, KEY_X);
    lemma_fixed64_field_sound(p, 9, KEY_Y);
    lemma_fixed64_field_sound(p, 18, KEY_Z);
    lemma_at_split(p, 0, fx, fy);
    lemma_at_split(p, 0, fx + fy, fz);
    lemma_at_all(p, vec3_bytes(v));
}

impl Vec3 {
    /// Appends the vector's bytes to `buf`.
    pub fn encode(&self, buf: &mut Vec<u8>)
        ensures
            final(buf)@ == old(buf)@ + vec3_bytes(*self),
    {
        put_fixed64_field(buf, KEY_X, self.x);
        put_fixed64_field(buf, KEY_Y, self.y);
        put_fixed64_field(buf, KEY_Z, self.z);
        assert(final(buf)@ =~= old(buf)@ + vec3_bytes(*self));
    }

    /// Reads the vector that `bytes` holds; `None` unless `bytes` is exactly
    /// what `encode` writes for some vector.
    pub fn decode(bytes: &[u8]) -> (res: Option<Vec3>)
        ensures
            res == parse_vec3(bytes@),
            res matches Some(v) ==> bytes@ == vec3_bytes(v),
            res is None ==> forall|v: Vec3| bytes@ != vec3_bytes(v),
    {
        proof {
            reveal(parse_vec3);
            if parse_vec3(bytes@) is Some {
                lemma_vec3_sound(bytes@);
            } else {
                assert forall|v: Vec3| bytes@ != vec3_bytes(v) by {
                    lemma_vec3_complete(v);
                }
            }
        }
        let (x, a) = match take_fixed64_field(bytes, 0, KEY_X) {
            Some(r) => r,
            None => { return None; },
        };
        let (y, b) = match take_fixed64_field(bytes, a, KEY_Y) {
            Some(r) => r,
            None => { return None; },
        };
        let (z, c) = match take_fixed64_field(bytes, b, KEY_Z) {
            Some(r) => r,
            None => { return None; },
        };
        if c == bytes.len() {
            Some(Vec3 { x, y, z })
        } else {
            None
        }
    }
}

/// A quaternion on the wire: its four components, each a 64-bit field.
pub open spec fn quaternion_bytes(q: ImuQuaternion) -> Seq<u8> {
    fixed64_field(KEY_X, q.x) + fixed64_field(KEY_Y, q.y) + fixed64_field(KEY_Z, q.z)
        + fixed64_field(KEY_W, q.w)
}

/// The quaternion that `p` holds, where `p` is one quaternion and nothing more.
#[verifier::opaque]
pub open spec fn parse_quaternion(p: Seq<u8>) -> Option<ImuQuaternion> {
    match parse_fixed64_field(p, 0, KEY_X) {
        Some((x, a)) => match parse_fixed64_field(p, a, KEY_Y) {
            Some((y, b)) => match parse_fixed64_field(p, b, KEY_Z) {
                Some((z, c)) => match parse_fixed64_field(p, c, KEY_W) {
                    Some((w, d)) => if d == p.len() {
                        Some(ImuQuaternion { x, y, z, w })
                    } else {
                        None
                    },
                    None => None,
                },
                None => None,
            },
            None => None,
        },
        None => None,
    }
}

/// A quaternion's bytes are read back as that quaternion.
pub proof fn lemma_quaternion_complete(q: ImuQuaternion)
    ensures
        parse_quaternion(quaternion_bytes(q)) == Some(q),
{
    reveal(parse_quaternion);
    let p = quaternion_bytes(q);
    let fx = fixed64_field(KEY_X, q.x);
    let fy = fixed64_field(KEY_Y, q.y);
    let fz = fixed64_field(KEY_Z, q.z);
    let fw = fixed64_field(KEY_W, q.w);
    lemma_at_whole(p);
    lemma_at_split(p, 0, fx + fy + fz, fw);
    lemma_at_split(p, 0, fx + fy, fz);
    lemma_at_split(p, 0, fx, fy);
    lemma_fixed64_field_complete(p, 0, KEY_X, q.x);
    lemma_fixed64_field_complete(p, 9, KEY_Y, q.y);
    lemma_fixed64_field_complete(p, 18, KEY_Z, q.z);
    lemma_fixed64_field_complete(p, 27, KEY_W, q.w);
}

/// Bytes that read as a quaternion are that quaternion's bytes.
pub proof fn lemma_quaternion_sound(p: Seq<u8>)
    requires
        parse_quaternion(p) is Some,
    ensures
        p == quaternion_bytes(parse_quaternion(p).unwrap()),
{
    reveal(parse_quaternion);
    let q = parse_quaternion(p).unwrap();
    let fx = fixed64_field(KEY_X, q.x);
    let fy = fixed64_field(KEY_Y, q.y);
    let fz = fixed64_field(KEY_Z, q.z);
    let fw = fixed64_field(KEY_W, q.w);
    lemma_fixed64_field_sound(p, 0, KEY_X);
    lemma_fixed64_field_sound(p, 9, KEY_Y);
    lemma_fixed64_field_sound(p, 18, KEY_Z);
    lemma_fixed64_field_sound(p, 27, KEY_W);
    lemma_at_split(p, 0, fx, fy);
    lemma_at_split(p, 0, fx + fy, fz);
    lemma_at_split(p, 0, fx + fy + fz, fw);
    lemma_at_all(p, quaternion_bytes(q));
}

impl ImuQuaternion {
    /// Appends the quaternion's bytes to `buf`.
    pub fn encode(&self, buf: &mut Vec<u8>)
        ensures
            final(buf)@ == old(buf)@ + quaternion_bytes(*self),
    {
        put_fixed64_field(buf, KEY_X, self.x);
        put_fixed64_field(buf, KEY_Y, self.y);
        put_fixed64_field(buf, KEY_Z, self.z);
        put_fixed64_field(buf, KEY_W, self.w);
        assert(final(buf)@ =~= old(buf)@ + quaternion_bytes(*self));
    }

    /// Reads the quaternion that `bytes` holds; `None` unless `bytes` is
    /// exactly what `encode` writes for some quaternion.
    pub fn decode(bytes: &[u8]) -> (res: Option<ImuQuaternion>)
        ensures
            res == parse_quaternion(bytes@),
            res matches Some(q) ==> bytes@ == quaternion_bytes(q),
            res is None ==> forall|q: ImuQuaternion| bytes@ != quaternion_bytes(q),
    {
        proof {
            reveal(parse_quaternion);
            if parse_quaternion(bytes@) is Some {
                lemma_quaternion_sound(bytes@);
            } else {
                assert forall|q: ImuQuaternion| bytes@ != quaternion_bytes(q) by {
                    lemma_quaternion_complete(q);
                }
            }
        }
        let (x, a) = match take_fixed64_field(bytes, 0, KEY_X) {
            Some(r) => r,
            None => { return None; },
        };
        let (y, b) = match take_fixed64_field(bytes, a, KEY_Y) {
            Some(r) => r,
            None => { return None; },
        };
        let (z, c) = match take_fixed64_field(bytes, b, KEY_Z) {
            Some(r) => r,
            None => { return None; },
        };
        let (w, d) = match take_fixed64_field(bytes, c, KEY_W) {
            Some(r) => r,
            None => { return None; },
        };
        if d == bytes.len() {
            Some(ImuQuaternion { x, y, z, w })
        } else {
            None
        }
    }
}

/// A vector field that may be absent.
pub open spec fn opt_vec3_field(key: u8, o: Option<Vec3>) -> Seq<u8> {
    match o {
        Some(v) => len_field(key, vec3_bytes(v)),
        None => Seq::empty(),
    }
}

/// The vector field named `key` at `pos`, present exactly where `key` opens
/// what stands there.
pub open spec fn parse_opt_vec3_field(s: Seq<u8>, pos: int, key: u8) -> Option<
    (Option<Vec3>, int),
> {
    if has_key(s, pos, key) {
        match parse_len_field(s, pos, key) {
            Some((a, b)) => match parse_vec3(s.subrange(a, b)) {
                Some(v) => Some((Some(v), b)),
                None => None,
            },
            None => None,
        }
    } else {
        Some((None, pos))
    }
}

/// The field that stands at `pos` is read as its value, and the reading ends
/// behind it.
pub proof fn lemma_opt_vec3_complete(s: Seq<u8>, pos: int, key: u8, o: Option<Vec3>)
    requires
        at(s, pos, opt_vec3_field(key, o)),
        above_at(s, pos + opt_vec3_field(key, o).len(), key),
    ensures
        parse_opt_vec3_field(s, pos, key) == Some((o, pos + opt_vec3_field(key, o).len())),
        not_below(s, pos, key),
{
    if let Some(v) = o {
        lemma_len_field_complete(s, pos, key, vec3_bytes(v));
        lemma_vec3_complete(v);
    }
}

/// What is read at `pos` is the field of the value read, and the field ends
/// where the reading ended.
pub proof fn lemma_opt_vec3_sound(s: Seq<u8>, pos: int, key: u8)
    requires
        0 <= pos <= s.len(),
        parse_opt_vec3_field(s, pos, key) is Some,
    ensures
        at(s, pos, opt_vec3_field(key, parse_opt_vec3_field(s, pos, key).unwrap().0)),
        parse_opt_vec3_field(s, pos, key).unwrap().1 == pos + opt_vec3_field(
            key,
            parse_opt_vec3_field(s, pos, key).unwrap().0,
        ).len(),
{
    if has_key(s, pos, key) {
        let (a, b) = parse_len_field(s, pos, key).unwrap();
        lemma_len_field_sound(s, pos, key);
        lemma_vec3_sound(s.subrange(a, b));
    } else {
        lemma_at_empty(s, pos);
    }
}

/// Appends the vector field named `key` where `o` holds a vector.
pub fn put_opt_vec3_field(buf: &mut Vec<u8>, key: u8, o: &Option<Vec3>)
    ensures
        final(buf)@ == old(buf)@ + opt_vec3_field(key, *o),
{
    match o {
        Some(v) => {
            let mut payload: Vec<u8> = Vec::new();
            v.encode(&mut payload);
            assert(payload@ =~= vec3_bytes(*v));
            put_len_field(buf, key, payload.as_slice());
        },
        None => {
            assert(buf@ =~= buf@ + Seq::<u8>::empty());
        },
    }
}

/// Reads the vector field named `key` at `pos`, where one opens there.
pub fn take_opt_vec3_field(buf: &[u8], pos: usize, key: u8) -> (res: Option<
    (Option<Vec3>, usize),
>)
    ensures
        res is Some <==> parse_opt_vec3_field(buf@, pos as int, key) is Some,
        res matches Some((o, end)) ==> parse_opt_vec3_field(buf@, pos as int, key) == Some(
            (o, end as int),
        ),
{
    if peek_key(buf, pos, key) {
        match take_len_field(buf, pos, key) {
            Some((a, b)) => {
                proof {
                    lemma_len_field_sound(buf@, pos as int, key);
                }
                match Vec3::decode(slice_subrange(buf, a, b)) {
                    Some(v) => Some((Some(v), b)),
                    None => None,
                }
            },
            None => None,
        }
    } else {
        Some((None, pos))
    }
}

/// A quaternion field that may be absent.
pub open spec fn opt_quaternion_field(key: u8, o: Option<ImuQuaternion>) -> Seq<u8> {
    match o {
        Some(q) => len_field(key, quaternion_bytes(q)),
        None => Seq::empty(),
    }
}

/// The quaternion field named `key` at `pos`, present exactly where `key`
/// opens what stands there.
pub open spec fn parse_opt_quaternion_field(s: Seq<u8>, pos: int, key: u8) -> Option<
    (Option<ImuQuaternion>, int),
> {
    if has_key(s, pos, key) {
        match parse_len_field(s, pos, key) {
            Some((a, b)) => match parse_quaternion(s.subrange(a, b)) {
                Some(q) => Some((Some(q), b)),
                None => None,
            },
            None => None,
        }
    } else {
        Some((None, pos))
    }
}

/// The field that stands at `pos` is read as its value, and the reading ends
/// behind it.
pub proof fn lemma_opt_quaternion_complete(
    s: Seq<u8>,
    pos: int,
    key: u8,
    o: Option<ImuQuaternion>,
)
    requires
        at(s, pos, opt_quaternion_field(key, o)),
        above_at(s, pos + opt_quaternion_field(key, o).len(), key),
    ensures
        parse_opt_quaternion_field(s, pos, key) == Some(
            (o, pos + opt_quaternion_field(key, o).len()),
        ),
        not_below(s, pos, key),
{
    if let Some(q) = o {
        lemma_len_field_complete(s, pos, key, quaternion_bytes(q));
        lemma_quaternion_complete(q);
    }
}

/// What is read at `pos` is the field of the value read, and the field ends
/// where the reading ended.
pub proof fn lemma_opt_quaternion_sound(s: Seq<u8>, pos: int, key: u8)
    requires
        0 <= pos <= s.len(),
        parse_opt_quaternion_field(s, pos, key) is Some,
    ensures
        at(
            s,
            pos,
            opt_quaternion_field(key, parse_opt_quaternion_field(s, pos, key).unwrap().0),
        ),
        parse_opt_quaternion_field(s, pos, key).unwrap().1 == pos + opt_quaternion_field(
            key,
            parse_opt_quaternion_field(s, pos, key).unwrap().0,
        ).len(),
{
    if has_key(s, pos, key) {
        let (a, b) = parse_len_field(s, pos, key).unwrap();
        lemma_len_field_sound(s, pos, key);
        lemma_quaternion_sound(s.subrange(a, b));
    } else {
        lemma_at_empty(s, pos);
    }
}

/// Appends the quaternion field named `key` where `o` holds a quaternion.
pub fn put_opt_quaternion_field(buf: &mut Vec<u8>, key: u8, o: &Option<ImuQuaternion>)
    ensures
        final(buf)@ == old(buf)@ + opt_quaternion_field(key, *o),
{
    match o {
        Some(q) => {
            let mut payload: Vec<u8> = Vec::new();
            q.encode(&mut payload);
            assert(payload@ =~= quaternion_bytes(*q));
            put_len_field(buf, key, payload.as_slice());
        },
        None => {
            assert(buf@ =~= buf@ + Seq::<u8>::empty());
        },
    }
}

/// Reads the quaternion field named `key` at `pos`, where one opens there.
pub fn take_opt_quaternion_field(buf: &[u8], pos: usize, key: u8) -> (res: Option<
    (Option<ImuQuaternion>, usize),
>)
    ensures
        res is Some <==> parse_opt_quaternion_field(buf@, pos as int, key) is Some,
        res matches Some((o, end)) ==> parse_opt_quaternion_field(buf@, pos as int, key)
            == Some((o, end as int)),
{
    if peek_key(buf, pos, key) {
        match take_len_field(buf, pos, key) {
            Some((a, b)) => {
                proof {
                    lemma_len_field_sound(buf@, pos as int, key);
                }
                match ImuQuaternion::decode(slice_subrange(buf, a, b)) {
                    Some(q) => Some((Some(q), b)),
                    None => None,
                }
            },
            None => None,
        }
    } else {
        Some((None, pos))
    }
}

/// The readings on the wire: each one that is present as a field, in the
/// order acceleration, angular rate, magnetic field, orientation.
pub open spec fn imu_bytes(v: ImuValues) -> Seq<u8> {
    opt_vec3_field(KEY_ACCEL, v.accel) + opt_vec3_field(KEY_GYRO, v.gyro) + opt_vec3_field(
        KEY_MAG,
        v.mag,
    ) + opt_quaternion_field(KEY_QUATERNION, v.quaternion)
}

/// The readings that `p` holds, where `p` is one bundle and nothing more.
#[verifier::opaque]
pub open spec fn parse_imu(p: Seq<u8>) -> Option<ImuValues> {
    match parse_opt_vec3_field(p, 0, KEY_ACCEL) {
        Some((accel, a)) => match parse_opt_vec3_field(p, a, KEY_GYRO) {
            Some((gyro, b)) => match parse_opt_vec3_field(p, b, KEY_MAG) {
                Some((mag, c)) => match parse_opt_quaternion_field(p, c, KEY_QUATERNION) {
                    Some((quaternion, d)) => if d == p.len() {
                        Some(ImuValues { accel, gyro, mag, quaternion })
                    } else {
                        None
                    },
                    None => None,
                },
                None => None,
            },
            None => None,
        },
        None => None,
    }
}

/// The readings' bytes are read back as those readings.
pub proof fn lemma_imu_complete(v: ImuValues)
    ensures
        parse_imu(imu_bytes(v)) == Some(v),
{
    reveal(parse_imu);
    let p = imu_bytes(v);
    let f1 = opt_vec3_field(KEY_ACCEL, v.accel);
    let f2 = opt_vec3_field(KEY_GYRO, v.gyro);
    let f3 = opt_vec3_field(KEY_MAG, v.mag);
    let f4 = opt_quaternion_field(KEY_QUATERNION, v.quaternion);
    lemma_at_whole(p);
    lemma_at_split(p, 0, f1 + f2 + f3, f4);
    lemma_at_split(p, 0, f1 + f2, f3);
    lemma_at_split(p, 0, f1, f2);
    let a = f1.len() as int;
    let b = a + f2.len();
    let c = b + f3.len();
    lemma_opt_quaternion_complete(p, c, KEY_QUATERNION, v.quaternion);
    lemma_opt_vec3_complete(p, b, KEY_MAG, v.mag);
    lemma_opt_vec3_complete(p, a, KEY_GYRO, v.gyro);
    lemma_opt_vec3_complete(p, 0, KEY_ACCEL, v.accel);
}

/// Bytes that read as readings are those readings' bytes.
pub proof fn lemma_imu_sound(p: Seq<u8>)
    requires
        parse_imu(p) is Some,
    ensures
        p == imu_bytes(parse_imu(p).unwrap()),
{
    reveal(parse_imu);
    let v = parse_imu(p).unwrap();
    let f1 = opt_vec3_field(KEY_ACCEL, v.accel);
    let f2 = opt_vec3_field(KEY_GYRO, v.gyro);
    let f3 = opt_vec3_field(KEY_MAG, v.mag);
    let f4 = opt_quaternion_field(KEY_QUATERNION, v.quaternion);
    lemma_opt_vec3_sound(p, 0, KEY_ACCEL);
    let a = parse_opt_vec3_field(p, 0, KEY_ACCEL).unwrap().1;
    lemma_opt_vec3_sound(p, a, KEY_GYRO);
    let b = parse_opt_vec3_field(p, a, KEY_GYRO).unwrap().1;
    lemma_opt_vec3_sound(p, b, KEY_MAG);
    let c = parse_opt_vec3_field(p, b, KEY_MAG).unwrap().1;
    lemma_opt_quaternion_sound(p, c, KEY_QUATERNION);
    lemma_at_split(p, 0, f1, f2);
    lemma_at_split(p, 0, f1 + f2, f3);
    lemma_at_split(p, 0, f1 + f2 + f3, f4);
    lemma_at_all(p, imu_bytes(v));
}

impl ImuValues {
    /// Appends the readings' bytes to `buf`.
    pub fn encode(&self, buf: &mut Vec<u8>)
        ensures
            final(buf)@ == old(buf)@ + imu_bytes(*self),
    {
        put_opt_vec3_field(buf, KEY_ACCEL, &self.accel);
        put_opt_vec3_field(buf, KEY_GYRO, &self.gyro);
        put_opt_vec3_field(buf, KEY_MAG, &self.mag);
        put_opt_quaternion_field(buf, KEY_QUATERNION, &self.quaternion);
        assert(final(buf)@ =~= old(buf)@ + imu_bytes(*self));
    }

    /// Reads the readings that `bytes` holds; `None` unless `bytes` is exactly
    /// what `encode` writes for some bundle of readings.
    pub fn decode(bytes: &[u8]) -> (res: Option<ImuValues>)
        ensures
            res == parse_imu(bytes@),
            res matches Some(v) ==> bytes@ == imu_bytes(v),
            res is None ==> forall|v: ImuValues| bytes@ != imu_bytes(v),
    {
        proof {
            reveal(parse_imu);
            if parse_imu(bytes@) is Some {
                lemma_imu_sound(bytes@);
            } else {
                assert forall|v: ImuValues| bytes@ != imu_bytes(v) by {
                    if bytes@ == imu_bytes(v) {
                        lemma_imu_complete(v);
                    }
                }
            }
        }
        let (accel, a) = match take_opt_vec3_field(bytes, 0, KEY_ACCEL) {
            Some(r) => r,
            None => { return None; },
        };
        proof {
            lemma_opt_vec3_sound(bytes@, 0, KEY_ACCEL);
        }
        let (gyro, b) = match take_opt_vec3_field(bytes, a, KEY_GYRO) {
            Some(r) => r,
            None => { return None; },
        };
        proof {
            lemma_opt_vec3_sound(bytes@, a as int, KEY_GYRO);
        }
        let (mag, c) = match take_opt_vec3_field(bytes, b, KEY_MAG) {
            Some(r) => r,
            None => { return None; },
        };
        proof {
            lemma_opt_vec3_sound(bytes@, b as int, KEY_MAG);
        }
        let (quaternion, d) = match take_opt_quaternion_field(bytes, c, KEY_QUATERNION) {
            Some(r) => r,
            None => { return None; },
        };
        if d == bytes.len() {
            Some(ImuValues { accel, gyro, mag, quaternion })
        } else {
            None
        }
    }
}

/// A field for a bundle of readings that may be absent.
pub open spec fn opt_imu_field(key: u8, o: Option<ImuValues>) -> Seq<u8> {
    match o {
        Some(v) => len_field(key, imu_bytes(v)),
        None => Seq::empty(),
    }
}

/// The readings field named `key` at `pos`, present exactly where `key` opens
/// what stands there.
pub open spec fn parse_opt_imu_field(s: Seq<u8>, pos: int, key: u8) -> Option<
    (Option<ImuValues>, int),
> {
    if has_key(s, pos, key) {
        match parse_len_field(s, pos, key) {
            Some((a, b)) => match parse_imu(s.subrange(a, b)) {
                Some(v) => Some((Some(v), b)),
                None => None,
            },
            None => None,
        }
    } else {
        Some((None, pos))
    }
}

/// The field that stands at `pos` is read as its value, and the reading ends
/// behind it.
pub proof fn lemma_opt_imu_complete(s: Seq<u8>, pos: int, key: u8, o: Option<ImuValues>)
    requires
        at(s, pos, opt_imu_field(key, o)),
        above_at(s, pos + opt_imu_field(key, o).len(), key),
    ensures
        parse_opt_imu_field(s, pos, key) == Some((o, pos + opt_imu_field(key, o).len())),
        not_below(s, pos, key),
{
    if let Some(v) = o {
        lemma_len_field_complete(s, pos, key, imu_bytes(v));
        lemma_at_bounds(s, pos, len_field(key, imu_bytes(v)));
        lemma_imu_complete(v);
    }
}

/// What is read at `pos` is the field of the value read, and the field ends
/// where the reading ended.
pub proof fn lemma_opt_imu_sound(s: Seq<u8>, pos: int, key: u8)
    requires
        0 <= pos <= s.len(),
        parse_opt_imu_field(s, pos, key) is Some,
    ensures
        at(s, pos, opt_imu_field(key, parse_opt_imu_field(s, pos, key).unwrap().0)),
        parse_opt_imu_field(s, pos, key).unwrap().1 == pos + opt_imu_field(
            key,
            parse_opt_imu_field(s, pos, key).unwrap().0,
        ).len(),
{
    if has_key(s, pos, key) {
        let (a, b) = parse_len_field(s, pos, key).unwrap();
        lemma_len_field_sound(s, pos, key);
        lemma_imu_sound(s.subrange(a, b));
    } else {
        lemma_at_empty(s, pos);
    }
}

/// Appends the readings field named `key` where `o` holds readings.
pub fn put_opt_imu_field(buf: &mut Vec<u8>, key: u8, o: &Option<ImuValues>)
    ensures
        final(buf)@ == old(buf)@ + opt_imu_field(key, *o),
{
    match o {
        Some(v) => {
            let mut payload: Vec<u8> = Vec::new();
            v.encode(&mut payload);
            assert(payload@ =~= imu_bytes(*v));
            put_len_field(buf, key, payload.as_slice());
        },
        None => {
            assert(buf@ =~= buf@ + Seq::<u8>::empty());
        },
    }
}

/// Reads the readings field named `key` at `pos`, where one opens there.
pub fn take_opt_imu_field(buf: &[u8], pos: usize, key: u8) -> (res: Option<
    (Option<ImuValues>, usize),
>)
    ensures
        res is Some <==> parse_opt_imu_field(buf@, pos as int, key) is Some,
        res matches Some((o, end)) ==> parse_opt_imu_field(buf@, pos as int, key) == Some(
            (o, end as int),
        ),
{
    if peek_key(buf, pos, key) {
        match take_len_field(buf, pos, key) {
            Some((a, b)) => {
                proof {
                    lemma_len_field_sound(buf@, pos as int, key);
                }
                match ImuValues::decode(slice_subrange(buf, a, b)) {
                    Some(v) => Some((Some(v), b)),
                    None => None,
                }
            },
            None => None,
        }
    } else {
        Some((None, pos))
    }
}

} // verus!

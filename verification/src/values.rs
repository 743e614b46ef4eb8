//! [`Endian`] implementations for the primitive value types: the unsigned
//! integers, the signed integers through their unsigned bit patterns, and
//! the zero-size unit type.
//!
//! Deliberately absent: `bool` and `char`, whose storage admits bit patterns
//! that are not valid values, failing the eligibility constraint that the
//! unchecked decode relies on; and `usize`/`isize`, whose size varies by
//! platform, against the purpose of a deterministic, platform-independent
//! layout.

use crate::endian::Endian;
use vstd::prelude::*;

verus! {

/// A zero-size value type: it occupies no storage, and its conversions
/// succeed trivially with no byte movement.
#[derive(Clone, Copy, Debug, Default, PartialEq, Eq, Structural)]
pub struct Empty;

impl Endian for Empty {
    open spec fn spec_size() -> nat {
        0
    }

    open spec fn le_repr(self) -> Seq<u8> {
        Seq::empty()
    }

    open spec fn of_le_repr(b: Seq<u8>) -> Empty {
        Empty
    }

    proof fn lemma_le_repr_len(self) {
    }

    proof fn lemma_repr_round_trip(self) {
    }

    fn size() -> usize {
        0
    }

    fn to_le_vec(&self) -> Vec<u8> {
        Vec::new()
    }

    fn from_le_vec(b: &Vec<u8>) -> Empty {
        Empty
    }
}

impl Endian for u8 {
    open spec fn spec_size() -> nat {
        1
    }

    open spec fn le_repr(self) -> Seq<u8> {
        seq![self]
    }

    open spec fn of_le_repr(b: Seq<u8>) -> u8 {
        b[0]
    }

    proof fn lemma_le_repr_len(self) {
    }

    proof fn lemma_repr_round_trip(self) {
    }

    fn size() -> usize {
        1
    }

    fn to_le_vec(&self) -> (r: Vec<u8>) {
        let mut r: Vec<u8> = Vec::new();
        r.push(*self);
        proof {
            assert(r@ =~= self.le_repr());
        }
        r
    }

    fn from_le_vec(b: &Vec<u8>) -> u8 {
        b[0]
    }
}

impl Endian for u16 {
    open spec fn spec_size() -> nat {
        2
    }

    open spec fn le_repr(self) -> Seq<u8> {
        seq![(self & 0xff) as u8, ((self >> 8) & 0xff) as u8]
    }

    open spec fn of_le_repr(b: Seq<u8>) -> u16 {
        (b[0] as u16) | ((b[1] as u16) << 8)
    }

    proof fn lemma_le_repr_len(self) {
    }

    proof fn lemma_repr_round_trip(self) {
        let x = self;
        assert((((x & 0xff) as u8) as u16) | (((((x >> 8) & 0xff) as u8) as u16) << 8) == x)
            by (bit_vector);
    }

    fn size() -> usize {
        2
    }

    fn to_le_vec(&self) -> (r: Vec<u8>) {
        let x = *self;
        let mut r: Vec<u8> = Vec::new();
        r.push((x & 0xff) as u8);
        r.push(((x >> 8) & 0xff) as u8);
        proof {
            assert(r@ =~= self.le_repr());
        }
        r
    }

    fn from_le_vec(b: &Vec<u8>) -> u16 {
        (b[0] as u16) | ((b[1] as u16) << 8)
    }
}

impl Endian for u32 {
    open spec fn spec_size() -> nat {
        4
    }

    open spec fn le_repr(self) -> Seq<u8> {
        seq![
            (self & 0xff) as u8,
            ((self >> 8) & 0xff) as u8,
            ((self >> 16) & 0xff) as u8,
            ((self >> 24) & 0xff) as u8,
        ]
    }

    open spec fn of_le_repr(b: Seq<u8>) -> u32 {
        (b[0] as u32) | ((b[1] as u32) << 8) | ((b[2] as u32) << 16) | ((b[3] as u32) << 24)
    }

    proof fn lemma_le_repr_len(self) {
    }

    proof fn lemma_repr_round_trip(self) {
        let x = self;
        assert((((x & 0xff) as u8) as u32) | (((((x >> 8) & 0xff) as u8) as u32) << 8) | (((((x
            >> 16) & 0xff) as u8) as u32) << 16) | (((((x >> 24) & 0xff) as u8) as u32) << 24) == x)
            by (bit_vector);
    }

    fn size() -> usize {
        4
    }

    fn to_le_vec(&self) -> (r: Vec<u8>) {
        let x = *self;
        let mut r: Vec<u8> = Vec::new();
        r.push((x & 0xff) as u8);
        r.push(((x >> 8) & 0xff) as u8);
        r.push(((x >> 16) & 0xff) as u8);
        r.push(((x >> 24) & 0xff) as u8);
        proof {
            assert(r@ =~= self.le_repr());
        }
        r
    }

    fn from_le_vec(b: &Vec<u8>) -> u32 {
        (b[0] as u32) | ((b[1] as u32) << 8) | ((b[2] as u32) << 16) | ((b[3] as u32) << 24)
    }
}

impl Endian for u64 {
    open spec fn spec_size() -> nat {
        8
    }

    open spec fn le_repr(self) -> Seq<u8> {
        seq![
            (self & 0xff) as u8,
            ((self >> 8) & 0xff) as u8,
            ((self >> 16) & 0xff) as u8,
            ((self >> 24) & 0xff) as u8,
            ((self >> 32) & 0xff) as u8,
            ((self >> 40) & 0xff) as u8,
            ((self >> 48) & 0xff) as u8,
            ((self >> 56) & 0xff) as u8,
        ]
    }

    open spec fn of_le_repr(b: Seq<u8>) -> u64 {
        (b[0] as u64) | ((b[1] as u64) << 8) | ((b[2] as u64) << 16) | ((b[3] as u64) << 24) | ((
        b[4] as u64) << 32) | ((b[5] as u64) << 40) | ((b[6] as u64) << 48) | ((b[7] as u64) << 56)
    }

    proof fn lemma_le_repr_len(self) {
    }

    proof fn lemma_repr_round_trip(self) {
        let x = self;
        assert((((x & 0xff) as u8) as u64) | (((((x >> 8) & 0xff) as u8) as u64) << 8) | (((((x
            >> 16) & 0xff) as u8) as u64) << 16) | (((((x >> 24) & 0xff) as u8) as u64) << 24) | ((
        (((x >> 32) & 0xff) as u8) as u64) << 32) | (((((x >> 40) & 0xff) as u8) as u64) << 40) | ((
        (((x >> 48) & 0xff) as u8) as u64) << 48) | (((((x >> 56) & 0xff) as u8) as u64) << 56)
            == x) by (bit_vector);
    }

    fn size() -> usize {
        8
    }

    fn to_le_vec(&self) -> (r: Vec<u8>) {
        let x = *self;
        let mut r: Vec<u8> = Vec::new();
        r.push((x & 0xff) as u8);
        r.push(((x >> 8) & 0xff) as u8);
        r.push(((x >> 16) & 0xff) as u8);
        r.push(((x >> 24) & 0xff) as u8);
        r.push(((x >> 32) & 0xff) as u8);
        r.push(((x >> 40) & 0xff) as u8);
        r.push(((x >> 48) & 0xff) as u8);
        r.push(((x >> 56) & 0xff) as u8);
        proof {
            assert(r@ =~= self.le_repr());
        }
        r
    }

    fn from_le_vec(b: &Vec<u8>) -> u64 {
        (b[0] as u64) | ((b[1] as u64) << 8) | ((b[2] as u64) << 16) | ((b[3] as u64) << 24) | ((
        b[4] as u64) << 32) | ((b[5] as u64) << 40) | ((b[6] as u64) << 48) | ((b[7] as u64) << 56)
    }
}

impl Endian for i8 {
    open spec fn spec_size() -> nat {
        1
    }

    open spec fn le_repr(self) -> Seq<u8> {
        (self as u8).le_repr()
    }

    open spec fn of_le_repr(b: Seq<u8>) -> i8 {
        u8::of_le_repr(b) as i8
    }

    proof fn lemma_le_repr_len(self) {
        (self as u8).lemma_le_repr_len();
    }

    proof fn lemma_repr_round_trip(self) {
        (self as u8).lemma_repr_round_trip();
        let x = self;
        assert(((x as u8) as i8) == x) by (bit_vector);
    }

    fn size() -> usize {
        1
    }

    fn to_le_vec(&self) -> (r: Vec<u8>) {
        let x = *self as u8;
        x.to_le_vec()
    }

    fn from_le_vec(b: &Vec<u8>) -> i8 {
        u8::from_le_vec(b) as i8
    }
}

impl Endian for i16 {
    open spec fn spec_size() -> nat {
        2
    }

    open spec fn le_repr(self) -> Seq<u8> {
        (self as u16).le_repr()
    }

    open spec fn of_le_repr(b: Seq<u8>) -> i16 {
        u16::of_le_repr(b) as i16
    }

    proof fn lemma_le_repr_len(self) {
        (self as u16).lemma_le_repr_len();
    }

    proof fn lemma_repr_round_trip(self) {
        (self as u16).lemma_repr_round_trip();
        let x = self;
        assert(((x as u16) as i16) == x) by (bit_vector);
    }

    fn size() -> usize {
        2
    }

    fn to_le_vec(&self) -> (r: Vec<u8>) {
        let x = *self as u16;
        x.to_le_vec()
    }

    fn from_le_vec(b: &Vec<u8>) -> i16 {
        u16::from_le_vec(b) as i16
    }
}

impl Endian for i32 {
    open spec fn spec_size() -> nat {
        4
    }

    open spec fn le_repr(self) -> Seq<u8> {
        (self as u32).le_repr()
    }

    open spec fn of_le_repr(b: Seq<u8>) -> i32 {
        u32::of_le_repr(b) as i32
    }

    proof fn lemma_le_repr_len(self) {
        (self as u32).lemma_le_repr_len();
    }

    proof fn lemma_repr_round_trip(self) {
        (self as u32).lemma_repr_round_trip();
        let x = self;
        assert(((x as u32) as i32) == x) by (bit_vector);
    }

    fn size() -> usize {
        4
    }

    fn to_le_vec(&self) -> (r: Vec<u8>) {
        let x = *self as u32;
        x.to_le_vec()
    }

    fn from_le_vec(b: &Vec<u8>) -> i32 {
        u32::from_le_vec(b) as i32
    }
}

impl Endian for i64 {
    open spec fn spec_size() -> nat {
        8
    }

    open spec fn le_repr(self) -> Seq<u8> {
        (self as u64).le_repr()
    }

    open spec fn of_le_repr(b: Seq<u8>) -> i64 {
        u64::of_le_repr(b) as i64
    }

    proof fn lemma_le_repr_len(self) {
        (self as u64).lemma_le_repr_len();
    }

    proof fn lemma_repr_round_trip(self) {
        (self as u64).lemma_repr_round_trip();
        let x = self;
        assert(((x as u64) as i64) == x) by (bit_vector);
    }

    fn size() -> usize {
        8
    }

    fn to_le_vec(&self) -> (r: Vec<u8>) {
        let x = *self as u64;
        x.to_le_vec()
    }

    fn from_le_vec(b: &Vec<u8>) -> i64 {
        u64::from_le_vec(b) as i64
    }
}

impl Endian for u128 {
    open spec fn spec_size() -> nat {
        16
    }

    open spec fn le_repr(self) -> Seq<u8> {
        seq![
            (self & 0xff) as u8,
            ((self >> 8) & 0xff) as u8,
            ((self >> 16) & 0xff) as u8,
            ((self >> 24) & 0xff) as u8,
            ((self >> 32) & 0xff) as u8,
            ((self >> 40) & 0xff) as u8,
            ((self >> 48) & 0xff) as u8,
            ((self >> 56) & 0xff) as u8,
            ((self >> 64) & 0xff) as u8,
            ((self >> 72) & 0xff) as u8,
            ((self >> 80) & 0xff) as u8,
            ((self >> 88) & 0xff) as u8,
            ((self >> 96) & 0xff) as u8,
            ((self >> 104) & 0xff) as u8,
            ((self >> 112) & 0xff) as u8,
            ((self >> 120) & 0xff) as u8,
        ]
    }

    open spec fn of_le_repr(b: Seq<u8>) -> u128 {
        (b[0] as u128) | ((b[1] as u128) << 8) | ((b[2] as u128) << 16) | ((b[3] as u128) << 24)
            | ((b[4] as u128) << 32) | ((b[5] as u128) << 40) | ((b[6] as u128) << 48) | ((
        b[7] as u128) << 56) | ((b[8] as u128) << 64) | ((b[9] as u128) << 72) | ((b[10] as u128)
            << 80) | ((b[11] as u128) << 88) | ((b[12] as u128) << 96) | ((b[13] as u128) << 104)
            | ((b[14] as u128) << 112) | ((b[15] as u128) << 120)
    }

    proof fn lemma_le_repr_len(self) {
    }

    proof fn lemma_repr_round_trip(self) {
        let x = self;
        assert((((x & 0xff) as u8) as u128) | (((((x >> 8) & 0xff) as u8) as u128) << 8) | (((((x
            >> 16) & 0xff) as u8) as u128) << 16) | (((((x >> 24) & 0xff) as u8) as u128) << 24)
            | (((((x >> 32) & 0xff) as u8) as u128) << 32) | (((((x >> 40) & 0xff) as u8) as u128)
            << 40) | (((((x >> 48) & 0xff) as u8) as u128) << 48) | (((((x >> 56) & 0xff) as u8)
            as u128) << 56) | (((((x >> 64) & 0xff) as u8) as u128) << 64) | (((((x >> 72) & 0xff)
            as u8) as u128) << 72) | (((((x >> 80) & 0xff) as u8) as u128) << 80) | (((((x >> 88)
            & 0xff) as u8) as u128) << 88) | (((((x >> 96) & 0xff) as u8) as u128) << 96) | (((((x
            >> 104) & 0xff) as u8) as u128) << 104) | (((((x >> 112) & 0xff) as u8) as u128) << 112)
            | (((((x >> 120) & 0xff) as u8) as u128) << 120) == x) by (bit_vector);
    }

    fn size() -> usize {
        16
    }

    fn to_le_vec(&self) -> (r: Vec<u8>) {
        let x = *self;
        let mut r: Vec<u8> = Vec::new();
        r.push((x & 0xff) as u8);
        r.push(((x >> 8) & 0xff) as u8);
        r.push(((x >> 16) & 0xff) as u8);
        r.push(((x >> 24) & 0xff) as u8);
        r.push(((x >> 32) & 0xff) as u8);
        r.push(((x >> 40) & 0xff) as u8);
        r.push(((x >> 48) & 0xff) as u8);
        r.push(((x >> 56) & 0xff) as u8);
        r.push(((x >> 64) & 0xff) as u8);
        r.push(((x >> 72) & 0xff) as u8);
        r.push(((x >> 80) & 0xff) as u8);
        r.push(((x >> 88) & 0xff) as u8);
        r.push(((x >> 96) & 0xff) as u8);
        r.push(((x >> 104) & 0xff) as u8);
        r.push(((x >> 112) & 0xff) as u8);
        r.push(((x >> 120) & 0xff) as u8);
        proof {
            assert(r@ =~= self.le_repr());
        }
        r
    }

    fn from_le_vec(b: &Vec<u8>) -> u128 {
        (b[0] as u128) | ((b[1] as u128) << 8) | ((b[2] as u128) << 16) | ((b[3] as u128) << 24)
            | ((b[4] as u128) << 32) | ((b[5] as u128) << 40) | ((b[6] as u128) << 48) | ((
        b[7] as u128) << 56) | ((b[8] as u128) << 64) | ((b[9] as u128) << 72) | ((b[10] as u128)
            << 80) | ((b[11] as u128) << 88) | ((b[12] as u128) << 96) | ((b[13] as u128) << 104)
            | ((b[14] as u128) << 112) | ((b[15] as u128) << 120)
    }
}

impl Endian for i128 {
    open spec fn spec_size() -> nat {
        16
    }

    open spec fn le_repr(self) -> Seq<u8> {
        (self as u128).le_repr()
    }

    open spec fn of_le_repr(b: Seq<u8>) -> i128 {
        u128::of_le_repr(b) as i128
    }

    proof fn lemma_le_repr_len(self) {
        (self as u128).lemma_le_repr_len();
    }

    proof fn lemma_repr_round_trip(self) {
        (self as u128).lemma_repr_round_trip();
        let x = self;
        assert(((x as u128) as i128) == x) by (bit_vector);
    }

    fn size() -> usize {
        16
    }

    fn to_le_vec(&self) -> (r: Vec<u8>) {
        let x = *self as u128;
        x.to_le_vec()
    }

    fn from_le_vec(b: &Vec<u8>) -> i128 {
        u128::from_le_vec(b) as i128
    }
}

} // verus!

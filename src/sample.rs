//! The numeric sample domain: the encodings a buffer may be stored in, and
//! the fixed-point working representation that every modifier operates on.
//!
//! The working representation is a signed 64-bit fixed-point value in which
//! `WORKING_UNIT` stands for full scale (1.0): a full-scale sample of any
//! encoding maps to `±WORKING_UNIT`, equilibrium maps to 0, and there is
//! headroom above full scale so that gain changes may exceed it; values out of
//! an encoding's range saturate when converted back.
use vstd::prelude::*;

verus! {

/// Type in which samples are held while modifiers are applied.
pub type IntermediateSampleType = i64;

/// Full scale (1.0) in the working representation: 2^31.
pub const WORKING_UNIT: i64 = 2147483648;

/// The primitive encodings a sample may have.
#[derive(Debug, Clone, Copy, PartialEq, Eq, Structural, Hash)]
pub enum SampleType {
    U8,
    U16,
    U32,
    U64,
    I8,
    I16,
    I32,
    I64,
    F32,
    F64,
}

/// `v` limited to the closed interval `[lo, hi]`.
pub open spec fn clamp(v: int, lo: int, hi: int) -> int {
    if v < lo {
        lo
    } else if v > hi {
        hi
    } else {
        v
    }
}

/// Floor division of `a` by a positive `d`.
pub(crate) fn floor_div(a: i128, d: i128) -> (q: i128)
    requires
        d > 0,
        i64::MIN * 4294967296 <= a <= i64::MAX * 4294967296,
    ensures
        q == a / d,
        d == 1 ==> q == a,
{
    assert(i64::MIN * 4294967296 <= a / d <= i64::MAX * 4294967296) by (nonlinear_arith)
        requires
            d > 0,
            i64::MIN * 4294967296 <= a <= i64::MAX * 4294967296,
    ;
    match a.checked_div_euclid(d) {
        Some(q) => q,
        None => 0,
    }
}

/// `v` limited to the range of `i64`.
pub(crate) fn saturate_i64(v: i128) -> (r: i64)
    ensures
        r == clamp(v as int, i64::MIN as int, i64::MAX as int),
{
    if v < i64::MIN as i128 {
        i64::MIN
    } else if v > i64::MAX as i128 {
        i64::MAX
    } else {
        v as i64
    }
}

/// A supported integer sample encoding, with its conversions to and from the
/// working representation.
pub trait Sample: Copy + Sized {
    /// The numeric value of the sample in its own encoding.
    spec fn level(self) -> int;

    /// The working-representation value of the sample.
    spec fn to_working_spec(self) -> i64;

    /// The sample of this encoding that stands for a working value.
    spec fn from_working_spec(w: i64) -> Self;

    /// The silence value of the encoding.
    spec fn equilibrium_spec() -> Self;

    /// The tag of the encoding.
    spec fn sample_type_spec() -> SampleType;

    /// The largest change a round trip through the working representation
    /// may make to a sample's level, plus one.
    spec fn quantum() -> int;

    /// Returns the silence value of the encoding.
    fn equilibrium() -> (r: Self)
        ensures
            r == Self::equilibrium_spec(),
    ;

    /// Returns the tag of the encoding.
    fn sample_type() -> (r: SampleType)
        ensures
            r == Self::sample_type_spec(),
    ;

    /// Converts the sample into the working representation.
    fn to_working(self) -> (r: i64)
        ensures
            r == self.to_working_spec(),
    ;

    /// Converts a working value into this encoding, saturating out of range.
    fn from_working(w: i64) -> (r: Self)
        ensures
            r == Self::from_working_spec(w),
    ;

    /// A round trip keeps the working value exactly, and changes a sample's
    /// level by less than one quantum, never upwards.
    proof fn lemma_round_trip(x: Self)
        ensures
            Self::from_working_spec(x.to_working_spec()).to_working_spec() == x.to_working_spec(),
            Self::quantum() >= 1,
            x.level() - Self::quantum() < Self::from_working_spec(x.to_working_spec()).level()
                <= x.level(),
    ;

    /// Equilibrium maps to working zero and back.
    proof fn lemma_equilibrium()
        ensures
            Self::equilibrium_spec().to_working_spec() == 0,
            Self::from_working_spec(0) == Self::equilibrium_spec(),
    ;
}

impl Sample for u8 {
    open spec fn level(self) -> int {
        self as int
    }

    open spec fn to_working_spec(self) -> i64 {
        ((self as int - 128) * 16777216) as i64
    }

    open spec fn from_working_spec(w: i64) -> u8 {
        clamp(w as int / 16777216 + 128, 0, 255) as u8
    }

    open spec fn equilibrium_spec() -> u8 {
        128
    }

    open spec fn sample_type_spec() -> SampleType {
        SampleType::U8
    }

    open spec fn quantum() -> int {
        1
    }

    fn equilibrium() -> (r: u8) {
        128
    }

    fn sample_type() -> (r: SampleType) {
        SampleType::U8
    }

    fn to_working(self) -> (r: i64) {
        (self as i64 - 128) * 16777216
    }

    fn from_working(w: i64) -> (r: u8) {
        let q = floor_div(w as i128, 16777216) + 128;
        if q < 0 {
            0
        } else if q > 255 {
            255
        } else {
            q as u8
        }
    }

    proof fn lemma_round_trip(x: u8) {
    }

    proof fn lemma_equilibrium() {
    }
}

impl Sample for i8 {
    open spec fn level(self) -> int {
        self as int
    }

    open spec fn to_working_spec(self) -> i64 {
        (self as int * 16777216) as i64
    }

    open spec fn from_working_spec(w: i64) -> i8 {
        clamp(w as int / 16777216, -128, 127) as i8
    }

    open spec fn equilibrium_spec() -> i8 {
        0
    }

    open spec fn sample_type_spec() -> SampleType {
        SampleType::I8
    }

    open spec fn quantum() -> int {
        1
    }

    fn equilibrium() -> (r: i8) {
        0
    }

    fn sample_type() -> (r: SampleType) {
        SampleType::I8
    }

    fn to_working(self) -> (r: i64) {
        self as i64 * 16777216
    }

    fn from_working(w: i64) -> (r: i8) {
        let q = floor_div(w as i128, 16777216);
        if q < -128 {
            -128
        } else if q > 127 {
            127
        } else {
            q as i8
        }
    }

    proof fn lemma_round_trip(x: i8) {
    }

    proof fn lemma_equilibrium() {
    }
}

impl Sample for u16 {
    open spec fn level(self) -> int {
        self as int
    }

    open spec fn to_working_spec(self) -> i64 {
        ((self as int - 32768) * 65536) as i64
    }

    open spec fn from_working_spec(w: i64) -> u16 {
        clamp(w as int / 65536 + 32768, 0, 65535) as u16
    }

    open spec fn equilibrium_spec() -> u16 {
        32768
    }

    open spec fn sample_type_spec() -> SampleType {
        SampleType::U16
    }

    open spec fn quantum() -> int {
        1
    }

    fn equilibrium() -> (r: u16) {
        32768
    }

    fn sample_type() -> (r: SampleType) {
        SampleType::U16
    }

    fn to_working(self) -> (r: i64) {
        (self as i64 - 32768) * 65536
    }

    fn from_working(w: i64) -> (r: u16) {
        let q = floor_div(w as i128, 65536) + 32768;
        if q < 0 {
            0
        } else if q > 65535 {
            65535
        } else {
            q as u16
        }
    }

    proof fn lemma_round_trip(x: u16) {
    }

    proof fn lemma_equilibrium() {
    }
}

impl Sample for i16 {
    open spec fn level(self) -> int {
        self as int
    }

    open spec fn to_working_spec(self) -> i64 {
        (self as int * 65536) as i64
    }

    open spec fn from_working_spec(w: i64) -> i16 {
        clamp(w as int / 65536, -32768, 32767) as i16
    }

    open spec fn equilibrium_spec() -> i16 {
        0
    }

    open spec fn sample_type_spec() -> SampleType {
        SampleType::I16
    }

    open spec fn quantum() -> int {
        1
    }

    fn equilibrium() -> (r: i16) {
        0
    }

    fn sample_type() -> (r: SampleType) {
        SampleType::I16
    }

    fn to_working(self) -> (r: i64) {
        self as i64 * 65536
    }

    fn from_working(w: i64) -> (r: i16) {
        let q = floor_div(w as i128, 65536);
        if q < -32768 {
            -32768
        } else if q > 32767 {
            32767
        } else {
            q as i16
        }
    }

    proof fn lemma_round_trip(x: i16) {
    }

    proof fn lemma_equilibrium() {
    }
}

impl Sample for u32 {
    open spec fn level(self) -> int {
        self as int
    }

    open spec fn to_working_spec(self) -> i64 {
        (self as int - 2147483648) as i64
    }

    open spec fn from_working_spec(w: i64) -> u32 {
        clamp(w as int + 2147483648, 0, 4294967295) as u32
    }

    open spec fn equilibrium_spec() -> u32 {
        2147483648
    }

    open spec fn sample_type_spec() -> SampleType {
        SampleType::U32
    }

    open spec fn quantum() -> int {
        1
    }

    fn equilibrium() -> (r: u32) {
        2147483648
    }

    fn sample_type() -> (r: SampleType) {
        SampleType::U32
    }

    fn to_working(self) -> (r: i64) {
        self as i64 - 2147483648
    }

    fn from_working(w: i64) -> (r: u32) {
        let q = w as i128 + 2147483648;
        if q < 0 {
            0
        } else if q > 4294967295 {
            4294967295
        } else {
            q as u32
        }
    }

    proof fn lemma_round_trip(x: u32) {
    }

    proof fn lemma_equilibrium() {
    }
}

impl Sample for i32 {
    open spec fn level(self) -> int {
        self as int
    }

    open spec fn to_working_spec(self) -> i64 {
        self as i64
    }

    open spec fn from_working_spec(w: i64) -> i32 {
        clamp(w as int, i32::MIN as int, i32::MAX as int) as i32
    }

    open spec fn equilibrium_spec() -> i32 {
        0
    }

    open spec fn sample_type_spec() -> SampleType {
        SampleType::I32
    }

    open spec fn quantum() -> int {
        1
    }

    fn equilibrium() -> (r: i32) {
        0
    }

    fn sample_type() -> (r: SampleType) {
        SampleType::I32
    }

    fn to_working(self) -> (r: i64) {
        self as i64
    }

    fn from_working(w: i64) -> (r: i32) {
        if w < i32::MIN as i64 {
            i32::MIN
        } else if w > i32::MAX as i64 {
            i32::MAX
        } else {
            w as i32
        }
    }

    proof fn lemma_round_trip(x: i32) {
    }

    proof fn lemma_equilibrium() {
    }
}

impl Sample for u64 {
    open spec fn level(self) -> int {
        self as int
    }

    open spec fn to_working_spec(self) -> i64 {
        (self as int / 4294967296 - 2147483648) as i64
    }

    open spec fn from_working_spec(w: i64) -> u64 {
        clamp((w as int + 2147483648) * 4294967296, 0, u64::MAX as int) as u64
    }

    open spec fn equilibrium_spec() -> u64 {
        9223372036854775808
    }

    open spec fn sample_type_spec() -> SampleType {
        SampleType::U64
    }

    open spec fn quantum() -> int {
        4294967296
    }

    fn equilibrium() -> (r: u64) {
        9223372036854775808
    }

    fn sample_type() -> (r: SampleType) {
        SampleType::U64
    }

    fn to_working(self) -> (r: i64) {
        (self / 4294967296) as i64 - 2147483648
    }

    fn from_working(w: i64) -> (r: u64) {
        let q = (w as i128 + 2147483648) * 4294967296;
        if q < 0 {
            0
        } else if q > u64::MAX as i128 {
            u64::MAX
        } else {
            q as u64
        }
    }

    proof fn lemma_round_trip(x: u64) {
    }

    proof fn lemma_equilibrium() {
    }
}

impl Sample for i64 {
    open spec fn level(self) -> int {
        self as int
    }

    open spec fn to_working_spec(self) -> i64 {
        (self as int / 4294967296) as i64
    }

    open spec fn from_working_spec(w: i64) -> i64 {
        clamp(w as int * 4294967296, i64::MIN as int, i64::MAX as int) as i64
    }

    open spec fn equilibrium_spec() -> i64 {
        0
    }

    open spec fn sample_type_spec() -> SampleType {
        SampleType::I64
    }

    open spec fn quantum() -> int {
        4294967296
    }

    fn equilibrium() -> (r: i64) {
        0
    }

    fn sample_type() -> (r: SampleType) {
        SampleType::I64
    }

    fn to_working(self) -> (r: i64) {
        floor_div(self as i128, 4294967296) as i64
    }

    fn from_working(w: i64) -> (r: i64) {
        let q = w as i128 * 4294967296;
        if q < i64::MIN as i128 {
            i64::MIN
        } else if q > i64::MAX as i128 {
            i64::MAX
        } else {
            q as i64
        }
    }

    proof fn lemma_round_trip(x: i64) {
    }

    proof fn lemma_equilibrium() {
    }
}

} // verus!

//! The signed machine integers as [`Integer`] types.
//!
//! Zero, one and the conversion from `i8` come from `num_traits`; the
//! arithmetic is the machine's own, verified against the contracts of
//! [`Integer`].
use crate::integer::{Integer, Signed};
use crate::truncating::lemma_trunc_div_negative_one;
use vstd::prelude::*;

verus! {

/// `<i8 as num_traits::Zero>::zero`, which returns the literal `0`.
#[verifier::external_body]
fn i8_zero() -> (r: i8)
    ensures
        r == 0,
{
    <i8 as num_traits::Zero>::zero()
}

/// `<i8 as num_traits::One>::one`, which returns the literal `1`.
#[verifier::external_body]
fn i8_one() -> (r: i8)
    ensures
        r == 1,
{
    <i8 as num_traits::One>::one()
}

/// `<i8 as num_traits::FromPrimitive>::from_i8`, which always succeeds with
/// its argument.
#[verifier::external_body]
fn i8_from_i8(n: i8) -> (r: Option<i8>)
    ensures
        r == Some(n),
{
    <i8 as num_traits::FromPrimitive>::from_i8(n)
}

impl Integer for i8 {
    open spec fn as_int(self) -> int {
        self as int
    }

    open spec fn min_int() -> int {
        i8::MIN as int
    }

    open spec fn max_int() -> int {
        i8::MAX as int
    }

    proof fn lemma_range(self) {
    }

    proof fn lemma_limits() {
    }

    fn zero() -> (r: Self) {
        i8_zero()
    }

    fn one() -> (r: Self) {
        i8_one()
    }

    fn from_i8(n: i8) -> (r: Option<Self>) {
        i8_from_i8(n)
    }

    fn from_u128(n: u128) -> (r: Option<Self>) {
        match i8::try_from(n) {
            Ok(v) => Some(v),
            Err(_) => None,
        }
    }

    fn equals(self, rhs: Self) -> (r: bool) {
        self == rhs
    }

    fn plus(self, rhs: Self) -> (r: Self) {
        self + rhs
    }

    fn minus(self, rhs: Self) -> (r: Self) {
        self - rhs
    }

    fn times(self, rhs: Self) -> (r: Self) {
        self * rhs
    }

    fn quotient(self, rhs: Self) -> (r: Self) {
        proof {
            lemma_trunc_div_negative_one(self as int);
        }
        self / rhs
    }

    fn remainder(self, rhs: Self) -> (r: Self) {
        proof {
            lemma_trunc_div_negative_one(self as int);
        }
        self % rhs
    }
}

impl Signed for i8 {
    proof fn lemma_signed() {
    }
}

/// `<i16 as num_traits::Zero>::zero`, which returns the literal `0`.
#[verifier::external_body]
fn i16_zero() -> (r: i16)
    ensures
        r == 0,
{
    <i16 as num_traits::Zero>::zero()
}

/// `<i16 as num_traits::One>::one`, which returns the literal `1`.
#[verifier::external_body]
fn i16_one() -> (r: i16)
    ensures
        r == 1,
{
    <i16 as num_traits::One>::one()
}

/// `<i16 as num_traits::FromPrimitive>::from_i8`, which converts with `as`
/// and always succeeds: `i16` is no narrower than `i8`.
#[verifier::external_body]
fn i16_from_i8(n: i8) -> (r: Option<i16>)
    ensures
        r == Some(n as i16),
{
    <i16 as num_traits::FromPrimitive>::from_i8(n)
}

impl Integer for i16 {
    open spec fn as_int(self) -> int {
        self as int
    }

    open spec fn min_int() -> int {
        i16::MIN as int
    }

    open spec fn max_int() -> int {
        i16::MAX as int
    }

    proof fn lemma_range(self) {
    }

    proof fn lemma_limits() {
    }

    fn zero() -> (r: Self) {
        i16_zero()
    }

    fn one() -> (r: Self) {
        i16_one()
    }

    fn from_i8(n: i8) -> (r: Option<Self>) {
        i16_from_i8(n)
    }

    fn from_u128(n: u128) -> (r: Option<Self>) {
        match i16::try_from(n) {
            Ok(v) => Some(v),
            Err(_) => None,
        }
    }

    fn equals(self, rhs: Self) -> (r: bool) {
        self == rhs
    }

    fn plus(self, rhs: Self) -> (r: Self) {
        self + rhs
    }

    fn minus(self, rhs: Self) -> (r: Self) {
        self - rhs
    }

    fn times(self, rhs: Self) -> (r: Self) {
        self * rhs
    }

    fn quotient(self, rhs: Self) -> (r: Self) {
        proof {
            lemma_trunc_div_negative_one(self as int);
        }
        self / rhs
    }

    fn remainder(self, rhs: Self) -> (r: Self) {
        proof {
            lemma_trunc_div_negative_one(self as int);
        }
        self % rhs
    }
}

impl Signed for i16 {
    proof fn lemma_signed() {
    }
}

/// `<i32 as num_traits::Zero>::zero`, which returns the literal `0`.
#[verifier::external_body]
fn i32_zero() -> (r: i32)
    ensures
        r == 0,
{
    <i32 as num_traits::Zero>::zero()
}

/// `<i32 as num_traits::One>::one`, which returns the literal `1`.
#[verifier::external_body]
fn i32_one() -> (r: i32)
    ensures
        r == 1,
{
    <i32 as num_traits::One>::one()
}

/// `<i32 as num_traits::FromPrimitive>::from_i8`, which converts with `as`
/// and always succeeds: `i32` is no narrower than `i8`.
#[verifier::external_body]
fn i32_from_i8(n: i8) -> (r: Option<i32>)
    ensures
        r == Some(n as i32),
{
    <i32 as num_traits::FromPrimitive>::from_i8(n)
}

impl Integer for i32 {
    open spec fn as_int(self) -> int {
        self as int
    }

    open spec fn min_int() -> int {
        i32::MIN as int
    }

    open spec fn max_int() -> int {
        i32::MAX as int
    }

    proof fn lemma_range(self) {
    }

    proof fn lemma_limits() {
    }

    fn zero() -> (r: Self) {
        i32_zero()
    }

    fn one() -> (r: Self) {
        i32_one()
    }

    fn from_i8(n: i8) -> (r: Option<Self>) {
        i32_from_i8(n)
    }

    fn from_u128(n: u128) -> (r: Option<Self>) {
        match i32::try_from(n) {
            Ok(v) => Some(v),
            Err(_) => None,
        }
    }

    fn equals(self, rhs: Self) -> (r: bool) {
        self == rhs
    }

    fn plus(self, rhs: Self) -> (r: Self) {
        self + rhs
    }

    fn minus(self, rhs: Self) -> (r: Self) {
        self - rhs
    }

    fn times(self, rhs: Self) -> (r: Self) {
        self * rhs
    }

    fn quotient(self, rhs: Self) -> (r: Self) {
        proof {
            lemma_trunc_div_negative_one(self as int);
        }
        self / rhs
    }

    fn remainder(self, rhs: Self) -> (r: Self) {
        proof {
            lemma_trunc_div_negative_one(self as int);
        }
        self % rhs
    }
}

impl Signed for i32 {
    proof fn lemma_signed() {
    }
}

/// `<i64 as num_traits::Zero>::zero`, which returns the literal `0`.
#[verifier::external_body]
fn i64_zero() -> (r: i64)
    ensures
        r == 0,
{
    <i64 as num_traits::Zero>::zero()
}

/// `<i64 as num_traits::One>::one`, which returns the literal `1`.
#[verifier::external_body]
fn i64_one() -> (r: i64)
    ensures
        r == 1,
{
    <i64 as num_traits::One>::one()
}

/// `<i64 as num_traits::FromPrimitive>::from_i8`, which converts with `as`
/// and always succeeds: `i64` is no narrower than `i8`.
#[verifier::external_body]
fn i64_from_i8(n: i8) -> (r: Option<i64>)
    ensures
        r == Some(n as i64),
{
    <i64 as num_traits::FromPrimitive>::from_i8(n)
}

impl Integer for i64 {
    open spec fn as_int(self) -> int {
        self as int
    }

    open spec fn min_int() -> int {
        i64::MIN as int
    }

    open spec fn max_int() -> int {
        i64::MAX as int
    }

    proof fn lemma_range(self) {
    }

    proof fn lemma_limits() {
    }

    fn zero() -> (r: Self) {
        i64_zero()
    }

    fn one() -> (r: Self) {
        i64_one()
    }

    fn from_i8(n: i8) -> (r: Option<Self>) {
        i64_from_i8(n)
    }

    fn from_u128(n: u128) -> (r: Option<Self>) {
        match i64::try_from(n) {
            Ok(v) => Some(v),
            Err(_) => None,
        }
    }

    fn equals(self, rhs: Self) -> (r: bool) {
        self == rhs
    }

    fn plus(self, rhs: Self) -> (r: Self) {
        self + rhs
    }

    fn minus(self, rhs: Self) -> (r: Self) {
        self - rhs
    }

    fn times(self, rhs: Self) -> (r: Self) {
        self * rhs
    }

    fn quotient(self, rhs: Self) -> (r: Self) {
        proof {
            lemma_trunc_div_negative_one(self as int);
        }
        self / rhs
    }

    fn remainder(self, rhs: Self) -> (r: Self) {
        proof {
            lemma_trunc_div_negative_one(self as int);
        }
        self % rhs
    }
}

impl Signed for i64 {
    proof fn lemma_signed() {
    }
}

/// `<i128 as num_traits::Zero>::zero`, which returns the literal `0`.
#[verifier::external_body]
fn i128_zero() -> (r: i128)
    ensures
        r == 0,
{
    <i128 as num_traits::Zero>::zero()
}

/// `<i128 as num_traits::One>::one`, which returns the literal `1`.
#[verifier::external_body]
fn i128_one() -> (r: i128)
    ensures
        r == 1,
{
    <i128 as num_traits::One>::one()
}

/// `<i128 as num_traits::FromPrimitive>::from_i8`, which converts with `as`
/// and always succeeds: `i128` is no narrower than `i8`.
#[verifier::external_body]
fn i128_from_i8(n: i8) -> (r: Option<i128>)
    ensures
        r == Some(n as i128),
{
    <i128 as num_traits::FromPrimitive>::from_i8(n)
}

impl Integer for i128 {
    open spec fn as_int(self) -> int {
        self as int
    }

    open spec fn min_int() -> int {
        i128::MIN as int
    }

    open spec fn max_int() -> int {
        i128::MAX as int
    }

    proof fn lemma_range(self) {
    }

    proof fn lemma_limits() {
    }

    fn zero() -> (r: Self) {
        i128_zero()
    }

    fn one() -> (r: Self) {
        i128_one()
    }

    fn from_i8(n: i8) -> (r: Option<Self>) {
        i128_from_i8(n)
    }

    fn from_u128(n: u128) -> (r: Option<Self>) {
        if n <= i128::MAX as u128 {
            Some(n as i128)
        } else {
            None
        }
    }

    fn equals(self, rhs: Self) -> (r: bool) {
        self == rhs
    }

    fn plus(self, rhs: Self) -> (r: Self) {
        self + rhs
    }

    fn minus(self, rhs: Self) -> (r: Self) {
        self - rhs
    }

    fn times(self, rhs: Self) -> (r: Self) {
        self * rhs
    }

    fn quotient(self, rhs: Self) -> (r: Self) {
        proof {
            lemma_trunc_div_negative_one(self as int);
        }
        self / rhs
    }

    fn remainder(self, rhs: Self) -> (r: Self) {
        proof {
            lemma_trunc_div_negative_one(self as int);
        }
        self % rhs
    }
}

impl Signed for i128 {
    proof fn lemma_signed() {
    }
}

/// `<isize as num_traits::Zero>::zero`, which returns the literal `0`.
#[verifier::external_body]
fn isize_zero() -> (r: isize)
    ensures
        r == 0,
{
    <isize as num_traits::Zero>::zero()
}

/// `<isize as num_traits::One>::one`, which returns the literal `1`.
#[verifier::external_body]
fn isize_one() -> (r: isize)
    ensures
        r == 1,
{
    <isize as num_traits::One>::one()
}

/// `<isize as num_traits::FromPrimitive>::from_i8`, which converts with `as`
/// and always succeeds: `isize` is no narrower than `i8`.
#[verifier::external_body]
fn isize_from_i8(n: i8) -> (r: Option<isize>)
    ensures
        r == Some(n as isize),
{
    <isize as num_traits::FromPrimitive>::from_i8(n)
}

impl Integer for isize {
    open spec fn as_int(self) -> int {
        self as int
    }

    open spec fn min_int() -> int {
        isize::MIN as int
    }

    open spec fn max_int() -> int {
        isize::MAX as int
    }

    proof fn lemma_range(self) {
    }

    proof fn lemma_limits() {
    }

    fn zero() -> (r: Self) {
        isize_zero()
    }

    fn one() -> (r: Self) {
        isize_one()
    }

    fn from_i8(n: i8) -> (r: Option<Self>) {
        isize_from_i8(n)
    }

    fn from_u128(n: u128) -> (r: Option<Self>) {
        match isize::try_from(n) {
            Ok(v) => Some(v),
            Err(_) => None,
        }
    }

    fn equals(self, rhs: Self) -> (r: bool) {
        self == rhs
    }

    fn plus(self, rhs: Self) -> (r: Self) {
        self + rhs
    }

    fn minus(self, rhs: Self) -> (r: Self) {
        self - rhs
    }

    fn times(self, rhs: Self) -> (r: Self) {
        self * rhs
    }

    fn quotient(self, rhs: Self) -> (r: Self) {
        proof {
            lemma_trunc_div_negative_one(self as int);
        }
        self / rhs
    }

    fn remainder(self, rhs: Self) -> (r: Self) {
        proof {
            lemma_trunc_div_negative_one(self as int);
        }
        self % rhs
    }
}

impl Signed for isize {
    proof fn lemma_signed() {
    }
}

} // verus!

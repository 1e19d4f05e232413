//! The unsigned machine integers as [`Integer`] types, and as moduli.
//!
//! Zero, one and the conversion from `i8` come from `num_traits`; the
//! arithmetic is the machine's own, verified against the contracts of
//! [`Integer`].
use crate::integer::{Integer, Unsigned};
use vstd::prelude::*;

verus! {

/// `<u8 as num_traits::Zero>::zero`, which returns the literal `0`.
#[verifier::external_body]
fn u8_zero() -> (r: u8)
    ensures
        r == 0,
{
    <u8 as num_traits::Zero>::zero()
}

/// `<u8 as num_traits::One>::one`, which returns the literal `1`.
#[verifier::external_body]
fn u8_one() -> (r: u8)
    ensures
        r == 1,
{
    <u8 as num_traits::One>::one()
}

/// `<u8 as num_traits::FromPrimitive>::from_i8`, which converts with `as`
/// where `n` is not negative, and returns `None` where it is: `u8` is no
/// narrower than `i8`.
#[verifier::external_body]
fn u8_from_i8(n: i8) -> (r: Option<u8>)
    ensures
        n >= 0 ==> r == Some(n as u8),
        n < 0 ==> r.is_none(),
{
    <u8 as num_traits::FromPrimitive>::from_i8(n)
}

impl Integer for u8 {
    open spec fn as_int(self) -> int {
        self as int
    }

    open spec fn min_int() -> int {
        0
    }

    open spec fn max_int() -> int {
        u8::MAX as int
    }

    proof fn lemma_range(self) {
    }

    proof fn lemma_limits() {
    }

    fn zero() -> (r: Self) {
        u8_zero()
    }

    fn one() -> (r: Self) {
        u8_one()
    }

    fn from_i8(n: i8) -> (r: Option<Self>) {
        u8_from_i8(n)
    }

    fn from_u128(n: u128) -> (r: Option<Self>) {
        match u8::try_from(n) {
            Ok(v) => Some(v),
            Err(_) => None,
        }
    }

    fn equals(self, rhs: Self) -> (r: bool) {
        self == rhs
    }

    fn plus(self, rhs: Self) -> (r: Self) {
        self + rhs
    }

    fn minus(self, rhs: Self) -> (r: Self) {
        self - rhs
    }

    fn times(self, rhs: Self) -> (r: Self) {
        self * rhs
    }

    fn quotient(self, rhs: Self) -> (r: Self) {
        self / rhs
    }

    fn remainder(self, rhs: Self) -> (r: Self) {
        self % rhs
    }
}

impl Unsigned for u8 {
    proof fn lemma_unsigned() {
    }

    fn to_u128(self) -> (r: u128) {
        self as u128
    }
}

/// `<u16 as num_traits::Zero>::zero`, which returns the literal `0`.
#[verifier::external_body]
fn u16_zero() -> (r: u16)
    ensures
        r == 0,
{
    <u16 as num_traits::Zero>::zero()
}

/// `<u16 as num_traits::One>::one`, which returns the literal `1`.
#[verifier::external_body]
fn u16_one() -> (r: u16)
    ensures
        r == 1,
{
    <u16 as num_traits::One>::one()
}

/// `<u16 as num_traits::FromPrimitive>::from_i8`, which converts with `as`
/// where `n` is not negative, and returns `None` where it is: `u16` is no
/// narrower than `i8`.
#[verifier::external_body]
fn u16_from_i8(n: i8) -> (r: Option<u16>)
    ensures
        n >= 0 ==> r == Some(n as u16),
        n < 0 ==> r.is_none(),
{
    <u16 as num_traits::FromPrimitive>::from_i8(n)
}

impl Integer for u16 {
    open spec fn as_int(self) -> int {
        self as int
    }

    open spec fn min_int() -> int {
        0
    }

    open spec fn max_int() -> int {
        u16::MAX as int
    }

    proof fn lemma_range(self) {
    }

    proof fn lemma_limits() {
    }

    fn zero() -> (r: Self) {
        u16_zero()
    }

    fn one() -> (r: Self) {
        u16_one()
    }

    fn from_i8(n: i8) -> (r: Option<Self>) {
        u16_from_i8(n)
    }

    fn from_u128(n: u128) -> (r: Option<Self>) {
        match u16::try_from(n) {
            Ok(v) => Some(v),
            Err(_) => None,
        }
    }

    fn equals(self, rhs: Self) -> (r: bool) {
        self == rhs
    }

    fn plus(self, rhs: Self) -> (r: Self) {
        self + rhs
    }

    fn minus(self, rhs: Self) -> (r: Self) {
        self - rhs
    }

    fn times(self, rhs: Self) -> (r: Self) {
        self * rhs
    }

    fn quotient(self, rhs: Self) -> (r: Self) {
        self / rhs
    }

    fn remainder(self, rhs: Self) -> (r: Self) {
        self % rhs
    }
}

impl Unsigned for u16 {
    proof fn lemma_unsigned() {
    }

    fn to_u128(self) -> (r: u128) {
        self as u128
    }
}

/// `<u32 as num_traits::Zero>::zero`, which returns the literal `0`.
#[verifier::external_body]
fn u32_zero() -> (r: u32)
    ensures
        r == 0,
{
    <u32 as num_traits::Zero>::zero()
}

/// `<u32 as num_traits::One>::one`, which returns the literal `1`.
#[verifier::external_body]
fn u32_one() -> (r: u32)
    ensures
        r == 1,
{
    <u32 as num_traits::One>::one()
}

/// `<u32 as num_traits::FromPrimitive>::from_i8`, which converts with `as`
/// where `n` is not negative, and returns `None` where it is: `u32` is no
/// narrower than `i8`.
#[verifier::external_body]
fn u32_from_i8(n: i8) -> (r: Option<u32>)
    ensures
        n >= 0 ==> r == Some(n as u32),
        n < 0 ==> r.is_none(),
{
    <u32 as num_traits::FromPrimitive>::from_i8(n)
}

impl Integer for u32 {
    open spec fn as_int(self) -> int {
        self as int
    }

    open spec fn min_int() -> int {
        0
    }

    open spec fn max_int() -> int {
        u32::MAX as int
    }

    proof fn lemma_range(self) {
    }

    proof fn lemma_limits() {
    }

    fn zero() -> (r: Self) {
        u32_zero()
    }

    fn one() -> (r: Self) {
        u32_one()
    }

    fn from_i8(n: i8) -> (r: Option<Self>) {
        u32_from_i8(n)
    }

    fn from_u128(n: u128) -> (r: Option<Self>) {
        match u32::try_from(n) {
            Ok(v) => Some(v),
            Err(_) => None,
        }
    }

    fn equals(self, rhs: Self) -> (r: bool) {
        self == rhs
    }

    fn plus(self, rhs: Self) -> (r: Self) {
        self + rhs
    }

    fn minus(self, rhs: Self) -> (r: Self) {
        self - rhs
    }

    fn times(self, rhs: Self) -> (r: Self) {
        self * rhs
    }

    fn quotient(self, rhs: Self) -> (r: Self) {
        self / rhs
    }

    fn remainder(self, rhs: Self) -> (r: Self) {
        self % rhs
    }
}

impl Unsigned for u32 {
    proof fn lemma_unsigned() {
    }

    fn to_u128(self) -> (r: u128) {
        self as u128
    }
}

/// `<u64 as num_traits::Zero>::zero`, which returns the literal `0`.
#[verifier::external_body]
fn u64_zero() -> (r: u64)
    ensures
        r == 0,
{
    <u64 as num_traits::Zero>::zero()
}

/// `<u64 as num_traits::One>::one`, which returns the literal `1`.
#[verifier::external_body]
fn u64_one() -> (r: u64)
    ensures
        r == 1,
{
    <u64 as num_traits::One>::one()
}

/// `<u64 as num_traits::FromPrimitive>::from_i8`, which converts with `as`
/// where `n` is not negative, and returns `None` where it is: `u64` is no
/// narrower than `i8`.
#[verifier::external_body]
fn u64_from_i8(n: i8) -> (r: Option<u64>)
    ensures
        n >= 0 ==> r == Some(n as u64),
        n < 0 ==> r.is_none(),
{
    <u64 as num_traits::FromPrimitive>::from_i8(n)
}

impl Integer for u64 {
    open spec fn as_int(self) -> int {
        self as int
    }

    open spec fn min_int() -> int {
        0
    }

    open spec fn max_int() -> int {
        u64::MAX as int
    }

    proof fn lemma_range(self) {
    }

    proof fn lemma_limits() {
    }

    fn zero() -> (r: Self) {
        u64_zero()
    }

    fn one() -> (r: Self) {
        u64_one()
    }

    fn from_i8(n: i8) -> (r: Option<Self>) {
        u64_from_i8(n)
    }

    fn from_u128(n: u128) -> (r: Option<Self>) {
        match u64::try_from(n) {
            Ok(v) => Some(v),
            Err(_) => None,
        }
    }

    fn equals(self, rhs: Self) -> (r: bool) {
        self == rhs
    }

    fn plus(self, rhs: Self) -> (r: Self) {
        self + rhs
    }

    fn minus(self, rhs: Self) -> (r: Self) {
        self - rhs
    }

    fn times(self, rhs: Self) -> (r: Self) {
        self * rhs
    }

    fn quotient(self, rhs: Self) -> (r: Self) {
        self / rhs
    }

    fn remainder(self, rhs: Self) -> (r: Self) {
        self % rhs
    }
}

impl Unsigned for u64 {
    proof fn lemma_unsigned() {
    }

    fn to_u128(self) -> (r: u128) {
        self as u128
    }
}

/// `<u128 as num_traits::Zero>::zero`, which returns the literal `0`.
#[verifier::external_body]
fn u128_zero() -> (r: u128)
    ensures
        r == 0,
{
    <u128 as num_traits::Zero>::zero()
}

/// `<u128 as num_traits::One>::one`, which returns the literal `1`.
#[verifier::external_body]
fn u128_one() -> (r: u128)
    ensures
        r == 1,
{
    <u128 as num_traits::One>::one()
}

/// `<u128 as num_traits::FromPrimitive>::from_i8`, which converts with `as`
/// where `n` is not negative, and returns `None` where it is: `u128` is no
/// narrower than `i8`.
#[verifier::external_body]
fn u128_from_i8(n: i8) -> (r: Option<u128>)
    ensures
        n >= 0 ==> r == Some(n as u128),
        n < 0 ==> r.is_none(),
{
    <u128 as num_traits::FromPrimitive>::from_i8(n)
}

impl Integer for u128 {
    open spec fn as_int(self) -> int {
        self as int
    }

    open spec fn min_int() -> int {
        0
    }

    open spec fn max_int() -> int {
        u128::MAX as int
    }

    proof fn lemma_range(self) {
    }

    proof fn lemma_limits() {
    }

    fn zero() -> (r: Self) {
        u128_zero()
    }

    fn one() -> (r: Self) {
        u128_one()
    }

    fn from_i8(n: i8) -> (r: Option<Self>) {
        u128_from_i8(n)
    }

    fn from_u128(n: u128) -> (r: Option<Self>) {
        Some(n)
    }

    fn equals(self, rhs: Self) -> (r: bool) {
        self == rhs
    }

    fn plus(self, rhs: Self) -> (r: Self) {
        self + rhs
    }

    fn minus(self, rhs: Self) -> (r: Self) {
        self - rhs
    }

    fn times(self, rhs: Self) -> (r: Self) {
        self * rhs
    }

    fn quotient(self, rhs: Self) -> (r: Self) {
        self / rhs
    }

    fn remainder(self, rhs: Self) -> (r: Self) {
        self % rhs
    }
}

impl Unsigned for u128 {
    proof fn lemma_unsigned() {
    }

    fn to_u128(self) -> (r: u128) {
        self as u128
    }
}

/// `<usize as num_traits::Zero>::zero`, which returns the literal `0`.
#[verifier::external_body]
fn usize_zero() -> (r: usize)
    ensures
        r == 0,
{
    <usize as num_traits::Zero>::zero()
}

/// `<usize as num_traits::One>::one`, which returns the literal `1`.
#[verifier::external_body]
fn usize_one() -> (r: usize)
    ensures
        r == 1,
{
    <usize as num_traits::One>::one()
}

/// `<usize as num_traits::FromPrimitive>::from_i8`, which converts with `as`
/// where `n` is not negative, and returns `None` where it is: `usize` is no
/// narrower than `i8`.
#[verifier::external_body]
fn usize_from_i8(n: i8) -> (r: Option<usize>)
    ensures
        n >= 0 ==> r == Some(n as usize),
        n < 0 ==> r.is_none(),
{
    <usize as num_traits::FromPrimitive>::from_i8(n)
}

impl Integer for usize {
    open spec fn as_int(self) -> int {
        self as int
    }

    open spec fn min_int() -> int {
        0
    }

    open spec fn max_int() -> int {
        usize::MAX as int
    }

    proof fn lemma_range(self) {
    }

    proof fn lemma_limits() {
    }

    fn zero() -> (r: Self) {
        usize_zero()
    }

    fn one() -> (r: Self) {
        usize_one()
    }

    fn from_i8(n: i8) -> (r: Option<Self>) {
        usize_from_i8(n)
    }

    fn from_u128(n: u128) -> (r: Option<Self>) {
        match usize::try_from(n) {
            Ok(v) => Some(v),
            Err(_) => None,
        }
    }

    fn equals(self, rhs: Self) -> (r: bool) {
        self == rhs
    }

    fn plus(self, rhs: Self) -> (r: Self) {
        self + rhs
    }

    fn minus(self, rhs: Self) -> (r: Self) {
        self - rhs
    }

    fn times(self, rhs: Self) -> (r: Self) {
        self * rhs
    }

    fn quotient(self, rhs: Self) -> (r: Self) {
        self / rhs
    }

    fn remainder(self, rhs: Self) -> (r: Self) {
        self % rhs
    }
}

impl Unsigned for usize {
    proof fn lemma_unsigned() {
    }

    fn to_u128(self) -> (r: u128) {
        self as u128
    }
}

} // verus!

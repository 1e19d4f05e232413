use modicum::{Integer, Modulus, Unsigned};

#[test]
fn zero_and_one_of_each_signed_type() {
    assert_eq!(<i8 as Integer>::zero(), 0);
    assert_eq!(<i8 as Integer>::one(), 1);
    assert_eq!(<i16 as Integer>::zero(), 0);
    assert_eq!(<i16 as Integer>::one(), 1);
    assert_eq!(<i32 as Integer>::zero(), 0);
    assert_eq!(<i32 as Integer>::one(), 1);
    assert_eq!(<i64 as Integer>::zero(), 0);
    assert_eq!(<i64 as Integer>::one(), 1);
    assert_eq!(<i128 as Integer>::zero(), 0);
    assert_eq!(<i128 as Integer>::one(), 1);
    assert_eq!(<isize as Integer>::zero(), 0);
    assert_eq!(<isize as Integer>::one(), 1);
}

#[test]
fn zero_and_one_of_each_unsigned_type() {
    assert_eq!(<u8 as Integer>::zero(), 0);
    assert_eq!(<u8 as Integer>::one(), 1);
    assert_eq!(<u16 as Integer>::zero(), 0);
    assert_eq!(<u16 as Integer>::one(), 1);
    assert_eq!(<u32 as Integer>::zero(), 0);
    assert_eq!(<u32 as Integer>::one(), 1);
    assert_eq!(<u64 as Integer>::zero(), 0);
    assert_eq!(<u64 as Integer>::one(), 1);
    assert_eq!(<u128 as Integer>::zero(), 0);
    assert_eq!(<u128 as Integer>::one(), 1);
    assert_eq!(<usize as Integer>::zero(), 0);
    assert_eq!(<usize as Integer>::one(), 1);
}

#[test]
fn from_i8_into_each_signed_type() {
    assert_eq!(<i8 as Integer>::from_i8(-128), Some(-128));
    assert_eq!(<i8 as Integer>::from_i8(127), Some(127));
    assert_eq!(<i16 as Integer>::from_i8(-128), Some(-128));
    assert_eq!(<i16 as Integer>::from_i8(2), Some(2));
    assert_eq!(<i32 as Integer>::from_i8(-128), Some(-128));
    assert_eq!(<i32 as Integer>::from_i8(2), Some(2));
    assert_eq!(<i64 as Integer>::from_i8(-1), Some(-1));
    assert_eq!(<i64 as Integer>::from_i8(2), Some(2));
    assert_eq!(<i128 as Integer>::from_i8(-128), Some(-128));
    assert_eq!(<i128 as Integer>::from_i8(2), Some(2));
    assert_eq!(<isize as Integer>::from_i8(-128), Some(-128));
    assert_eq!(<isize as Integer>::from_i8(2), Some(2));
}

#[test]
fn from_i8_into_each_unsigned_type() {
    assert_eq!(<u8 as Integer>::from_i8(127), Some(127));
    assert_eq!(<u8 as Integer>::from_i8(0), Some(0));
    assert_eq!(<u8 as Integer>::from_i8(-1), None);
    assert_eq!(<u16 as Integer>::from_i8(2), Some(2));
    assert_eq!(<u16 as Integer>::from_i8(-1), None);
    assert_eq!(<u32 as Integer>::from_i8(2), Some(2));
    assert_eq!(<u32 as Integer>::from_i8(-128), None);
    assert_eq!(<u64 as Integer>::from_i8(2), Some(2));
    assert_eq!(<u64 as Integer>::from_i8(-1), None);
    assert_eq!(<u128 as Integer>::from_i8(2), Some(2));
    assert_eq!(<u128 as Integer>::from_i8(-1), None);
    assert_eq!(<usize as Integer>::from_i8(2), Some(2));
    assert_eq!(<usize as Integer>::from_i8(-1), None);
}

#[test]
fn from_u128_succeeds_exactly_within_the_range() {
    assert_eq!(<i8 as Integer>::from_u128(127), Some(127));
    assert_eq!(<i8 as Integer>::from_u128(128), None);
    assert_eq!(<u8 as Integer>::from_u128(255), Some(255));
    assert_eq!(<u8 as Integer>::from_u128(256), None);
    assert_eq!(<i16 as Integer>::from_u128(32767), Some(32767));
    assert_eq!(<i16 as Integer>::from_u128(32768), None);
    assert_eq!(<u16 as Integer>::from_u128(65535), Some(65535));
    assert_eq!(<u16 as Integer>::from_u128(65536), None);
    assert_eq!(<i32 as Integer>::from_u128(2147483647), Some(2147483647));
    assert_eq!(<i32 as Integer>::from_u128(2147483648), None);
    assert_eq!(<u32 as Integer>::from_u128(4294967295), Some(4294967295));
    assert_eq!(<u32 as Integer>::from_u128(4294967296), None);
    assert_eq!(<i64 as Integer>::from_u128(i64::MAX as u128), Some(i64::MAX));
    assert_eq!(<i64 as Integer>::from_u128(i64::MAX as u128 + 1), None);
    assert_eq!(<u64 as Integer>::from_u128(u64::MAX as u128), Some(u64::MAX));
    assert_eq!(<u64 as Integer>::from_u128(u64::MAX as u128 + 1), None);
    assert_eq!(<i128 as Integer>::from_u128(i128::MAX as u128), Some(i128::MAX));
    assert_eq!(<i128 as Integer>::from_u128(i128::MAX as u128 + 1), None);
    assert_eq!(<u128 as Integer>::from_u128(u128::MAX), Some(u128::MAX));
    assert_eq!(<isize as Integer>::from_u128(isize::MAX as u128), Some(isize::MAX));
    assert_eq!(<isize as Integer>::from_u128(isize::MAX as u128 + 1), None);
    assert_eq!(<usize as Integer>::from_u128(usize::MAX as u128), Some(usize::MAX));
    assert_eq!(<usize as Integer>::from_u128(u128::MAX), None);
}

#[test]
fn arithmetic_of_a_signed_type() {
    assert!(Integer::equals(5i32, 5));
    assert!(!Integer::equals(5i32, -5));
    assert_eq!(Integer::plus(-7i32, 2), -5);
    assert_eq!(Integer::minus(-7i32, 2), -9);
    assert_eq!(Integer::times(-7i32, 2), -14);
    assert_eq!(Integer::quotient(-7i32, 2), -3);
    assert_eq!(Integer::quotient(7i32, -2), -3);
    assert_eq!(Integer::quotient(-7i32, -2), 3);
    assert_eq!(Integer::remainder(-7i32, 2), -1);
    assert_eq!(Integer::remainder(7i32, -2), 1);
    assert_eq!(Integer::remainder(-7i32, -2), -1);
    assert_eq!(Integer::quotient(i8::MIN, 1), i8::MIN);
    assert_eq!(Integer::remainder(i8::MIN, 1), 0);
    assert_eq!(Integer::quotient(i8::MAX, -1), -127);
}

#[test]
fn arithmetic_of_an_unsigned_type() {
    assert!(Integer::equals(5u8, 5));
    assert!(!Integer::equals(5u8, 6));
    assert_eq!(Integer::plus(250u8, 5), 255);
    assert_eq!(Integer::minus(250u8, 250), 0);
    assert_eq!(Integer::times(15u8, 17), 255);
    assert_eq!(Integer::quotient(255u8, 2), 127);
    assert_eq!(Integer::remainder(255u8, 2), 1);
}

#[test]
fn to_u128_keeps_the_value() {
    assert_eq!(Unsigned::to_u128(255u8), 255);
    assert_eq!(Unsigned::to_u128(65535u16), 65535);
    assert_eq!(Unsigned::to_u128(u32::MAX), 4294967295);
    assert_eq!(Unsigned::to_u128(u64::MAX), 18446744073709551615);
    assert_eq!(Unsigned::to_u128(u128::MAX), u128::MAX);
    assert_eq!(Unsigned::to_u128(77usize), 77);
}

#[test]
fn cast_keeps_the_value() {
    let a: i32 = 200u8.cast();
    assert_eq!(a, 200);
    let b: i8 = 127u64.cast();
    assert_eq!(b, 127);
    let c: u16 = 65535u128.cast();
    assert_eq!(c, 65535);
    let d: i128 = u64::MAX.cast();
    assert_eq!(d, 18446744073709551615);
    let e: usize = 9u8.cast();
    assert_eq!(e, 9);
}

use modicum::{AddMod, Constrain, DivMod, EqMod, MulMod, PowMod, SubMod};

#[test]
fn test_constrain() {
    assert_eq!(10.constrain(5u8), 0);
    assert_eq!(10.constrain(7u8), 3);
    assert_eq!(10.constrain(11u8), 10);
}

#[test]
fn test_constrain_negative() {
    assert_eq!((-10).constrain(5u8), 0);
    assert_eq!((-10).constrain(7u8), 4);
    assert_eq!((-10).constrain(11u8), 1);
}

#[test]
fn test_add_mod() {
    assert_eq!(10.add_mod(5, 7u8), 1);
    assert_eq!(10.add_mod(5, 11u8), 4);
    assert_eq!(10.add_mod(5, 13u8), 2);
}

#[test]
fn test_add_negative_mod() {
    assert_eq!((-10).add_mod(5, 7u8), 2);
    assert_eq!((-10).add_mod(5, 11u8), 6);
    assert_eq!((-10).add_mod(5, 13u8), 8);
}

#[test]
fn test_sub_mod() {
    assert_eq!(10.sub_mod(5, 7u8), 5);
    assert_eq!(10.sub_mod(5, 11u8), 5);
    assert_eq!(10.sub_mod(5, 13u8), 5);
}

#[test]
fn test_sub_negative_mod() {
    assert_eq!((-10).sub_mod(5, 7u8), 6);
    assert_eq!((-10).sub_mod(5, 11u8), 7);
    assert_eq!((-10).sub_mod(5, 13u8), 11);
}

#[test]
fn test_mul_mod() {
    assert_eq!(10.mul_mod(5, 7u8), 1);
    assert_eq!(10.mul_mod(5, 11u8), 6);
    assert_eq!(10.mul_mod(5, 13u8), 11);
}

#[test]
fn test_mul_negative_mod() {
    assert_eq!((-10).mul_mod(5, 7u8), 6);
    assert_eq!((-10).mul_mod(5, 11u8), 5);
    assert_eq!((-10).mul_mod(5, 13u8), 2);
}

#[test]
fn test_div_mod() {
    assert_eq!(10.div_mod(5, 7u8), Some(2));
    assert_eq!(10.div_mod(5, 11u8), Some(2));
    assert_eq!(10.div_mod(5, 13u8), Some(2));
    assert_eq!(10.div_mod(5, 10u8), None);
}

#[test]
fn test_div_negative_mod() {
    assert_eq!((-10).div_mod(5, 7u8), Some(5));
    assert_eq!((-10).div_mod(5, 11u8), Some(9));
    assert_eq!((-10).div_mod(5, 13u8), Some(11));
    assert_eq!((-10).div_mod(5, 10u8), None);
}

#[test]
fn test_eq_mod() {
    assert!(10.eq_mod(3, 7u8));
    assert!(10.eq_mod(10, 11u8));
    assert!(10.eq_mod(10, 13u8));
}

#[test]
fn test_eq_negative_mod() {
    assert!((-10).eq_mod(4, 7u8));
    assert!((-10).eq_mod(0, 10u8));
    assert!((-10).eq_mod(3, 13u8));
}

#[test]
fn test_ne_mod() {
    assert!(!10.ne_mod(3, 7u8));
    assert!(!10.ne_mod(0, 10u8));
    assert!(!10.ne_mod(10, 13u8));
}

#[test]
fn test_ne_negative_mod() {
    assert!(!(-10).ne_mod(4, 7u8));
    assert!(!(-10).ne_mod(0, 10u8));
    assert!(!(-10).ne_mod(3, 13u8));
}

#[test]
fn test_pow_mod() {
    assert_eq!(10.pow_mod(3, 3u8), 1);
    assert_eq!(10.pow_mod(3, 7u8), 6);
    assert_eq!(10.pow_mod(3, 10u8), 0);
    assert_eq!(10.pow_mod(3, 11u8), 10);
    assert_eq!(10.pow_mod(3, 13u8), 12);
}

#[test]
fn test_pow_negative_mod() {
    assert_eq!((-10).pow_mod(3, 3u8), 2);
    assert_eq!((-10).pow_mod(3, 7u8), 1);
    assert_eq!((-10).pow_mod(3, 10u8), 0);
    assert_eq!((-10).pow_mod(3, 11u8), 1);
    assert_eq!((-10).pow_mod(3, 13u8), 1);
}

#[test]
fn constrain_yields_a_residue_and_leaves_a_residue_unchanged() {
    for m in 1u8..=30 {
        for v in -100i32..=100 {
            let r = v.constrain(m);
            assert!(0 <= r && r < m as i32);
            assert_eq!(r, v.rem_euclid(m as i32));
            assert_eq!(r.constrain(m), r);
        }
    }
}

#[test]
fn constrain_with_modulus_one_is_zero() {
    assert_eq!(0i32.constrain(1u8), 0);
    assert_eq!(17i32.constrain(1u8), 0);
    assert_eq!((-17i32).constrain(1u8), 0);
}

#[test]
fn constrain_at_the_limits_of_the_operand_type() {
    assert_eq!(i32::MIN.constrain(7u8), 5);
    assert_eq!(i32::MAX.constrain(7u8), 1);
    assert_eq!(i8::MIN.constrain(127u8), 126);
    assert_eq!((-1i8).constrain(127u8), 126);
    assert_eq!(i64::MIN.constrain(4294967295u32), 2147483647);
}

#[test]
fn constrain_on_unsigned_operands() {
    assert_eq!(10u8.constrain(7u8), 3);
    assert_eq!(10u16.constrain(7u16), 3);
    assert_eq!(10u32.constrain(7u32), 3);
    assert_eq!(10u64.constrain(7u64), 3);
    assert_eq!(10u128.constrain(7u128), 3);
    assert_eq!(10usize.constrain(7usize), 3);
    assert_eq!(200u8.constrain(50u8), 0);
}

#[test]
fn constrain_with_each_modulus_type() {
    assert_eq!((-10i32).constrain(7u8), 4);
    assert_eq!((-10i32).constrain(7u16), 4);
    assert_eq!((-10i32).constrain(7u32), 4);
    assert_eq!((-10i32).constrain(7u64), 4);
    assert_eq!((-10i32).constrain(7u128), 4);
    assert_eq!((-10i32).constrain(7usize), 4);
}

#[test]
fn constrain_with_a_modulus_wider_than_the_operand() {
    assert_eq!((-10i8).constrain(100u64), 90);
    assert_eq!(100i16.constrain(30000u128), 100);
}

#[test]
fn add_sub_mul_mod_on_unsigned_operands() {
    assert_eq!(5u32.add_mod(3, 7u32), 1);
    assert_eq!(5u32.sub_mod(3, 7u32), 2);
    assert_eq!(5u32.mul_mod(3, 7u32), 1);
    assert_eq!(250u8.add_mod(5, 100u8), 55);
    assert_eq!(15u8.mul_mod(17, 100u8), 55);
}

#[test]
fn add_sub_mul_mod_reduce_the_exact_result() {
    for m in 1u8..=20 {
        for a in -30i32..=30 {
            for b in -30i32..=30 {
                assert_eq!(a.add_mod(b, m), (a + b).rem_euclid(m as i32));
                assert_eq!(a.sub_mod(b, m), (a - b).rem_euclid(m as i32));
                assert_eq!(a.mul_mod(b, m), (a * b).rem_euclid(m as i32));
            }
        }
    }
}

#[test]
fn div_mod_multiplied_back_is_congruent_to_the_dividend() {
    for m in 1u8..=20 {
        for a in -30i32..=30 {
            for b in -30i32..=30 {
                if let Some(q) = a.div_mod(b, m) {
                    assert!(0 <= q && q < m as i32);
                    assert_eq!((b * q).constrain(m), a.constrain(m));
                }
            }
        }
    }
}

#[test]
fn div_mod_is_none_exactly_where_invert_is() {
    for m in 1u8..=20 {
        for b in -30i32..=30 {
            assert_eq!(7i32.div_mod(b, m).is_none(), modicum::invert(b, m).is_none());
        }
    }
}

#[test]
fn div_mod_exact_values() {
    assert_eq!(7i32.div_mod(3, 10u8), Some(9));
    assert_eq!((-7i32).div_mod(3, 10u8), Some(1));
    assert_eq!(1i64.div_mod(2, 2147483647u32), Some(1073741824));
    assert_eq!(5i32.div_mod(0, 7u8), None);
    assert_eq!(5i32.div_mod(3, 1u8), Some(0));
}

#[test]
fn pow_mod_with_exponent_zero_is_one() {
    assert_eq!(5i32.pow_mod(0, 7u8), 1);
    assert_eq!(0i32.pow_mod(0, 7u8), 1);
    assert_eq!(7i32.pow_mod(0, 7u8), 1);
    assert_eq!((-5i32).pow_mod(0, 7u8), 1);
    assert_eq!(5i32.pow_mod(0, 1u8), 1);
    assert_eq!(5u8.pow_mod(0, 1u8), 1);
}

#[test]
fn pow_mod_with_exponent_zero_does_not_look_at_the_modulus() {
    assert_eq!(5i8.pow_mod(0, 200u8), 1);
    assert_eq!(5u8.pow_mod(0, 65535u16), 1);
}

#[test]
fn pow_mod_with_exponent_one_is_the_residue() {
    for m in 1u8..=20 {
        for a in -30i32..=30 {
            assert_eq!(a.pow_mod(1, m), a.constrain(m));
        }
    }
    assert_eq!(10i32.pow_mod(1, 7u8), 3);
    assert_eq!((-10i32).pow_mod(1, 7u8), 4);
    assert_eq!(5i32.pow_mod(1, 1u8), 0);
}

#[test]
fn pow_mod_of_zero_and_modulo_one() {
    assert_eq!(0i32.pow_mod(5, 7u8), 0);
    assert_eq!(5i32.pow_mod(3, 1u8), 0);
}

#[test]
fn pow_mod_exact_values() {
    assert_eq!(3i32.pow_mod(4, 5u8), 1);
    assert_eq!(2i32.pow_mod(10, 1000u16), 24);
    assert_eq!(7i32.pow_mod(128, 13u8), 3);
    assert_eq!((-7i32).pow_mod(5, 13u8), 2);
    assert_eq!(2i64.pow_mod(62, 1000000007u32), 145586002);
    assert_eq!(3i64.pow_mod(200, 65521u16), 24580);
    assert_eq!(123456789i128.pow_mod(1000, 1000000007u32), 620139939);
    assert_eq!(2i16.pow_mod(100, 127u8), 4);
}

#[test]
fn pow_mod_is_the_residue_of_the_power() {
    for m in 1u8..=12 {
        for a in -6i64..=6 {
            let mut power = 1i64;
            for e in 1i64..=8 {
                power *= a;
                assert_eq!(a.pow_mod(e, m), power.rem_euclid(m as i64));
            }
        }
    }
}

#[test]
fn pow_mod_on_each_operand_type() {
    assert_eq!(3i8.pow_mod(5, 7u8), 5);
    assert_eq!(3i16.pow_mod(5, 7u8), 5);
    assert_eq!(3i32.pow_mod(5, 7u8), 5);
    assert_eq!(3i64.pow_mod(5, 7u8), 5);
    assert_eq!(3i128.pow_mod(5, 7u8), 5);
    assert_eq!(3isize.pow_mod(5, 7u8), 5);
    assert_eq!(3u8.pow_mod(5, 7u8), 5);
    assert_eq!(3u16.pow_mod(5, 7u8), 5);
    assert_eq!(3u32.pow_mod(5, 7u8), 5);
    assert_eq!(3u64.pow_mod(5, 7u8), 5);
    assert_eq!(3u128.pow_mod(5, 7u8), 5);
    assert_eq!(3usize.pow_mod(5, 7u8), 5);
}

#[test]
fn eq_mod_is_the_negation_of_ne_mod() {
    for m in 1u8..=20 {
        for a in -30i32..=30 {
            for b in -30i32..=30 {
                assert_eq!(a.eq_mod(b, m), !a.ne_mod(b, m));
                assert_eq!(a.eq_mod(b, m), (a - b).rem_euclid(m as i32) == 0);
            }
        }
    }
}

#[test]
fn operations_in_a_narrow_type() {
    let a = 5_i8;
    let b = 3_i8;
    let modulus = 7_u32;
    assert_eq!(a.add_mod(b, modulus), 1);
    assert_eq!(a.sub_mod(b, modulus), 2);
    assert_eq!(a.mul_mod(b, modulus), 1);
    assert_eq!(a.div_mod(b, modulus), Some(4));
    assert!(a.eq_mod(5, modulus));
    assert!(!a.ne_mod(5, modulus));
    assert!(a.ne_mod(6, modulus));
    assert!(!a.eq_mod(6, modulus));
}

#[test]
fn eq_mod_on_unsigned_operands() {
    assert!(10u32.eq_mod(3, 7u32));
    assert!(10u32.ne_mod(4, 7u32));
    assert!(!10u32.eq_mod(4, 7u32));
}

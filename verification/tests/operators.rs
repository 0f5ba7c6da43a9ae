use m68000::utils::BigInt;

#[test]
fn overflowing() {
    // add u8 1
    assert_eq!(255u8.overflowing_add(1), (0, true), "255u8.overflowing_add(1)");
    assert_eq!(127u8.overflowing_add(1), (128, false), "127u8.overflowing_add(1)");
    // add i8 1
    assert_eq!((255u8 as i8).overflowing_add(1), (0, false), "(255u8 as i8).overflowing_add(1)");
    assert_eq!(127i8.overflowing_add(1), (-128, true), "127i8.overflowing_add(1)");

    // add u8 -1
    assert_eq!(0u8.overflowing_add(255), (255, false), "0u8.overflowing_add(255)");
    assert_eq!(128u8.overflowing_add(255), (127, true), "128u8.overflowing_add(255)");
    // add i8 -1
    assert_eq!(0i8.overflowing_add(-1), (-1, false), "0i8.overflowing_add(-1)");
    assert_eq!((-128i8).overflowing_add(-1), (127, true), "(-128i8).overflowing_add(-1)");

    // sub u8 1
    assert_eq!(0u8.overflowing_sub(1), (255, true), "0u8.overflowing_sub(1)");
    assert_eq!(128u8.overflowing_sub(1), (127, false), "128u8.overflowing_sub(1)");
    // sub i8 1
    assert_eq!(0i8.overflowing_sub(1), (-1, false), "0i8.overflowing_sub(1)");
    assert_eq!((-128i8).overflowing_sub(1), (127, true), "(-128i8).overflowing_sub(1)");

    // sub u8 -1
    assert_eq!(255u8.overflowing_sub(255), (0, false), "255u8.overflowing_sub(255)");
    assert_eq!(127u8.overflowing_sub(255), (128, true), "127u8.overflowing_sub(255)");
    // sub i8 -1
    assert_eq!((255u8 as i8).overflowing_sub(-1), (0, false), "(255u8 as i8).overflowing_sub(-1)");
    assert_eq!(127i8.overflowing_sub(-1), (-128, true), "127i8.overflowing_sub(-1)");
}

#[test]
fn std_extended() {
    // add u8
    assert_eq!(255u8.carrying_add(1, false), (0, true), "255u8.carrying_add(1, false)");
    assert_eq!(255u8.carrying_add(0, true), (0, true), "255u8.carrying_add(0, true)");
    assert_eq!(255u8.carrying_add(1, true), (1, true), "255u8.carrying_add(1, true)");
    assert_eq!(0u8.carrying_add(255, false), (255, false), "0u8.carrying_add(255, false)");
    assert_eq!(0u8.carrying_add(255, true), (0, true), "0u8.carrying_add(255, true)");

    // add i8
    // test_operator!(127i8.carrying_add(1, false), (-128, true));
    // test_operator!(127i8.carrying_add(0, true), (-128, true));
    // test_operator!(127i8.carrying_add(1, true), (-127, true));
    // test_operator!(127i8.carrying_add(-1, false), (126, false));
    // test_operator!(127i8.carrying_add(-1, true), (127, false)); // no intermediate overflow
    // test_operator!((-128i8).carrying_add(-1, false), (127, true));
    // test_operator!((-128i8).carrying_add(-1, true), (-128, false)); // no intermediate overflow

    // sub u8
    assert_eq!(0u8.borrowing_sub(1, false), (255u8, true), "0u8.borrowing_sub(1, false)");
    assert_eq!(0u8.borrowing_sub(0, true), (255u8, true), "0u8.borrowing_sub(0, true)");
    assert_eq!(0u8.borrowing_sub(1, true), (254u8, true), "0u8.borrowing_sub(1, true)");
    assert_eq!(255u8.borrowing_sub(255, false), (0, false), "255u8.borrowing_sub(255, false)");
    assert_eq!(255u8.borrowing_sub(255, true), (255u8, true), "255u8.borrowing_sub(255, true)");

    // sub i8
    // test_operator!((-128i8).borrowing_sub(1, false), (127, true));
    // test_operator!((-128i8).borrowing_sub(0, true), (127, true));
    // test_operator!((-128i8).borrowing_sub(1, true), (126, true));
    // test_operator!((-128i8).borrowing_sub(-1, false), (-127, false));
    // test_operator!((-128i8).borrowing_sub(-1, true), (-128, false)); // no intermediate overflow
    // test_operator!(127i8.borrowing_sub(-1, false), (-128, true));
    // test_operator!(127i8.borrowing_sub(-1, true), (127, false)); // no intermediate overflow
}

#[test]
fn custom_extended() {
    // add u8
    assert_eq!(255u8.extended_add(1, false), (0, true), "255u8.extended_add(1, false)");
    assert_eq!(255u8.extended_add(0, true), (0, true), "255u8.extended_add(0, true)");
    assert_eq!(255u8.extended_add(1, true), (1, true), "255u8.extended_add(1, true)");
    assert_eq!(0u8.extended_add(255, false), (255, false), "0u8.extended_add(255, false)");
    assert_eq!(0u8.extended_add(255, true), (0, true), "0u8.extended_add(255, true)");

    // add i8
    assert_eq!(127i8.extended_add(1, false), (-128, true), "127i8.extended_add(1, false)");
    assert_eq!(127i8.extended_add(0, true), (-128, true), "127i8.extended_add(0, true)");
    assert_eq!(127i8.extended_add(1, true), (-127, true), "127i8.extended_add(1, true)");
    assert_eq!(127i8.extended_add(-1, false), (126, false), "127i8.extended_add(-1, false)");
    assert_eq!(127i8.extended_add(-1, true), (127, false), "127i8.extended_add(-1, true)"); // no intermediate overflow
    assert_eq!((-128i8).extended_add(-1, false), (127, true), "(-128i8).extended_add(-1, false)");
    assert_eq!((-128i8).extended_add(-1, true), (-128, false), "(-128i8).extended_add(-1, true)"); // no intermediate overflow
    assert_eq!((0i8).extended_add(127, true), (-128, true), "(0i8).extended_add(127, true)");

    // sub u8
    assert_eq!(0u8.extended_sub(1, false), (255u8, true), "0u8.extended_sub(1, false)");
    assert_eq!(0u8.extended_sub(0, true), (255u8, true), "0u8.extended_sub(0, true)");
    assert_eq!(0u8.extended_sub(1, true), (254u8, true), "0u8.extended_sub(1, true)");
    assert_eq!(255u8.extended_sub(255, false), (0, false), "255u8.extended_sub(255, false)");
    assert_eq!(255u8.extended_sub(255, true), (255u8, true), "255u8.extended_sub(255, true)");

    // sub i8
    assert_eq!((-128i8).extended_sub(1, false), (127, true), "(-128i8).extended_sub(1, false)");
    assert_eq!((-128i8).extended_sub(0, true), (127, true), "(-128i8).extended_sub(0, true)");
    assert_eq!((-128i8).extended_sub(1, true), (126, true), "(-128i8).extended_sub(1, true)");
    assert_eq!((-128i8).extended_sub(-1, false), (-127, false), "(-128i8).extended_sub(-1, false)");
    assert_eq!((-128i8).extended_sub(-1, true), (-128, false), "(-128i8).extended_sub(-1, true)"); // no intermediate overflow
    assert_eq!(127i8.extended_sub(-1, false), (-128, true), "127i8.extended_sub(-1, false)");
    assert_eq!(127i8.extended_sub(-1, true), (127, false), "127i8.extended_sub(-1, true)"); // no intermediate overflow
    assert_eq!((0i8).extended_sub(-128, true), (127, false), "(0i8).extended_sub(-128, true)");
}

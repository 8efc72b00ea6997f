use dynamin::BitField;

#[test]
fn test_bit_field() {
    let x: u16 = 0x3964;

    assert_eq!(x.get_bit(2), true);
    assert_eq!(x.get_bit(3), false);

    assert_eq!(x.get_bits(4..10), 0b010110);

    assert_eq!(x.set_bit(3, true), 0x396C);
    assert_eq!(x.set_bit(3, false), 0x3964);
    assert_eq!(x.set_bit(12, false), 0x2964);

    assert_eq!(x.set_bits(1..4, 0b101), 0x396A);
    assert_eq!(x.set_bits(7..9, 0b11), 0x39E4);
}

#[test]
fn set_bits_then_get_bits_returns_value_and_keeps_other_bits() {
    let x: u8 = 0b1010_0101;
    for v in 0u8..4 {
        let y = x.set_bits(3..5, v);
        assert_eq!(y.get_bits(3..5), v);
        for i in 0u8..8 {
            if i < 3 || i >= 5 {
                assert_eq!(y.get_bit(i), x.get_bit(i));
            }
        }
    }
}

#[test]
fn set_bits_clears_the_whole_field_before_writing() {
    let x: u8 = 0xff;
    assert_eq!(x.set_bits(2..6, 0), 0b1100_0011);
    let w: u16 = 0xffff;
    assert_eq!(w.set_bits(8..16, 0x12), 0x12ff);
}

#[test]
fn full_width_and_empty_ranges() {
    let x: u8 = 0xa5;
    assert_eq!(x.get_bits(0..8), 0xa5);
    assert_eq!(x.set_bits(0..8, 0x3c), 0x3c);
    assert_eq!(x.get_bits(8..8), 0);
    assert_eq!(x.set_bits(4..4, 0), 0xa5);
    let w: u16 = 0x8001;
    assert_eq!(w.get_bit(15), true);
    assert_eq!(w.get_bits(0..16), 0x8001);
}

#[test]
fn set_bit_round_trip_on_u8() {
    let x: u8 = 0b0101_0101;
    for n in 0u8..8 {
        for b in [false, true] {
            let y = x.set_bit(n, b);
            assert_eq!(y.get_bit(n), b);
            for i in 0u8..8 {
                if i != n {
                    assert_eq!(y.get_bit(i), x.get_bit(i));
                }
            }
        }
    }
}

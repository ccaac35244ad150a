use yagami_decryption_agency::word::{load_le, rotate_left, rotate_right, store_le};

const SAMPLES: [u64; 8] = [
    0,
    1,
    u64::MAX,
    0x8000_0000_0000_0000,
    0x0123_4567_89AB_CDEF,
    0xDEAD_BEEF_0BAD_F00D,
    0x0000_0000_FFFF_FFFF,
    0x5555_5555_5555_5555,
];

#[test]
fn rotate_left_exact_values() {
    assert_eq!(rotate_left(0x0123_4567_89AB_CDEF, 4), 0x1234_5678_9ABC_DEF0);
    assert_eq!(rotate_left(0x0123_4567_89AB_CDEF, 0), 0x0123_4567_89AB_CDEF);
    assert_eq!(rotate_left(1, 63), 0x8000_0000_0000_0000);
    assert_eq!(rotate_left(0x8000_0000_0000_0000, 1), 1);
    assert_eq!(rotate_left(0x8000_0000_0000_0001, 32), 0x0000_0001_8000_0000);
}

#[test]
fn rotate_right_exact_values() {
    assert_eq!(rotate_right(0x0123_4567_89AB_CDEF, 4), 0xF012_3456_789A_BCDE);
    assert_eq!(rotate_right(0x0123_4567_89AB_CDEF, 0), 0x0123_4567_89AB_CDEF);
    assert_eq!(rotate_right(1, 1), 0x8000_0000_0000_0000);
    assert_eq!(rotate_right(0x8000_0000_0000_0000, 63), 1);
    assert_eq!(rotate_right(2, 1), 1);
}

#[test]
fn rotations_agree_with_the_standard_library() {
    for x in SAMPLES {
        for n in 0u32..64 {
            assert_eq!(rotate_left(x, n), x.rotate_left(n), "left {x:#x} by {n}");
            assert_eq!(rotate_right(x, n), x.rotate_right(n), "right {x:#x} by {n}");
        }
    }
}

#[test]
fn rotations_by_64_or_more_count_modulo_64() {
    for x in SAMPLES {
        for n in [64u32, 65, 100, 127, 128, 1000, u32::MAX] {
            assert_eq!(rotate_left(x, n), rotate_left(x, n % 64));
            assert_eq!(rotate_right(x, n), rotate_right(x, n % 64));
            assert_eq!(rotate_left(x, n), x.rotate_left(n));
            assert_eq!(rotate_right(x, n), x.rotate_right(n));
        }
    }
    assert_eq!(rotate_left(0x0123_4567_89AB_CDEF, 64), 0x0123_4567_89AB_CDEF);
    assert_eq!(rotate_left(0x0123_4567_89AB_CDEF, 68), 0x1234_5678_9ABC_DEF0);
}

#[test]
fn rotate_right_undoes_rotate_left() {
    for x in SAMPLES {
        for n in 0u32..64 {
            assert_eq!(rotate_right(rotate_left(x, n), n), x);
        }
    }
}

#[test]
fn rotate_left_undoes_rotate_right() {
    for x in SAMPLES {
        for n in 0u32..64 {
            assert_eq!(rotate_left(rotate_right(x, n), n), x);
        }
    }
}

#[test]
fn rotations_of_zero_and_all_ones_change_nothing() {
    for n in 0u32..64 {
        assert_eq!(rotate_left(0, n), 0);
        assert_eq!(rotate_right(0, n), 0);
        assert_eq!(rotate_left(u64::MAX, n), u64::MAX);
        assert_eq!(rotate_right(u64::MAX, n), u64::MAX);
    }
}

#[test]
fn load_le_reads_least_significant_byte_first() {
    let data: Vec<u8> = vec![0xEF, 0xCD, 0xAB, 0x89, 0x67, 0x45, 0x23, 0x01];
    assert_eq!(load_le(&data, 0), 0x0123_4567_89AB_CDEF);
}

#[test]
fn load_le_reads_at_an_offset() {
    let data: Vec<u8> = vec![0xAA, 0xBB, 0x01, 0, 0, 0, 0, 0, 0, 0x80, 0xCC];
    assert_eq!(load_le(&data, 2), 0x8000_0000_0000_0001);
    assert_eq!(load_le(&data, 3), 0xCC80_0000_0000_0000);
}

#[test]
fn load_le_agrees_with_the_standard_library() {
    let data: Vec<u8> = (0u8..32).map(|b| b.wrapping_mul(37).wrapping_add(11)).collect();
    for at in 0usize..=24 {
        let mut bytes = [0u8; 8];
        bytes.copy_from_slice(&data[at..at + 8]);
        assert_eq!(load_le(&data, at), u64::from_le_bytes(bytes));
    }
}

#[test]
fn store_le_writes_least_significant_byte_first() {
    let mut data: Vec<u8> = vec![0; 8];
    store_le(&mut data, 0, 0x0123_4567_89AB_CDEF);
    assert_eq!(data, vec![0xEF, 0xCD, 0xAB, 0x89, 0x67, 0x45, 0x23, 0x01]);
}

#[test]
fn store_le_leaves_the_other_bytes() {
    let mut data: Vec<u8> = vec![0x11; 12];
    store_le(&mut data, 3, 0x8877_6655_4433_2211);
    assert_eq!(
        data,
        vec![0x11, 0x11, 0x11, 0x11, 0x22, 0x33, 0x44, 0x55, 0x66, 0x77, 0x88, 0x11]
    );
}

#[test]
fn store_le_agrees_with_the_standard_library() {
    for x in SAMPLES {
        let mut data: Vec<u8> = vec![0; 8];
        store_le(&mut data, 0, x);
        assert_eq!(data, x.to_le_bytes().to_vec());
    }
}

#[test]
fn load_le_undoes_store_le() {
    for x in SAMPLES {
        let mut data: Vec<u8> = vec![0xA5; 10];
        store_le(&mut data, 1, x);
        assert_eq!(load_le(&data, 1), x);
        assert_eq!(data[0], 0xA5);
        assert_eq!(data[9], 0xA5);
    }
}

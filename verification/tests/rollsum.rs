use rdiff::rollsum::{Rollsum, Rollsum1};

#[test]
pub fn default_value() {
    let rs = Rollsum1::new();
    assert_eq!(rs.count(), 0);
    assert_eq!(rs.s1(), 0);
    assert_eq!(rs.s2(), 0);
    assert_eq!(rs.digest(), 0u32);
}

#[test]
pub fn rollsum() {
    let mut rs = Rollsum1::new();
    rs.roll_in(0u8);
    assert_eq!(rs.count(), 1);
    assert_eq!(rs.digest(), 0x001f001f);

    rs.roll_in(1u8);
    rs.roll_in(2u8);
    rs.roll_in(3u8); // [0, 1, 2, 3]
    assert_eq!(rs.count(), 4);
    assert_eq!(rs.digest(), 0x01400082);

    // Test rotations.
    //
    // Roll out the 0 from the start of the ring, and roll in a 4.
    // Final state: [1,2,3,4]
    rs.rotate(0, 4);
    assert_eq!(rs.count(), 4);
    assert_eq!(rs.digest(), 0x014a0086);

    // Rotate through three more bytes.
    rs.rotate(1, 5);
    rs.rotate(2, 6);
    rs.rotate(3, 7);
    assert_eq!(rs.count(), 4);
    assert_eq!(rs.digest(), 0x01680092);

    // Test rolling data out, shortening the window.
    rs.roll_out(4); // [5, 6, 7]
    assert_eq!(rs.count(), 3);
    assert_eq!(rs.digest(), 0x00dc006f);

    rs.roll_out(5);
    rs.roll_out(6);
    rs.roll_out(7); // []
    assert_eq!(rs.count(), 0);
    assert_eq!(rs.digest(), 0);
}

#[test]
pub fn update() {
    let mut rs = Rollsum1::new();
    let mut buf = [0u8; 256];
    for i in 0..buf.len() {
        buf[i] = i as u8;
    }
    rs.update(&buf);
    assert_eq!(rs.digest(), 0x3a009e80);
}

/// The sum of `data` by one `roll_in` for each byte.
fn rolled_in(data: &[u8]) -> Rollsum1 {
    let mut rs = Rollsum1::new();
    for &c in data {
        rs.roll_in(c);
    }
    rs
}

/// Some bytes that run through all values, `len` of them.
fn sample(len: usize) -> Vec<u8> {
    (0..len).map(|i| (i * 7 % 251) as u8).collect()
}

fn same_state(a: &Rollsum1, b: &Rollsum1) -> bool {
    a.count() == b.count() && a.s1() == b.s1() && a.s2() == b.s2() && a.digest() == b.digest()
}

#[test]
pub fn default_is_a_new_sum() {
    assert!(same_state(&Rollsum1::default(), &Rollsum1::new()));
}

#[test]
pub fn digest_holds_s2_above_s1() {
    let rs = rolled_in(b"abc");
    assert_eq!(rs.count(), 3);
    assert_eq!(rs.s1(), 0x0183);
    assert_eq!(rs.s2(), 0x0304);
    assert_eq!(rs.digest(), 0x0304_0183);
}

#[test]
pub fn roll_in_adds_the_offset() {
    let mut rs = Rollsum1::new();
    rs.roll_in(255);
    assert_eq!(rs.s1(), 286);
    assert_eq!(rs.s2(), 286);
    rs.roll_in(255);
    assert_eq!(rs.s1(), 572);
    assert_eq!(rs.s2(), 858);
    assert_eq!(rs.count(), 2);
}

#[test]
pub fn update_of_nothing_changes_nothing() {
    let mut rs = rolled_in(b"abc");
    rs.update(&[]);
    assert!(same_state(&rs, &rolled_in(b"abc")));
}

#[test]
pub fn update_is_roll_in_of_each_byte() {
    for len in [0usize, 1, 2, 3, 255, 256, 257, 2048, 5000] {
        let data = sample(len);
        let mut rs = Rollsum1::new();
        rs.update(&data);
        assert!(same_state(&rs, &rolled_in(&data)), "length {}", len);
    }
}

#[test]
pub fn update_on_a_sum_in_use() {
    let data = sample(1000);
    let mut rs = Rollsum1::new();
    rs.update(&data[..300]);
    rs.update(&data[300..]);
    assert!(same_state(&rs, &rolled_in(&data)));
}

#[test]
pub fn update_wraps_at_sixteen_bits() {
    // 65536 zero bytes: the count wraps to zero, and so does s1.
    let zeros = vec![0u8; 65536];
    let mut rs = Rollsum1::new();
    rs.update(&zeros);
    assert_eq!(rs.count(), 0);
    assert_eq!(rs.digest(), 0x8000_0000);
    assert!(same_state(&rs, &rolled_in(&zeros)));

    let ones = vec![0xffu8; 70000];
    let mut rs = Rollsum1::new();
    rs.update(&ones);
    assert_eq!(rs.count(), 4464);
    assert_eq!(rs.digest(), 0x3c90_7b20);
    assert!(same_state(&rs, &rolled_in(&ones)));
}

#[test]
pub fn update_of_more_than_two_to_the_seventeen_bytes() {
    let data: Vec<u8> = (0..200000usize).map(|i| (i % 251) as u8).collect();
    let mut rs = Rollsum1::new();
    rs.update(&data);
    assert_eq!(rs.count(), 3392);
    assert_eq!(rs.digest(), 0x3ba0_0046);
}

#[test]
pub fn a_block_of_a_sums_to_zero() {
    let mut rs = Rollsum1::new();
    rs.update(&[b'a'; 2048]);
    assert_eq!(rs.count(), 2048);
    assert_eq!(rs.digest(), 0);
}

#[test]
pub fn roll_out_in_the_same_order_empties_the_sum() {
    for len in [1usize, 2, 17, 300, 70000] {
        let data = sample(len);
        let mut rs = rolled_in(&data);
        for &c in &data {
            rs.roll_out(c);
        }
        assert_eq!(rs.count(), 0, "length {}", len);
        assert_eq!(rs.digest(), 0, "length {}", len);
        assert!(same_state(&rs, &Rollsum1::new()));
    }
}

#[test]
pub fn roll_out_drops_the_first_byte_of_the_window() {
    let data = sample(50);
    let mut rs = rolled_in(&data);
    rs.roll_out(data[0]);
    assert!(same_state(&rs, &rolled_in(&data[1..])));
}

#[test]
pub fn rotate_is_roll_out_then_roll_in() {
    let data = sample(600);
    let window = 64;
    let mut rotated = rolled_in(&data[..window]);
    let mut stepped = rolled_in(&data[..window]);
    for i in window..data.len() {
        rotated.rotate(data[i - window], data[i]);
        stepped.roll_out(data[i - window]);
        stepped.roll_in(data[i]);
        assert!(same_state(&rotated, &stepped), "at {}", i);
        assert!(same_state(&rotated, &rolled_in(&data[i + 1 - window..i + 1])), "at {}", i);
    }
}

#[test]
pub fn rotate_with_high_bytes() {
    let mut rs = rolled_in(&[0xff, 0x00, 0xff]);
    rs.rotate(0xff, 0x00);
    assert!(same_state(&rs, &rolled_in(&[0x00, 0xff, 0x00])));
    rs.rotate(0x00, 0xff);
    assert!(same_state(&rs, &rolled_in(&[0xff, 0x00, 0xff])));
}

#[test]
pub fn rotate_on_a_window_of_a_whole_count() {
    // A window of 65536 bytes has a count of zero.
    let data = sample(65536 + 10);
    let mut rs = rolled_in(&data[..65536]);
    assert_eq!(rs.count(), 0);
    for i in 0..10 {
        rs.rotate(data[i], data[65536 + i]);
    }
    assert!(same_state(&rs, &rolled_in(&data[10..])));
}

#[test]
pub fn a_copy_is_a_sum_of_its_own() {
    let mut rs = rolled_in(b"abc");
    let kept = rs;
    rs.roll_in(b'd');
    assert!(same_state(&kept, &rolled_in(b"abc")));
    assert!(same_state(&rs, &rolled_in(b"abcd")));
}

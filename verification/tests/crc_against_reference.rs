use crc8::Crc8;
use morty_rs::crc::crc8_compute;

fn reference_crc(data: &[u8]) -> u8 {
    let mut c = Crc8::create_msb(0x07);
    c.calc(data, data.len() as i32, 0)
}

#[test]
fn matches_the_reference_implementation() {
    let cases: Vec<Vec<u8>> = vec![
        vec![],
        vec![0],
        vec![0xff],
        vec![1, 2, 3, 4, 5],
        vec![0xde, 0xad, 0xbe, 0xef],
        (0u8..=255).collect(),
        vec![0x31; 100],
    ];
    for data in cases {
        assert_eq!(crc8_compute(&data), reference_crc(&data), "input {:?}", data);
    }
}

#[test]
fn known_value_of_single_byte() {
    // 0x01 through the MSB-first 0x07 polynomial: eight shifts turn it
    // into the polynomial itself.
    assert_eq!(crc8_compute(&[1]), 0x07);
    assert_eq!(crc8_compute(&[0]), 0x00);
    assert_eq!(crc8_compute(&[]), 0x00);
}

#[test]
fn single_bit_flips_change_the_checksum() {
    let data: Vec<u8> = vec![10, 20, 30, 40, 50, 60, 70, 80];
    let original = crc8_compute(&data);
    for i in 0..data.len() {
        for j in 0..8 {
            let mut flipped = data.clone();
            flipped[i] ^= 1u8 << j;
            assert_ne!(crc8_compute(&flipped), original, "byte {} bit {}", i, j);
        }
    }
}

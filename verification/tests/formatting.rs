use morty_rs::led::{apply_brightness, blink_halves, Rgb};
use morty_rs::utils::{mac_to_bytes, mac_to_string};

#[test]
fn a_mac_formats_as_colon_separated_hex() {
    let mac = [0xaa, 0xbb, 0xcc, 0x01, 0x2f, 0x00];
    assert_eq!(mac_to_string(&mac), "aa:bb:cc:01:2f:00");
    assert_eq!(mac_to_bytes(&mac), b"aa:bb:cc:01:2f:00".to_vec());
}

#[test]
fn short_and_empty_addresses_format_too() {
    assert_eq!(mac_to_string(&[]), "");
    assert_eq!(mac_to_string(&[0x0f]), "0f");
    assert_eq!(mac_to_bytes(&[0xf0, 0x0d]), b"f0:0d".to_vec());
}

#[test]
fn brightness_scaling_matches_the_formula() {
    let c = Rgb { r: 255, g: 128, b: 7 };
    let dimmed = apply_brightness(c, 10);
    assert_eq!(dimmed, Rgb {
        r: (255u32 * 11 / 256) as u8,
        g: (128u32 * 11 / 256) as u8,
        b: (7u32 * 11 / 256) as u8,
    });
    assert_eq!(dimmed, Rgb { r: 10, g: 5, b: 0 });
}

#[test]
fn full_brightness_keeps_the_color() {
    let c = Rgb { r: 255, g: 200, b: 1 };
    assert_eq!(apply_brightness(c, 255), c);
}

#[test]
fn zero_brightness_turns_the_color_off() {
    let c = Rgb { r: 255, g: 255, b: 255 };
    assert_eq!(apply_brightness(c, 0), Rgb { r: 0, g: 0, b: 0 });
}

#[test]
fn blink_halves_split_the_period() {
    assert_eq!(blink_halves(300, 50), (150, 150));
    assert_eq!(blink_halves(1000, 25), (250, 750));
    assert_eq!(blink_halves(99, 50), (49, 49));
}

use quotebook::package::Package;

fn pkg(checksum: &str) -> Package {
    Package { checksum: checksum.to_string() }
}

#[test]
fn checksum_decodes_to_colour_and_coordinates() {
    let (color, top, left) = pkg("abcdef1234").cal().unwrap();
    assert_eq!(color, "#abcdef");
    assert_eq!(top, 0x12);
    assert_eq!(left, 0x34);
}

#[test]
fn longer_checksum_uses_only_the_first_ten_digits() {
    let (color, top, left) = pkg("0011AAff90beefbeef").cal().unwrap();
    assert_eq!(color, "#0011AA");
    assert_eq!(top, 0xff);
    assert_eq!(left, 0x90);
}

#[test]
fn short_checksum_is_refused() {
    assert!(pkg("abcdef123").cal().is_none());
    assert!(pkg("").cal().is_none());
}

#[test]
fn non_hex_checksum_is_refused() {
    assert!(pkg("abcdefg123").cal().is_none());
    assert!(pkg("abcdef1234zz").cal().is_none());
}

use blake2::Digest;
use netchart::color::interface_color;

#[test]
fn same_name_same_color() {
    let a = interface_color("eth0");
    let b = interface_color("eth0");
    assert_eq!(a, b);
}

#[test]
fn different_names_different_colors() {
    let a = interface_color("eth0");
    let b = interface_color("wlan0");
    assert_ne!(a, b);
}

#[test]
fn color_is_the_digest_of_the_name() {
    let mut hasher = blake2::Blake2b::<blake2::digest::consts::U3>::new();
    hasher.update("eth0".as_bytes());
    let digest = hasher.finalize();
    let c = interface_color("eth0");
    assert_eq!((c.red, c.green, c.blue), (digest[0], digest[1], digest[2]));
}

use pingap::config::{get_config_path, set_config_path, ConfigPath};
use pingap::text::{parse_hex, split_text, to_hex};

#[test]
fn config_path_set_once() {
    let mut slot = ConfigPath::new();
    set_config_path(&mut slot, "/etc/pingap");
    set_config_path(&mut slot, "/other");
    assert_eq!("/etc/pingap", get_config_path(&mut slot));
}

#[test]
fn config_path_read_first() {
    let mut slot = ConfigPath::new();
    assert_eq!("", get_config_path(&mut slot));
    set_config_path(&mut slot, "/late");
    assert_eq!("", get_config_path(&mut slot));
}

#[test]
fn hex_round_trip() {
    assert_eq!("0", to_hex(0));
    assert_eq!("ff", to_hex(255));
    assert_eq!("66a0b7c0", to_hex(0x66a0b7c0));
    assert_eq!("ffffffffffffffff", to_hex(u64::MAX));
    assert_eq!(Some(255), parse_hex("FF"));
    assert_eq!(Some(255), parse_hex("+ff"));
    assert_eq!(Some(u64::MAX), parse_hex("ffffffffffffffff"));
    assert_eq!(None, parse_hex("10000000000000000"));
    assert_eq!(None, parse_hex(""));
    assert_eq!(None, parse_hex("+"));
    assert_eq!(None, parse_hex("-1"));
    assert_eq!(None, parse_hex("fg"));
}

#[test]
fn split_like_str_split() {
    assert_eq!(vec!["a", "b", "", "c"], split_text("a.b..c", '.'));
    assert_eq!(vec![""], split_text("", '.'));
    assert_eq!(vec!["", ""], split_text(".", '.'));
    assert_eq!(vec!["héllo", "wörld"], split_text("héllo wörld", ' '));
}

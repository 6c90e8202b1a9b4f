use flib_rs::config::FlibRS;
use flib_rs::naming::{derive_archive_name, derive_archive_path, entry_name_for, join_path};
use flib_rs::numbers::{parse_u64, u64_to_dec};

#[test]
fn archive_name_swaps_suffix() {
    assert_eq!(derive_archive_name(b"lib.a.inp").unwrap(), b"lib.a.zip".to_vec());
    assert_eq!(derive_archive_name(b"lib.a.txt"), None);
    assert_eq!(derive_archive_name(b"inp"), None);
}

#[test]
fn join_path_inserts_a_single_slash() {
    assert_eq!(join_path(b"arch", b"x.zip"), b"arch/x.zip".to_vec());
    assert_eq!(join_path(b"arch/", b"x.zip"), b"arch/x.zip".to_vec());
    assert_eq!(join_path(b"", b"x.zip"), b"x.zip".to_vec());
}

#[test]
fn archive_path_joins_root_and_derived_name() {
    assert_eq!(
        derive_archive_path(b"lib.a.inp", b"/data/arch").unwrap(),
        b"/data/arch/lib.a.zip".to_vec()
    );
    assert_eq!(derive_archive_path(b"lib.a.zip", b"/data/arch"), None);
}

#[test]
fn entry_name_is_decimal_id_dot_fb2() {
    assert_eq!(entry_name_for(5), b"5.fb2".to_vec());
    assert_eq!(entry_name_for(0), b"0.fb2".to_vec());
    assert_eq!(entry_name_for(9071), b"9071.fb2".to_vec());
    assert_eq!(entry_name_for(u64::MAX), b"18446744073709551615.fb2".to_vec());
}

#[test]
fn parse_u64_accepts_decimal_with_optional_plus() {
    assert_eq!(parse_u64(b"5"), Some(5));
    assert_eq!(parse_u64(b"+7"), Some(7));
    assert_eq!(parse_u64(b"0042"), Some(42));
    assert_eq!(parse_u64(b"18446744073709551615"), Some(u64::MAX));
}

#[test]
fn parse_u64_rejects_what_is_no_u64() {
    assert_eq!(parse_u64(b""), None);
    assert_eq!(parse_u64(b"+"), None);
    assert_eq!(parse_u64(b"12a"), None);
    assert_eq!(parse_u64(b"-5"), None);
    assert_eq!(parse_u64(b" 5"), None);
    assert_eq!(parse_u64(b"18446744073709551616"), None);
}

#[test]
fn decimal_writing_round_trips() {
    assert_eq!(u64_to_dec(0), b"0".to_vec());
    assert_eq!(u64_to_dec(10), b"10".to_vec());
    assert_eq!(u64_to_dec(18446744073709551615), b"18446744073709551615".to_vec());
    for n in [0u64, 1, 9, 10, 99, 1234567890123456789] {
        assert_eq!(parse_u64(&u64_to_dec(n)), Some(n));
    }
}

#[test]
fn handle_falls_back_to_default_archives_dir() {
    let h = FlibRS::new(b"/idx".to_vec(), None);
    assert_eq!(h.index_path, b"/idx".to_vec());
    assert_eq!(h.zip_archives_dir, b"./archive".to_vec());
    let h2 = FlibRS::new(b"/idx".to_vec(), Some(b"/arch".to_vec()));
    assert_eq!(h2.zip_archives_dir, b"/arch".to_vec());
}

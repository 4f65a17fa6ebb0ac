use valorant_watcher::encoding::sha256_hex;
use valorant_watcher::hardware::collect_hwid;
use valorant_watcher::hardware::machine_id_from_ioreg;
use valorant_watcher::hardware::platform_uuid_of;

#[test]
fn test_hash() {
    let a = sha256_hex("9ca563a0-2773-4c7d-b157-30feb8bd8b6c");
    let b = sha256_hex("9ca563a0-2773-4c7d-b157-30feb8bd8b6c");
    assert_eq!(a, b);
    assert_eq!(a.len(), 64);
    assert!(a.chars().all(|c| c.is_ascii_hexdigit()));
}

#[test]
fn digest_is_exact() {
    assert_eq!(
        sha256_hex("9ca563a0-2773-4c7d-b157-30feb8bd8b6c"),
        "089a40dcfd941c0d7ccfe0f86bb3e12d6ddaf2348188dfe9cc04850ec21b8de7"
    );
    assert_eq!(
        sha256_hex(""),
        "e3b0c44298fc1c149afbf4c8996fb92427ae41e4649b934ca495991b7852b855"
    );
}

#[test]
fn hwid_is_the_digest_of_the_trimmed_identifier() {
    assert_eq!(
        collect_hwid(Some("  9ca563a0-2773-4c7d-b157-30feb8bd8b6c\n")),
        Some("089a40dcfd941c0d7ccfe0f86bb3e12d6ddaf2348188dfe9cc04850ec21b8de7".to_string())
    );
    assert_eq!(collect_hwid(Some(" \t\n")), None);
    assert_eq!(collect_hwid(None), None);
}

#[test]
fn machine_id_is_found_in_the_registry_dump() {
    let output = b"+-o J274AP\n    {\n      \"IOPolledInterface\" = \"x\"\n      \"IOPlatformUUID\" = \"A=B-12\"\n      \"IOPlatformUUID\" = \"second\"\n    }\n";
    assert_eq!(machine_id_from_ioreg(output), Some("B-12".to_string()));
    assert_eq!(
        platform_uuid_of("\"IOPlatformUUID\" = \"0000-1111\"  \r\n"),
        Some("0000-1111".to_string())
    );
    assert_eq!(platform_uuid_of("nothing\nhere"), None);
    assert_eq!(platform_uuid_of("IOPlatformUUID"), Some("IOPlatformUUID".to_string()));
}

#[test]
fn machine_id_survives_bytes_that_are_no_text() {
    let output = b"\xff\xfe\n\"IOPlatformUUID\" = \"\xffid\"\n";
    assert_eq!(machine_id_from_ioreg(output), Some("\u{fffd}id".to_string()));
}

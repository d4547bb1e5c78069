use install_wheel::executable::{
    classify_by_extension, has_macho_magic, is_macos_executable, is_record, ByExtension,
};
use install_wheel::extraction::{Entry, EntryKind};

#[test]
fn test_is_macos_executable_by_extension() {
    // .dylib files should be detected as executables
    assert!(is_macos_executable("lib.dylib", Some(b"not real content")));

    // .so files should be detected as executables
    assert!(is_macos_executable("lib.so", Some(b"not real content")));

    // .py files should NOT be detected as executables
    assert!(!is_macos_executable("script.py", Some(b"print('hello')")));

    // .pyc files should NOT be detected as executables
    assert!(!is_macos_executable("script.pyc", Some(b"\x00\x00\x00\x00")));

    // .a files (static libraries) should NOT be detected as executables
    assert!(!is_macos_executable("lib.a", Some(b"not real content")));
}

#[test]
fn test_is_macos_executable_by_magic_bytes() {
    // 64-bit Mach-O little-endian (most common on modern macOS)
    assert!(is_macos_executable("binary64_le", Some(b"\xCF\xFA\xED\xFE")));

    // 64-bit Mach-O big-endian
    assert!(is_macos_executable("binary64_be", Some(b"\xFE\xED\xFA\xCF")));

    // 32-bit Mach-O little-endian
    assert!(is_macos_executable("binary32_le", Some(b"\xCE\xFA\xED\xFE")));

    // 32-bit Mach-O big-endian
    assert!(is_macos_executable("binary32_be", Some(b"\xFE\xED\xFA\xCE")));

    // Universal (fat) binary big-endian
    assert!(is_macos_executable("universal_be", Some(b"\xCA\xFE\xBA\xBE")));

    // Universal (fat) binary little-endian
    assert!(is_macos_executable("universal_le", Some(b"\xBE\xBA\xFE\xCA")));

    // Random data should NOT be detected as executable
    assert!(!is_macos_executable("random", Some(b"\x00\x01\x02\x03more data")));

    // Empty file should NOT be detected as executable
    assert!(!is_macos_executable("empty", Some(b"")));

    // File too short should NOT be detected as executable
    assert!(!is_macos_executable("short", Some(b"\xCF\xFA")));
}

#[test]
fn test_is_macos_executable_extensionless_binary() {
    // A binary without extension (like executables in bin/)
    // Should be detected by magic bytes
    assert!(is_macos_executable("python3", Some(b"\xCF\xFA\xED\xFErest of binary")));

    // A text file without extension should NOT be detected
    assert!(!is_macos_executable("README", Some(b"This is a readme file")));
}

#[test]
fn test_is_macos_executable_nonexistent_file() {
    // Non-existent file should return false, not error
    assert!(!is_macos_executable("/nonexistent/path/to/file", None));
}

#[test]
fn extension_is_taken_from_the_last_part_of_the_path() {
    assert_eq!(classify_by_extension("/a/b.so/readme"), ByExtension::Unknown);
    assert_eq!(classify_by_extension("/a/b.py/lib.dylib"), ByExtension::Executable);
    assert_eq!(classify_by_extension("pkg/mod.cpython-312.so"), ByExtension::Executable);
    assert_eq!(classify_by_extension("pkg/mod.pyo"), ByExtension::NotExecutable);
    assert_eq!(classify_by_extension("pkg/mod.pyd"), ByExtension::NotExecutable);
    assert_eq!(classify_by_extension("pkg/data.json"), ByExtension::NotExecutable);
    assert_eq!(classify_by_extension("bin/tool.bin"), ByExtension::NotExecutable);
    assert_eq!(classify_by_extension("bin/tool"), ByExtension::Unknown);
}

#[test]
fn content_decides_for_files_without_extension_only() {
    // A Mach-O magic number behind an extension that names no library
    // makes no executable.
    assert!(!is_macos_executable("tool.bin", Some(b"\xCF\xFA\xED\xFE")));
    assert!(!is_macos_executable("lib.a", Some(b"\xCA\xFE\xBA\xBE")));
    assert!(!is_macos_executable("archive.tar.gz", Some(b"\xFE\xED\xFA\xCF")));
    assert!(is_macos_executable("tool", Some(b"\xCF\xFA\xED\xFE")));
    assert!(is_macos_executable("bin.d/tool", Some(b"\xCF\xFA\xED\xFE")));
}

#[test]
fn hidden_files_and_odd_names_have_no_extension() {
    // A name that starts with its only dot has no extension.
    assert_eq!(classify_by_extension(".so"), ByExtension::Unknown);
    assert_eq!(classify_by_extension("dir/.py"), ByExtension::Unknown);
    assert_eq!(classify_by_extension(".."), ByExtension::Unknown);
    assert_eq!(classify_by_extension(""), ByExtension::Unknown);
    // A second dot makes one.
    assert_eq!(classify_by_extension(".hidden.so"), ByExtension::Executable);
    // An empty extension is an extension.
    assert_eq!(classify_by_extension("name."), ByExtension::NotExecutable);
    assert!(is_macos_executable(".so", Some(b"\xCA\xFE\xBA\xBE")));
    assert!(!is_macos_executable(".hidden.py", Some(b"\xCA\xFE\xBA\xBE")));
}

#[test]
fn magic_numbers_need_four_bytes() {
    assert!(has_macho_magic(b"\xFE\xED\xFA\xCE"));
    assert!(has_macho_magic(b"\xFE\xED\xFA\xCE\x00"));
    assert!(!has_macho_magic(b"\xFE\xED\xFA"));
    assert!(!has_macho_magic(b"\xFE\xED\xFA\xCD"));
    assert!(!has_macho_magic(b"\xCE\xFA\xED\xFF"));
    assert!(!has_macho_magic(b""));
}

#[test]
fn record_is_known_by_its_name() {
    assert!(is_record("RECORD"));
    assert!(is_record("pkg-1.0.dist-info/RECORD"));
    assert!(is_record("/cache/wheel/pkg-1.0.dist-info/RECORD"));
    assert!(!is_record("pkg-1.0.dist-info/RECORD.jws"));
    assert!(!is_record("pkg-1.0.dist-info/record"));
    assert!(!is_record("RECORD/METADATA"));
    assert!(!is_record("XRECORD"));
    let entry = Entry::at(EntryKind::File, "pkg-1.0.dist-info/RECORD", false);
    assert_eq!(entry, Entry { kind: EntryKind::File, record: true, executable: false });
    let entry = Entry::at(EntryKind::File, "pkg/lib.so", true);
    assert_eq!(entry, Entry { kind: EntryKind::File, record: false, executable: true });
}

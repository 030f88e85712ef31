use pescan::cache::{Api, Cache};
use pescan::extract::{extract_imports, scan, ExtractError};

fn text(s: &str) -> String {
    String::from(s)
}

fn put(image: &mut Vec<u8>, at: usize, bytes: &[u8]) {
    image[at..at + bytes.len()].copy_from_slice(bytes);
}

fn put_u16(image: &mut Vec<u8>, at: usize, value: u16) {
    put(image, at, &value.to_le_bytes());
}

fn put_u32(image: &mut Vec<u8>, at: usize, value: u32) {
    put(image, at, &value.to_le_bytes());
}

/// A 32-bit portable executable of one section, which imports
/// `VirtualAllocEx` and `WriteProcessMemory` from `KERNEL32.dll`.
fn portable_executable() -> Vec<u8> {
    let mut image = vec![0u8; 0x400];
    // DOS header
    put(&mut image, 0, b"MZ");
    put_u32(&mut image, 0x3c, 0x40);
    // signature and COFF header
    put(&mut image, 0x40, b"PE\0\0");
    put_u16(&mut image, 0x44, 0x014c);
    put_u16(&mut image, 0x46, 1);
    put_u16(&mut image, 0x54, 0xe0);
    put_u16(&mut image, 0x56, 0x0102);
    // optional header
    put_u16(&mut image, 0x58, 0x010b);
    put_u32(&mut image, 0x58 + 16, 0x1000);
    put_u32(&mut image, 0x58 + 28, 0x0040_0000);
    put_u32(&mut image, 0x58 + 32, 0x1000);
    put_u32(&mut image, 0x58 + 36, 0x200);
    put_u16(&mut image, 0x58 + 48, 4);
    put_u32(&mut image, 0x58 + 56, 0x2000);
    put_u32(&mut image, 0x58 + 60, 0x200);
    put_u16(&mut image, 0x58 + 68, 3);
    put_u32(&mut image, 0x58 + 92, 16);
    // data directory of the imports
    put_u32(&mut image, 0x58 + 96 + 8, 0x1000);
    put_u32(&mut image, 0x58 + 96 + 12, 40);
    // section table
    put(&mut image, 0x138, b".idata\0\0");
    put_u32(&mut image, 0x138 + 8, 0x1000);
    put_u32(&mut image, 0x138 + 12, 0x1000);
    put_u32(&mut image, 0x138 + 16, 0x200);
    put_u32(&mut image, 0x138 + 20, 0x200);
    put_u32(&mut image, 0x138 + 36, 0xc000_0040);
    // import descriptor
    put_u32(&mut image, 0x200, 0x1040);
    put_u32(&mut image, 0x200 + 12, 0x1080);
    put_u32(&mut image, 0x200 + 16, 0x1060);
    // lookup and address tables
    put_u32(&mut image, 0x240, 0x10a0);
    put_u32(&mut image, 0x244, 0x10c0);
    put_u32(&mut image, 0x260, 0x10a0);
    put_u32(&mut image, 0x264, 0x10c0);
    // names
    put(&mut image, 0x280, b"KERNEL32.dll\0");
    put(&mut image, 0x2a2, b"VirtualAllocEx\0");
    put(&mut image, 0x2c2, b"WriteProcessMemory\0");
    image
}

#[test]
fn imports_of_a_portable_executable() {
    let names = extract_imports(&portable_executable()).expect("names");
    assert_eq!(names, vec![text("VirtualAllocEx"), text("WriteProcessMemory")]);
}

#[test]
fn scan_matches_the_imports() {
    let mut store = Cache::with_headers(vec![text("Process Injection"), text("Persistence")]);
    store.insert(0, Api::new(text("WriteProcessMemory"), text(""), text(""), text("")));
    store.insert(0, Api::new(text("CreateRemoteThread"), text(""), text(""), text("")));
    store.insert(1, Api::new(text("RegSetValueEx"), text(""), text(""), text("")));
    let matches = scan(&portable_executable(), &store).expect("matches");
    assert_eq!(matches, vec![vec![text("WriteProcessMemory")], vec![]]);
    assert_eq!(scan(&[], &store), Err(ExtractError::Unparsable));
}

#[test]
fn sample_that_cannot_be_parsed() {
    assert_eq!(extract_imports(&[]), Err(ExtractError::Unparsable));
    assert_eq!(extract_imports(b"MZ"), Err(ExtractError::Unparsable));
    let mut cut = portable_executable();
    cut.truncate(0x100);
    assert_eq!(extract_imports(&cut), Err(ExtractError::Unparsable));
}

#[test]
fn sample_of_another_kind() {
    assert_eq!(extract_imports(&[0x2a; 64]), Err(ExtractError::UnsupportedFormat));
    assert_eq!(ExtractError::UnsupportedFormat.message(), "invalid file type, only PE files are supported");
    assert_eq!(ExtractError::Unparsable.message(), "could not parse sample");
}

use moon_win32_utils::file_utils::{path_from_wide_buffer, MAX_PATH};
use moon_win32_utils::ntdll_wrap::{driver_service_name, service_key_path};
use moon_win32_utils::privilege::elevation_is_admin;
use moon_win32_utils::status::{
    status_to_result, STATUS_INFO_LENGTH_MISMATCH, STATUS_NOT_FOUND, STATUS_NO_MEMORY, STATUS_SUCCESS,
};
use moon_win32_utils::system_info::{
    find_kernel_module_address, module_buffer_is_well_formed, module_query_step, ModuleQueryStep,
};

fn record(image_base: u64, path: &str, name_offset: u16) -> Vec<u8> {
    let mut r = vec![0u8; 296];
    r[16..24].copy_from_slice(&image_base.to_le_bytes());
    r[38..40].copy_from_slice(&name_offset.to_le_bytes());
    r[40..40 + path.len()].copy_from_slice(path.as_bytes());
    r
}

fn module_list(records: &[Vec<u8>]) -> Vec<u8> {
    let mut b = (records.len() as u32).to_le_bytes().to_vec();
    b.extend_from_slice(&[0, 0, 0, 0]);
    for r in records {
        b.extend_from_slice(r);
    }
    b
}

fn sample() -> Vec<u8> {
    module_list(&[
        record(0xFFFFF80000000000, "\\SystemRoot\\system32\\ntoskrnl.exe", 21),
        record(0xFFFFF96000010000, "\\SystemRoot\\System32\\win32k.sys", 21),
        record(0xFFFFF96000990000, "\\SystemRoot\\System32\\WIN32K.SYS", 21),
    ])
}

#[test]
fn finds_module_ignoring_ascii_case() {
    let b = sample();
    assert!(module_buffer_is_well_formed(&b));
    assert_eq!(find_kernel_module_address(&b, "win32k.sys"), Ok(0xFFFFF96000010000));
    assert_eq!(find_kernel_module_address(&b, "NTOSKRNL.EXE"), Ok(0xFFFFF80000000000));
}

#[test]
fn first_match_wins() {
    let b = sample();
    assert_eq!(find_kernel_module_address(&b, "Win32k.Sys"), Ok(0xFFFFF96000010000));
}

#[test]
fn missing_module_is_not_found() {
    let b = sample();
    assert_eq!(find_kernel_module_address(&b, "nonexistent"), Err(STATUS_NOT_FOUND));
    assert_eq!(find_kernel_module_address(&b, "win32k"), Err(STATUS_NOT_FOUND));
    assert_eq!(find_kernel_module_address(&module_list(&[]), "win32k.sys"), Err(STATUS_NOT_FOUND));
}

#[test]
fn name_offset_selects_the_file_name() {
    let b = module_list(&[record(0x1000, "\\??\\C:\\drv\\my.sys", 11)]);
    assert_eq!(find_kernel_module_address(&b, "my.sys"), Ok(0x1000));
    assert_eq!(find_kernel_module_address(&b, "C:\\drv\\my.sys"), Err(STATUS_NOT_FOUND));
}

#[test]
fn record_without_terminator_never_matches() {
    let mut r = record(0x2000, "", 0);
    for byte in r[40..296].iter_mut() {
        *byte = b'a';
    }
    let b = module_list(&[r, record(0x3000, "a.sys", 0)]);
    assert_eq!(find_kernel_module_address(&b, "a.sys"), Ok(0x3000));
}

#[test]
fn malformed_module_lists() {
    let b = sample();
    assert!(!module_buffer_is_well_formed(&b[..b.len() - 1]));
    assert!(!module_buffer_is_well_formed(&[1, 0, 0]));
    let bad = module_list(&[record(0x10, "x", 257)]);
    assert!(!module_buffer_is_well_formed(&bad));
    let edge = module_list(&[record(0x10, "x", 256)]);
    assert!(module_buffer_is_well_formed(&edge));
    assert_eq!(find_kernel_module_address(&edge, ""), Err(STATUS_NOT_FOUND));
}

#[test]
fn query_steps() {
    assert!(matches!(module_query_step(STATUS_INFO_LENGTH_MISMATCH), ModuleQueryStep::Retry));
    assert!(matches!(module_query_step(STATUS_SUCCESS), ModuleQueryStep::Parse));
    assert!(matches!(module_query_step(STATUS_NO_MEMORY), ModuleQueryStep::Fail(s) if s == STATUS_NO_MEMORY));
}

#[test]
fn status_results() {
    assert_eq!(status_to_result(STATUS_SUCCESS), Ok(()));
    assert_eq!(status_to_result(STATUS_NO_MEMORY), Err(STATUS_NO_MEMORY));
}

#[test]
fn driver_service_paths() {
    assert_eq!(
        service_key_path("beep"),
        "\\Registry\\Machine\\System\\CurrentControlSet\\Services\\beep"
    );
    let n = driver_service_name("beep");
    let expected: Vec<u16> = service_key_path("beep").encode_utf16().chain(Some(0)).collect();
    assert_eq!(n.unicode_string.buffer, expected);
    assert_eq!(n.unicode_string.length as usize, 2 * (expected.len() - 1));
    assert_eq!(n.unicode_string.maximum_length as usize, 2 * expected.len());
}

#[test]
fn path_buffer_results() {
    let mut buffer = vec![0u16; MAX_PATH as usize];
    for (i, u) in "C:\\Temp\\".encode_utf16().enumerate() {
        buffer[i] = u;
    }
    assert_eq!(path_from_wide_buffer(&buffer, 8).as_deref(), Some("C:\\Temp\\"));
    assert_eq!(path_from_wide_buffer(&buffer, 0), None);
    assert_eq!(path_from_wide_buffer(&buffer, MAX_PATH + 1), None);
    assert_eq!(path_from_wide_buffer(&buffer, MAX_PATH).map(|s| s.chars().count()), Some(260));
}

#[test]
fn admin_only_with_full_elevation() {
    assert!(elevation_is_admin(2));
    assert!(!elevation_is_admin(1));
    assert!(!elevation_is_admin(3));
}

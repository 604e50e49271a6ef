use moon_win32_utils::loader::{
    Communication, DriverLoader, LoadStage, ServiceAction, ServiceEvent, UnloadStage, REG_DWORD,
    REG_EXPAND_SZ,
};
use moon_win32_utils::ntdll_wrap::SE_LOAD_DRIVER_PRIVILEGE;
use moon_win32_utils::status::{
    STATUS_ALREADY_REGISTERED, STATUS_INVALID_PARAMETER, STATUS_SUCCESS, STATUS_UNSUCCESSFUL,
};
use moon_win32_utils::string::string_to_u16_bytes2;

const FILE: &str = "C:\\Users\\Administrator\\Desktop\\driver.sys";

#[test]
fn test_driver_load() {}

fn key_of(a: &ServiceAction) -> String {
    match a {
        ServiceAction::CheckServiceKey(k)
        | ServiceAction::CreateServiceKey(k)
        | ServiceAction::DeleteServiceKey(k) => k.clone(),
        _ => panic!("not a key action"),
    }
}

fn finish_of(a: &ServiceAction) -> Result<(), i32> {
    match a {
        ServiceAction::Finish(r) => *r,
        _ => panic!("not a finish"),
    }
}

#[test]
fn new_loader() {
    let _loader = DriverLoader::new();
}

#[test]
fn communication_carries_code_and_buffers() {
    let input = 7u32;
    let mut output = 0u64;
    let c = Communication { code: 0x222000, input: &input, output: &mut output };
    *c.output = 9;
    assert_eq!(c.code, 0x222000);
    assert_eq!(*c.input, 7);
    assert_eq!(output, 9);
}

#[test]
fn communication_is_printable() {
    let input = 1u8;
    let mut output = 2u8;
    let c = Communication { code: 5, input: &input, output: &mut output };
    assert_eq!(format!("{:?}", c), "Communication { code: 5, input: 1, output: 2 }");
}

#[test]
fn load_run_when_every_step_succeeds() {
    let loader = DriverLoader::new();
    let (mut run, first) = loader.srv_load_start(FILE);
    match &first {
        ServiceAction::CheckDriverFile(p) => assert_eq!(p, &format!("\\\\?\\{}", FILE)),
        _ => panic!("expected the file query"),
    }
    let a = run.step(ServiceEvent::Outcome(true));
    assert!(matches!(a, ServiceAction::AdjustPrivilege(p) if p == SE_LOAD_DRIVER_PRIVILEGE));
    let a = run.step(ServiceEvent::Status(STATUS_SUCCESS));
    assert_eq!(key_of(&a), "System\\CurrentControlSet\\Services\\driver");
    assert_eq!(run.current_stage(), LoadStage::CheckKey);
    let a = run.step(ServiceEvent::Outcome(false));
    assert!(matches!(&a, ServiceAction::CreateServiceKey(_)));
    assert_eq!(key_of(&a), "System\\CurrentControlSet\\Services\\driver");
    let a = run.step(ServiceEvent::Outcome(true));
    match a {
        ServiceAction::SetServiceValue { name, value_type, data } => {
            assert_eq!(name, "ImagePath");
            assert_eq!(value_type, REG_EXPAND_SZ);
            assert_eq!(data, string_to_u16_bytes2(&format!("\\??\\{}", FILE), true));
        }
        _ => panic!("expected ImagePath"),
    }
    let a = run.step(ServiceEvent::Outcome(true));
    match a {
        ServiceAction::SetServiceValue { name, value_type, data } => {
            assert_eq!((name.as_str(), value_type), ("Type", REG_DWORD));
            assert_eq!(data, 1u32.to_le_bytes().to_vec());
        }
        _ => panic!("expected Type"),
    }
    let a = run.step(ServiceEvent::Outcome(true));
    match a {
        ServiceAction::SetServiceValue { name, value_type, data } => {
            assert_eq!((name.as_str(), value_type), ("Start", REG_DWORD));
            assert_eq!(data, 4u32.to_le_bytes().to_vec());
        }
        _ => panic!("expected Start"),
    }
    let a = run.step(ServiceEvent::Outcome(true));
    match a {
        ServiceAction::LoadDriver(name) => {
            let expected: Vec<u16> = "\\Registry\\Machine\\System\\CurrentControlSet\\Services\\driver"
                .encode_utf16()
                .chain(Some(0))
                .collect();
            assert_eq!(name.unicode_string.buffer, expected);
            assert_eq!(name.unicode_string.length as usize, (expected.len() - 1) * 2);
        }
        _ => panic!("expected the driver load"),
    }
    assert_eq!(run.current_stage(), LoadStage::LoadDriver);
    let a = run.step(ServiceEvent::Status(STATUS_SUCCESS));
    assert_eq!(finish_of(&a), Ok(()));
    assert_eq!(run.current_stage(), LoadStage::Finished);
}

#[test]
fn load_fails_when_file_is_missing() {
    let (mut run, _) = DriverLoader::new().srv_load_start(FILE);
    assert_eq!(finish_of(&run.step(ServiceEvent::Outcome(false))), Err(STATUS_UNSUCCESSFUL));
}

#[test]
fn load_reports_privilege_status() {
    let (mut run, _) = DriverLoader::new().srv_load_start(FILE);
    run.step(ServiceEvent::Outcome(true));
    let denied = -1073741727i32; // STATUS_PRIVILEGE_NOT_HELD
    assert_eq!(finish_of(&run.step(ServiceEvent::Status(denied))), Err(denied));
}

#[test]
fn load_rejects_path_without_file_name() {
    let (mut run, _) = DriverLoader::new().srv_load_start("C:\\");
    run.step(ServiceEvent::Outcome(true));
    assert_eq!(
        finish_of(&run.step(ServiceEvent::Status(STATUS_SUCCESS))),
        Err(STATUS_INVALID_PARAMETER)
    );
}

#[test]
fn load_refuses_registered_service() {
    let (mut run, _) = DriverLoader::new().srv_load_start(FILE);
    run.step(ServiceEvent::Outcome(true));
    run.step(ServiceEvent::Status(STATUS_SUCCESS));
    assert_eq!(finish_of(&run.step(ServiceEvent::Outcome(true))), Err(STATUS_ALREADY_REGISTERED));
}

#[test]
fn load_fails_when_registry_write_fails() {
    for failing_step in 0..4 {
        let (mut run, _) = DriverLoader::new().srv_load_start(FILE);
        run.step(ServiceEvent::Outcome(true));
        run.step(ServiceEvent::Status(STATUS_SUCCESS));
        run.step(ServiceEvent::Outcome(false));
        for _ in 0..failing_step {
            run.step(ServiceEvent::Outcome(true));
        }
        assert_eq!(finish_of(&run.step(ServiceEvent::Outcome(false))), Err(STATUS_UNSUCCESSFUL));
    }
}

#[test]
fn load_reports_driver_load_status() {
    let (mut run, _) = DriverLoader::new().srv_load_start(FILE);
    run.step(ServiceEvent::Outcome(true));
    run.step(ServiceEvent::Status(STATUS_SUCCESS));
    run.step(ServiceEvent::Outcome(false));
    for _ in 0..4 {
        run.step(ServiceEvent::Outcome(true));
    }
    let image_already_loaded = -1073741554i32; // 0xC000010E
    assert_eq!(
        finish_of(&run.step(ServiceEvent::Status(image_already_loaded))),
        Err(image_already_loaded)
    );
}

#[test]
fn unload_run_when_every_step_succeeds() {
    let (mut run, first) = DriverLoader::new().srv_unload_start(FILE);
    assert!(matches!(first, ServiceAction::CheckDriverFile(_)));
    assert!(matches!(run.step(ServiceEvent::Outcome(true)), ServiceAction::AdjustPrivilege(10)));
    let a = run.step(ServiceEvent::Status(STATUS_SUCCESS));
    assert_eq!(key_of(&a), "System\\CurrentControlSet\\Services\\driver");
    let a = run.step(ServiceEvent::Outcome(true));
    assert!(matches!(a, ServiceAction::UnloadDriver(_)));
    assert_eq!(run.current_stage(), UnloadStage::UnloadDriver);
    let a = run.step(ServiceEvent::Status(STATUS_SUCCESS));
    assert!(matches!(&a, ServiceAction::DeleteServiceKey(_)));
    assert_eq!(key_of(&a), "System\\CurrentControlSet\\Services\\driver");
    assert_eq!(finish_of(&run.step(ServiceEvent::Outcome(true))), Ok(()));
    assert_eq!(run.current_stage(), UnloadStage::Finished);
}

#[test]
fn unload_fails_without_service_key() {
    let (mut run, _) = DriverLoader::new().srv_unload_start(FILE);
    run.step(ServiceEvent::Outcome(true));
    run.step(ServiceEvent::Status(STATUS_SUCCESS));
    assert_eq!(finish_of(&run.step(ServiceEvent::Outcome(false))), Err(STATUS_UNSUCCESSFUL));
}

#[test]
fn unload_keeps_key_when_driver_unload_fails() {
    let (mut run, _) = DriverLoader::new().srv_unload_start(FILE);
    run.step(ServiceEvent::Outcome(true));
    run.step(ServiceEvent::Status(STATUS_SUCCESS));
    run.step(ServiceEvent::Outcome(true));
    let not_loaded = -1073741550i32;
    assert_eq!(finish_of(&run.step(ServiceEvent::Status(not_loaded))), Err(not_loaded));
}

#[test]
fn unload_fails_when_key_delete_fails() {
    let (mut run, _) = DriverLoader::new().srv_unload_start(FILE);
    run.step(ServiceEvent::Outcome(true));
    run.step(ServiceEvent::Status(STATUS_SUCCESS));
    run.step(ServiceEvent::Outcome(true));
    run.step(ServiceEvent::Status(STATUS_SUCCESS));
    assert_eq!(finish_of(&run.step(ServiceEvent::Outcome(false))), Err(STATUS_UNSUCCESSFUL));
}

#[test]
fn unload_undoes_load_keys_and_names() {
    let (mut load, _) = DriverLoader::new().srv_load_start(FILE);
    load.step(ServiceEvent::Outcome(true));
    load.step(ServiceEvent::Status(STATUS_SUCCESS));
    let created = key_of(&load.step(ServiceEvent::Outcome(false)));
    for _ in 0..3 {
        load.step(ServiceEvent::Outcome(true));
    }
    let loaded = match load.step(ServiceEvent::Outcome(true)) {
        ServiceAction::LoadDriver(n) => n.unicode_string.buffer,
        _ => panic!(),
    };
    let (mut unload, _) = DriverLoader::new().srv_unload_start(FILE);
    unload.step(ServiceEvent::Outcome(true));
    unload.step(ServiceEvent::Status(STATUS_SUCCESS));
    let unloaded = match unload.step(ServiceEvent::Outcome(true)) {
        ServiceAction::UnloadDriver(n) => n.unicode_string.buffer,
        _ => panic!(),
    };
    let deleted = key_of(&unload.step(ServiceEvent::Status(STATUS_SUCCESS)));
    assert_eq!(created, deleted);
    assert_eq!(loaded, unloaded);
}

use vstd::prelude::*;

use crate::ntdll_wrap::{
    driver_service_key, driver_service_name, safe_unicode_model, unicode_string_model,
    SE_LOAD_DRIVER_PRIVILEGE,
};
use crate::path::{file_stem, path_file_stem};
use crate::status::{
    status_result, status_to_result, NtStatus, STATUS_ALREADY_REGISTERED, STATUS_INVALID_PARAMETER,
    STATUS_SUCCESS, STATUS_UNSUCCESSFUL,
};
use crate::string::{string_to_u16_bytes2, u16s_le_bytes, utf16_units, SafeUnicodeString};

verus! {

/// A request handed to a driver: the control code, the input it reads and
/// the output it fills.
#[derive(Debug)]
pub struct Communication<'a, T, U> {
    pub code: u32,
    pub input: &'a T,
    pub output: &'a mut U,
}

/// Loads and unloads drivers through the service control registry.
pub struct DriverLoader {}

impl DriverLoader {
    /// A loader.
    pub fn new() -> (r: Self)
        ensures
            r == (DriverLoader {}),
    {
        DriverLoader {}
    }
}

/// Registry value type of a string with environment references.
pub const REG_EXPAND_SZ: u32 = 2u32;

/// Registry value type of a 32-bit number.
pub const REG_DWORD: u32 = 4u32;

/// The sub key of `HKEY_LOCAL_MACHINE` that describes the service `name`.
pub open spec fn service_sub_key(name: Seq<char>) -> Seq<char> {
    "System\\CurrentControlSet\\Services\\"@ + name
}

/// The path under which the driver file is looked up (`\\?\` prefixed).
pub open spec fn driver_file_query_path(file: Seq<char>) -> Seq<char> {
    "\\\\?\\"@ + file
}

/// The `ImagePath` the service gets (`\??\` prefixed).
pub open spec fn driver_image_path(file: Seq<char>) -> Seq<char> {
    "\\??\\"@ + file
}

/// What an outside step reported back.
#[derive(PartialEq, Eq, Structural, Clone, Copy, Debug)]
pub enum ServiceEvent {
    /// A step that succeeds or fails, or a key that exists or not.
    Outcome(bool),
    /// A native call's status.
    Status(NtStatus),
}

/// The event reports success (a key that exists counts as success).
pub open spec fn event_ok(e: ServiceEvent) -> bool {
    match e {
        ServiceEvent::Outcome(b) => b,
        ServiceEvent::Status(s) => s == STATUS_SUCCESS,
    }
}

/// The status an event stands for.
pub open spec fn event_status(e: ServiceEvent) -> NtStatus {
    match e {
        ServiceEvent::Status(s) => s,
        ServiceEvent::Outcome(b) => if b {
            STATUS_SUCCESS
        } else {
            STATUS_UNSUCCESSFUL
        },
    }
}

fn is_ok(e: ServiceEvent) -> (r: bool)
    ensures
        r == event_ok(e),
{
    match e {
        ServiceEvent::Outcome(b) => b,
        ServiceEvent::Status(s) => s == STATUS_SUCCESS,
    }
}

fn status_of(e: ServiceEvent) -> (r: NtStatus)
    ensures
        r == event_status(e),
{
    match e {
        ServiceEvent::Status(s) => s,
        ServiceEvent::Outcome(b) => if b {
            STATUS_SUCCESS
        } else {
            STATUS_UNSUCCESSFUL
        },
    }
}

/// The outside work a service run asks for next.
pub enum ServiceAction {
    /// Query the driver file at this path; report `Outcome(exists)`.
    CheckDriverFile(String),
    /// Enable this privilege for the process; report `Status`.
    AdjustPrivilege(u32),
    /// Ask whether this `HKEY_LOCAL_MACHINE` sub key opens; report `Outcome(exists)`.
    CheckServiceKey(String),
    /// Create this `HKEY_LOCAL_MACHINE` sub key and keep it open; report `Outcome`.
    CreateServiceKey(String),
    /// Set a value on the key just created; report `Outcome`.
    SetServiceValue { name: String, value_type: u32, data: Vec<u8> },
    /// Close the service key and call `NtLoadDriver` with this name; report `Status`.
    LoadDriver(SafeUnicodeString),
    /// Call `NtUnloadDriver` with this name; report `Status`.
    UnloadDriver(SafeUnicodeString),
    /// Delete this `HKEY_LOCAL_MACHINE` sub key; report `Outcome`.
    DeleteServiceKey(String),
    /// The run is over with this result.
    Finish(Result<(), NtStatus>),
}

/// The plain contents of a `ServiceAction`.
pub enum ActionModel {
    CheckDriverFile(Seq<char>),
    AdjustPrivilege(u32),
    CheckServiceKey(Seq<char>),
    CreateServiceKey(Seq<char>),
    SetServiceValue(Seq<char>, u32, Seq<u8>),
    LoadDriver((u16, u16, Seq<u16>)),
    UnloadDriver((u16, u16, Seq<u16>)),
    DeleteServiceKey(Seq<char>),
    Finish(Result<(), NtStatus>),
}

impl View for ServiceAction {
    type V = ActionModel;

    open spec fn view(&self) -> ActionModel {
        match self {
            ServiceAction::CheckDriverFile(p) => ActionModel::CheckDriverFile(p@),
            ServiceAction::AdjustPrivilege(p) => ActionModel::AdjustPrivilege(*p),
            ServiceAction::CheckServiceKey(k) => ActionModel::CheckServiceKey(k@),
            ServiceAction::CreateServiceKey(k) => ActionModel::CreateServiceKey(k@),
            ServiceAction::SetServiceValue { name, value_type, data } => ActionModel::SetServiceValue(
                name@,
                *value_type,
                data@,
            ),
            ServiceAction::LoadDriver(s) => ActionModel::LoadDriver(safe_unicode_model(*s)),
            ServiceAction::UnloadDriver(s) => ActionModel::UnloadDriver(safe_unicode_model(*s)),
            ServiceAction::DeleteServiceKey(k) => ActionModel::DeleteServiceKey(k@),
            ServiceAction::Finish(r) => ActionModel::Finish(*r),
        }
    }
}

/// The stages of loading a driver as a service; each names the outside step
/// whose report the run waits for.
#[derive(PartialEq, Eq, Structural, Clone, Copy, Debug)]
pub enum LoadStage {
    CheckFile,
    AdjustPrivilege,
    CheckKey,
    CreateKey,
    SetImagePath,
    SetType,
    SetStart,
    LoadDriver,
    Finished,
}

/// The stages of unloading a driver service.
#[derive(PartialEq, Eq, Structural, Clone, Copy, Debug)]
pub enum UnloadStage {
    CheckFile,
    AdjustPrivilege,
    CheckKey,
    UnloadDriver,
    DeleteKey,
    Finished,
}

/// The service name of `file`: its file stem (present from the key check on).
pub open spec fn service_name_of(file: Seq<char>) -> Seq<char> {
    path_file_stem(file)->0
}

/// Finish a run with `r`.
pub open spec fn load_finish(r: Result<(), NtStatus>) -> (LoadStage, ActionModel) {
    (LoadStage::Finished, ActionModel::Finish(r))
}

/// The data of a `REG_DWORD` value `v` below 256.
pub open spec fn dword_bytes(v: u8) -> Seq<u8> {
    seq![v, 0u8, 0u8, 0u8]
}

/// One step of loading `file`: from the stage and what its outside step
/// reported, the next stage and the next outside step.
pub open spec fn load_step(file: Seq<char>, stage: LoadStage, e: ServiceEvent) -> (
    LoadStage,
    ActionModel,
) {
    let name = service_name_of(file);
    match stage {
        LoadStage::CheckFile => if event_ok(e) {
            (LoadStage::AdjustPrivilege, ActionModel::AdjustPrivilege(SE_LOAD_DRIVER_PRIVILEGE))
        } else {
            load_finish(Err(STATUS_UNSUCCESSFUL))
        },
        LoadStage::AdjustPrivilege => if !event_ok(e) {
            load_finish(Err(event_status(e)))
        } else if path_file_stem(file) is None {
            load_finish(Err(STATUS_INVALID_PARAMETER))
        } else {
            (LoadStage::CheckKey, ActionModel::CheckServiceKey(service_sub_key(name)))
        },
        LoadStage::CheckKey => if event_ok(e) {
            load_finish(Err(STATUS_ALREADY_REGISTERED))
        } else {
            (LoadStage::CreateKey, ActionModel::CreateServiceKey(service_sub_key(name)))
        },
        LoadStage::CreateKey => if event_ok(e) {
            (
                LoadStage::SetImagePath,
                ActionModel::SetServiceValue(
                    "ImagePath"@,
                    REG_EXPAND_SZ,
                    u16s_le_bytes(utf16_units(driver_image_path(file), true)),
                ),
            )
        } else {
            load_finish(Err(STATUS_UNSUCCESSFUL))
        },
        LoadStage::SetImagePath => if event_ok(e) {
            (LoadStage::SetType, ActionModel::SetServiceValue("Type"@, REG_DWORD, dword_bytes(1)))
        } else {
            load_finish(Err(STATUS_UNSUCCESSFUL))
        },
        LoadStage::SetType => if event_ok(e) {
            (LoadStage::SetStart, ActionModel::SetServiceValue("Start"@, REG_DWORD, dword_bytes(4)))
        } else {
            load_finish(Err(STATUS_UNSUCCESSFUL))
        },
        LoadStage::SetStart => if event_ok(e) {
            (
                LoadStage::LoadDriver,
                ActionModel::LoadDriver(unicode_string_model(driver_service_key(name))),
            )
        } else {
            load_finish(Err(STATUS_UNSUCCESSFUL))
        },
        LoadStage::LoadDriver => load_finish(status_result(event_status(e))),
        LoadStage::Finished => load_finish(Err(STATUS_UNSUCCESSFUL)),
    }
}

/// A stage at which the service name is known.
pub open spec fn load_stage_named(stage: LoadStage) -> bool {
    stage != LoadStage::CheckFile && stage != LoadStage::AdjustPrivilege && stage != LoadStage::Finished
}

/// A run that loads a driver as a service.
pub struct ServiceLoad {
    file: String,
    stage: LoadStage,
}

impl ServiceLoad {
    /// The driver file of the run.
    pub closed spec fn file(&self) -> Seq<char> {
        self.file@
    }

    /// The stage the run is at.
    pub closed spec fn stage(&self) -> LoadStage {
        self.stage
    }

    #[verifier::type_invariant]
    closed spec fn named_when_past_privilege(&self) -> bool {
        load_stage_named(self.stage) ==> path_file_stem(self.file@) is Some
    }

    /// The stage the run is at.
    pub fn current_stage(&self) -> (r: LoadStage)
        ensures
            r == self.stage(),
    {
        self.stage
    }

    /// Takes the report of the outside step asked for last and gives the next one.
    pub fn step(&mut self, event: ServiceEvent) -> (a: ServiceAction)
        requires
            old(self).stage() != LoadStage::Finished,
        ensures
            final(self).file() == old(self).file(),
            (final(self).stage(), a@) == load_step(old(self).file(), old(self).stage(), event),
    {
        proof {
            use_type_invariant(&*self);
        }
        let ok = is_ok(event);
        match self.stage {
            LoadStage::CheckFile => {
                if ok {
                    self.stage = LoadStage::AdjustPrivilege;
                    ServiceAction::AdjustPrivilege(SE_LOAD_DRIVER_PRIVILEGE)
                } else {
                    self.stage = LoadStage::Finished;
                    ServiceAction::Finish(Err(STATUS_UNSUCCESSFUL))
                }
            },
            LoadStage::AdjustPrivilege => {
                if !ok {
                    self.stage = LoadStage::Finished;
                    ServiceAction::Finish(Err(status_of(event)))
                } else {
                    match file_stem(self.file.as_str()) {
                        None => {
                            self.stage = LoadStage::Finished;
                            ServiceAction::Finish(Err(STATUS_INVALID_PARAMETER))
                        },
                        Some(name) => {
                            self.stage = LoadStage::CheckKey;
                            ServiceAction::CheckServiceKey(service_sub_key_of(name.as_str()))
                        },
                    }
                }
            },
            LoadStage::CheckKey => {
                if ok {
                    self.stage = LoadStage::Finished;
                    ServiceAction::Finish(Err(STATUS_ALREADY_REGISTERED))
                } else {
                    let name = known_stem(&self.file);
                    self.stage = LoadStage::CreateKey;
                    ServiceAction::CreateServiceKey(service_sub_key_of(name.as_str()))
                }
            },
            LoadStage::CreateKey => {
                if ok {
                    let mut image = String::from_str("\\??\\");
                    image.append(self.file.as_str());
                    self.stage = LoadStage::SetImagePath;
                    ServiceAction::SetServiceValue {
                        name: String::from_str("ImagePath"),
                        value_type: REG_EXPAND_SZ,
                        data: string_to_u16_bytes2(image.as_str(), true),
                    }
                } else {
                    self.stage = LoadStage::Finished;
                    ServiceAction::Finish(Err(STATUS_UNSUCCESSFUL))
                }
            },
            LoadStage::SetImagePath => {
                if ok {
                    self.stage = LoadStage::SetType;
                    ServiceAction::SetServiceValue {
                        name: String::from_str("Type"),
                        value_type: REG_DWORD,
                        data: dword_data(1),
                    }
                } else {
                    self.stage = LoadStage::Finished;
                    ServiceAction::Finish(Err(STATUS_UNSUCCESSFUL))
                }
            },
            LoadStage::SetType => {
                if ok {
                    self.stage = LoadStage::SetStart;
                    ServiceAction::SetServiceValue {
                        name: String::from_str("Start"),
                        value_type: REG_DWORD,
                        data: dword_data(4),
                    }
                } else {
                    self.stage = LoadStage::Finished;
                    ServiceAction::Finish(Err(STATUS_UNSUCCESSFUL))
                }
            },
            LoadStage::SetStart => {
                if ok {
                    let name = known_stem(&self.file);
                    self.stage = LoadStage::LoadDriver;
                    ServiceAction::LoadDriver(driver_service_name(name.as_str()))
                } else {
                    self.stage = LoadStage::Finished;
                    ServiceAction::Finish(Err(STATUS_UNSUCCESSFUL))
                }
            },
            LoadStage::LoadDriver => {
                self.stage = LoadStage::Finished;
                ServiceAction::Finish(status_to_result(status_of(event)))
            },
            LoadStage::Finished => {
                ServiceAction::Finish(Err(STATUS_UNSUCCESSFUL))
            },
        }
    }
}

/// The sub key of the service `name`.
fn service_sub_key_of(name: &str) -> (r: String)
    ensures
        r@ == service_sub_key(name@),
{
    let mut key = String::from_str("System\\CurrentControlSet\\Services\\");
    key.append(name);
    key
}

/// The stem of a file known to have one.
fn known_stem(file: &String) -> (r: String)
    requires
        path_file_stem(file@) is Some,
    ensures
        r@ == service_name_of(file@),
{
    match file_stem(file.as_str()) {
        Some(name) => name,
        None => String::new(),
    }
}

/// The little-endian data of a `REG_DWORD` value below 256.
fn dword_data(v: u8) -> (r: Vec<u8>)
    ensures
        r@ == dword_bytes(v),
{
    let r = vec![v, 0u8, 0u8, 0u8];
    assert(r@ =~= dword_bytes(v));
    r
}

/// Finish an unload run with `r`.
pub open spec fn unload_finish(r: Result<(), NtStatus>) -> (UnloadStage, ActionModel) {
    (UnloadStage::Finished, ActionModel::Finish(r))
}

/// One step of unloading the driver service of `file`.
pub open spec fn unload_step(file: Seq<char>, stage: UnloadStage, e: ServiceEvent) -> (
    UnloadStage,
    ActionModel,
) {
    let name = service_name_of(file);
    match stage {
        UnloadStage::CheckFile => if event_ok(e) {
            (UnloadStage::AdjustPrivilege, ActionModel::AdjustPrivilege(SE_LOAD_DRIVER_PRIVILEGE))
        } else {
            unload_finish(Err(STATUS_UNSUCCESSFUL))
        },
        UnloadStage::AdjustPrivilege => if !event_ok(e) {
            unload_finish(Err(event_status(e)))
        } else if path_file_stem(file) is None {
            unload_finish(Err(STATUS_INVALID_PARAMETER))
        } else {
            (UnloadStage::CheckKey, ActionModel::CheckServiceKey(service_sub_key(name)))
        },
        UnloadStage::CheckKey => if event_ok(e) {
            (
                UnloadStage::UnloadDriver,
                ActionModel::UnloadDriver(unicode_string_model(driver_service_key(name))),
            )
        } else {
            unload_finish(Err(STATUS_UNSUCCESSFUL))
        },
        UnloadStage::UnloadDriver => if event_status(e) == STATUS_SUCCESS {
            (UnloadStage::DeleteKey, ActionModel::DeleteServiceKey(service_sub_key(name)))
        } else {
            unload_finish(Err(event_status(e)))
        },
        UnloadStage::DeleteKey => if event_ok(e) {
            unload_finish(Ok(()))
        } else {
            unload_finish(Err(STATUS_UNSUCCESSFUL))
        },
        UnloadStage::Finished => unload_finish(Err(STATUS_UNSUCCESSFUL)),
    }
}

/// A stage of an unload run at which the service name is known.
pub open spec fn unload_stage_named(stage: UnloadStage) -> bool {
    stage == UnloadStage::CheckKey || stage == UnloadStage::UnloadDriver || stage
        == UnloadStage::DeleteKey
}

/// A run that unloads a driver service.
pub struct ServiceUnload {
    file: String,
    stage: UnloadStage,
}

impl ServiceUnload {
    /// The driver file of the run.
    pub closed spec fn file(&self) -> Seq<char> {
        self.file@
    }

    /// The stage the run is at.
    pub closed spec fn stage(&self) -> UnloadStage {
        self.stage
    }

    #[verifier::type_invariant]
    closed spec fn named_when_past_privilege(&self) -> bool {
        unload_stage_named(self.stage) ==> path_file_stem(self.file@) is Some
    }

    /// The stage the run is at.
    pub fn current_stage(&self) -> (r: UnloadStage)
        ensures
            r == self.stage(),
    {
        self.stage
    }

    /// Takes the report of the outside step asked for last and gives the next one.
    pub fn step(&mut self, event: ServiceEvent) -> (a: ServiceAction)
        requires
            old(self).stage() != UnloadStage::Finished,
        ensures
            final(self).file() == old(self).file(),
            (final(self).stage(), a@) == unload_step(old(self).file(), old(self).stage(), event),
    {
        proof {
            use_type_invariant(&*self);
        }
        let ok = is_ok(event);
        match self.stage {
            UnloadStage::CheckFile => {
                if ok {
                    self.stage = UnloadStage::AdjustPrivilege;
                    ServiceAction::AdjustPrivilege(SE_LOAD_DRIVER_PRIVILEGE)
                } else {
                    self.stage = UnloadStage::Finished;
                    ServiceAction::Finish(Err(STATUS_UNSUCCESSFUL))
                }
            },
            UnloadStage::AdjustPrivilege => {
                if !ok {
                    self.stage = UnloadStage::Finished;
                    ServiceAction::Finish(Err(status_of(event)))
                } else {
                    match file_stem(self.file.as_str()) {
                        None => {
                            self.stage = UnloadStage::Finished;
                            ServiceAction::Finish(Err(STATUS_INVALID_PARAMETER))
                        },
                        Some(name) => {
                            self.stage = UnloadStage::CheckKey;
                            ServiceAction::CheckServiceKey(service_sub_key_of(name.as_str()))
                        },
                    }
                }
            },
            UnloadStage::CheckKey => {
                if ok {
                    let name = known_stem(&self.file);
                    self.stage = UnloadStage::UnloadDriver;
                    ServiceAction::UnloadDriver(driver_service_name(name.as_str()))
                } else {
                    self.stage = UnloadStage::Finished;
                    ServiceAction::Finish(Err(STATUS_UNSUCCESSFUL))
                }
            },
            UnloadStage::UnloadDriver => {
                let status = status_of(event);
                if status == STATUS_SUCCESS {
                    let name = known_stem(&self.file);
                    self.stage = UnloadStage::DeleteKey;
                    ServiceAction::DeleteServiceKey(service_sub_key_of(name.as_str()))
                } else {
                    self.stage = UnloadStage::Finished;
                    ServiceAction::Finish(Err(status))
                }
            },
            UnloadStage::DeleteKey => {
                self.stage = UnloadStage::Finished;
                if ok {
                    ServiceAction::Finish(Ok(()))
                } else {
                    ServiceAction::Finish(Err(STATUS_UNSUCCESSFUL))
                }
            },
            UnloadStage::Finished => {
                ServiceAction::Finish(Err(STATUS_UNSUCCESSFUL))
            },
        }
    }
}

/// The position of a load stage in the run.
pub open spec fn load_rank(stage: LoadStage) -> int {
    match stage {
        LoadStage::CheckFile => 0,
        LoadStage::AdjustPrivilege => 1,
        LoadStage::CheckKey => 2,
        LoadStage::CreateKey => 3,
        LoadStage::SetImagePath => 4,
        LoadStage::SetType => 5,
        LoadStage::SetStart => 6,
        LoadStage::LoadDriver => 7,
        LoadStage::Finished => 8,
    }
}

/// The position of an unload stage in the run.
pub open spec fn unload_rank(stage: UnloadStage) -> int {
    match stage {
        UnloadStage::CheckFile => 0,
        UnloadStage::AdjustPrivilege => 1,
        UnloadStage::CheckKey => 2,
        UnloadStage::UnloadDriver => 3,
        UnloadStage::DeleteKey => 4,
        UnloadStage::Finished => 5,
    }
}

/// A load run only moves forward: each step either finishes the run, and
/// then the action is `Finish`, or goes on to the very next stage, and then
/// it is not. So a run ends after at most nine steps.
pub proof fn law_load_moves_forward(file: Seq<char>, stage: LoadStage, e: ServiceEvent)
    requires
        stage != LoadStage::Finished,
    ensures
        ({
            let (next, action) = load_step(file, stage, e);
            &&& next == LoadStage::Finished <==> action is Finish
            &&& next != LoadStage::Finished ==> load_rank(next) == load_rank(stage) + 1
        }),
{
}

/// A load run finishes with `Ok` only from the driver load, and exactly when
/// `NtLoadDriver` reports success; with the stages moving one by one, an `Ok`
/// run has passed every stage in order.
pub proof fn law_load_ok_only_after_driver_loaded(
    file: Seq<char>,
    stage: LoadStage,
    e: ServiceEvent,
)
    requires
        stage != LoadStage::Finished,
    ensures
        load_step(file, stage, e).1 == ActionModel::Finish(Ok(())) <==> (stage
            == LoadStage::LoadDriver && event_status(e) == STATUS_SUCCESS),
{
}

/// Every failed outside step ends a load run with an error: a failed file
/// query, registry step or native call, and a service key that already
/// exists (`STATUS_ALREADY_REGISTERED`).
pub proof fn law_load_failure_ends_run(file: Seq<char>, stage: LoadStage, e: ServiceEvent)
    requires
        stage != LoadStage::Finished,
        stage == LoadStage::CheckKey ==> event_ok(e),
        stage != LoadStage::CheckKey ==> !event_ok(e),
    ensures
        load_step(file, stage, e).0 == LoadStage::Finished,
        load_step(file, stage, e).1 is Finish,
        load_step(file, stage, e).1->Finish_0 is Err,
        stage == LoadStage::CheckKey ==> load_step(file, stage, e).1 == ActionModel::Finish(
            Err(STATUS_ALREADY_REGISTERED),
        ),
{
}

/// When every outside step succeeds, loading `file` queries the file,
/// enables the load-driver privilege, finds no service key, creates it, sets
/// `ImagePath`, `Type` = 1 and `Start` = 4, loads the driver under its
/// service name, and finishes with `Ok`.
pub proof fn law_load_success_run(file: Seq<char>)
    requires
        path_file_stem(file) is Some,
    ensures
        ({
            let name = service_name_of(file);
            let ok = ServiceEvent::Outcome(true);
            let success = ServiceEvent::Status(STATUS_SUCCESS);
            &&& load_step(file, LoadStage::CheckFile, ok) == (
                LoadStage::AdjustPrivilege,
                ActionModel::AdjustPrivilege(SE_LOAD_DRIVER_PRIVILEGE),
            )
            &&& load_step(file, LoadStage::AdjustPrivilege, success) == (
                LoadStage::CheckKey,
                ActionModel::CheckServiceKey(service_sub_key(name)),
            )
            &&& load_step(file, LoadStage::CheckKey, ServiceEvent::Outcome(false)) == (
                LoadStage::CreateKey,
                ActionModel::CreateServiceKey(service_sub_key(name)),
            )
            &&& load_step(file, LoadStage::CreateKey, ok) == (
                LoadStage::SetImagePath,
                ActionModel::SetServiceValue(
                    "ImagePath"@,
                    REG_EXPAND_SZ,
                    u16s_le_bytes(utf16_units(driver_image_path(file), true)),
                ),
            )
            &&& load_step(file, LoadStage::SetImagePath, ok) == (
                LoadStage::SetType,
                ActionModel::SetServiceValue("Type"@, REG_DWORD, dword_bytes(1)),
            )
            &&& load_step(file, LoadStage::SetType, ok) == (
                LoadStage::SetStart,
                ActionModel::SetServiceValue("Start"@, REG_DWORD, dword_bytes(4)),
            )
            &&& load_step(file, LoadStage::SetStart, ok) == (
                LoadStage::LoadDriver,
                ActionModel::LoadDriver(unicode_string_model(driver_service_key(name))),
            )
            &&& load_step(file, LoadStage::LoadDriver, success) == load_finish(Ok(()))
        }),
{
}

/// Every failed outside step ends an unload run with an error: a driver file
/// that cannot be queried, a service key that does not exist, or a failed key
/// delete end it with `STATUS_UNSUCCESSFUL`; a failed privilege adjustment or
/// driver unload ends it with the status the call reported. None of them goes
/// on to another outside step.
pub proof fn law_unload_failure_ends_run(file: Seq<char>, e: ServiceEvent)
    requires
        !event_ok(e),
    ensures
        unload_step(file, UnloadStage::CheckFile, e) == (
            UnloadStage::Finished,
            ActionModel::Finish(Err(STATUS_UNSUCCESSFUL)),
        ),
        unload_step(file, UnloadStage::AdjustPrivilege, e) == (
            UnloadStage::Finished,
            ActionModel::Finish(Err(event_status(e))),
        ),
        event_status(e) != STATUS_SUCCESS,
        unload_step(file, UnloadStage::CheckKey, e) == (
            UnloadStage::Finished,
            ActionModel::Finish(Err(STATUS_UNSUCCESSFUL)),
        ),
        unload_step(file, UnloadStage::UnloadDriver, e) == (
            UnloadStage::Finished,
            ActionModel::Finish(Err(event_status(e))),
        ),
        unload_step(file, UnloadStage::DeleteKey, e) == (
            UnloadStage::Finished,
            ActionModel::Finish(Err(STATUS_UNSUCCESSFUL)),
        ),
{
}

/// Every failed outside step ends a load run, with the same errors as an
/// unload run: `STATUS_UNSUCCESSFUL` for a failed file query or registry
/// write, the reported status for a failed privilege adjustment or driver
/// load, and `STATUS_ALREADY_REGISTERED` for an existing service key.
pub proof fn law_load_failure_statuses(file: Seq<char>, e: ServiceEvent)
    requires
        !event_ok(e),
    ensures
        load_step(file, LoadStage::CheckFile, e) == (
            LoadStage::Finished,
            ActionModel::Finish(Err(STATUS_UNSUCCESSFUL)),
        ),
        load_step(file, LoadStage::AdjustPrivilege, e) == (
            LoadStage::Finished,
            ActionModel::Finish(Err(event_status(e))),
        ),
        load_step(file, LoadStage::CheckKey, ServiceEvent::Outcome(true)) == (
            LoadStage::Finished,
            ActionModel::Finish(Err(STATUS_ALREADY_REGISTERED)),
        ),
        load_step(file, LoadStage::CreateKey, e) == (
            LoadStage::Finished,
            ActionModel::Finish(Err(STATUS_UNSUCCESSFUL)),
        ),
        load_step(file, LoadStage::SetImagePath, e) == (
            LoadStage::Finished,
            ActionModel::Finish(Err(STATUS_UNSUCCESSFUL)),
        ),
        load_step(file, LoadStage::SetType, e) == (
            LoadStage::Finished,
            ActionModel::Finish(Err(STATUS_UNSUCCESSFUL)),
        ),
        load_step(file, LoadStage::SetStart, e) == (
            LoadStage::Finished,
            ActionModel::Finish(Err(STATUS_UNSUCCESSFUL)),
        ),
        load_step(file, LoadStage::LoadDriver, e) == (
            LoadStage::Finished,
            ActionModel::Finish(Err(event_status(e))),
        ),
{
}

/// An unload run only moves forward, one stage per step, until it finishes.
pub proof fn law_unload_moves_forward(file: Seq<char>, stage: UnloadStage, e: ServiceEvent)
    requires
        stage != UnloadStage::Finished,
    ensures
        ({
            let (next, action) = unload_step(file, stage, e);
            &&& next == UnloadStage::Finished <==> action is Finish
            &&& next != UnloadStage::Finished ==> unload_rank(next) == unload_rank(stage) + 1
        }),
{
}

/// An unload run deletes the service key only after `NtUnloadDriver`
/// reported success, and finishes with `Ok` only once the key is deleted.
pub proof fn law_unload_deletes_key_only_after_unload(
    file: Seq<char>,
    stage: UnloadStage,
    e: ServiceEvent,
)
    requires
        stage != UnloadStage::Finished,
    ensures
        unload_step(file, stage, e).1 is DeleteServiceKey <==> (stage == UnloadStage::UnloadDriver
            && event_status(e) == STATUS_SUCCESS),
        unload_step(file, stage, e).1 == ActionModel::Finish(Ok(())) <==> (stage
            == UnloadStage::DeleteKey && event_ok(e)),
{
}

/// When every outside step succeeds, unloading `file` queries the file,
/// enables the load-driver privilege, finds the service key, unloads the
/// driver under its service name, deletes the key, and finishes with `Ok`.
pub proof fn law_unload_success_run(file: Seq<char>)
    requires
        path_file_stem(file) is Some,
    ensures
        ({
            let name = service_name_of(file);
            let ok = ServiceEvent::Outcome(true);
            let success = ServiceEvent::Status(STATUS_SUCCESS);
            &&& unload_step(file, UnloadStage::CheckFile, ok) == (
                UnloadStage::AdjustPrivilege,
                ActionModel::AdjustPrivilege(SE_LOAD_DRIVER_PRIVILEGE),
            )
            &&& unload_step(file, UnloadStage::AdjustPrivilege, success) == (
                UnloadStage::CheckKey,
                ActionModel::CheckServiceKey(service_sub_key(name)),
            )
            &&& unload_step(file, UnloadStage::CheckKey, ok) == (
                UnloadStage::UnloadDriver,
                ActionModel::UnloadDriver(unicode_string_model(driver_service_key(name))),
            )
            &&& unload_step(file, UnloadStage::UnloadDriver, success) == (
                UnloadStage::DeleteKey,
                ActionModel::DeleteServiceKey(service_sub_key(name)),
            )
            &&& unload_step(file, UnloadStage::DeleteKey, ok) == unload_finish(Ok(()))
        }),
{
}

/// Unloading undoes loading: for the same driver file, the unload run checks
/// and deletes the very service key the load run created, and unloads the
/// driver under the very name it was loaded with.
pub proof fn law_unload_undoes_load(file: Seq<char>)
    requires
        path_file_stem(file) is Some,
    ensures
        load_step(file, LoadStage::CheckKey, ServiceEvent::Outcome(false)).1->CreateServiceKey_0
            == unload_step(
            file,
            UnloadStage::UnloadDriver,
            ServiceEvent::Status(STATUS_SUCCESS),
        ).1->DeleteServiceKey_0,
        load_step(file, LoadStage::SetStart, ServiceEvent::Outcome(true)).1->LoadDriver_0
            == unload_step(file, UnloadStage::CheckKey, ServiceEvent::Outcome(true)).1->UnloadDriver_0,
        load_step(file, LoadStage::AdjustPrivilege, ServiceEvent::Status(STATUS_SUCCESS)).1
            == unload_step(
            file,
            UnloadStage::AdjustPrivilege,
            ServiceEvent::Status(STATUS_SUCCESS),
        ).1,
{
}

impl DriverLoader {
    /// Starts unloading the driver service of `file`: the run and its first
    /// outside step, the query of the driver file.
    pub fn srv_unload_start(&self, file: &str) -> (r: (ServiceUnload, ServiceAction))
        ensures
            r.0.file() == file@,
            r.0.stage() == UnloadStage::CheckFile,
            r.1@ == ActionModel::CheckDriverFile(driver_file_query_path(file@)),
    {
        let mut path = String::from_str("\\\\?\\");
        path.append(file);
        (ServiceUnload { file: String::from_str(file), stage: UnloadStage::CheckFile }, ServiceAction::CheckDriverFile(path))
    }

    /// Starts loading the driver `file` as a service: the run and its first
    /// outside step, the query of the driver file.
    pub fn srv_load_start(&self, file: &str) -> (r: (ServiceLoad, ServiceAction))
        ensures
            r.0.file() == file@,
            r.0.stage() == LoadStage::CheckFile,
            r.1@ == ActionModel::CheckDriverFile(driver_file_query_path(file@)),
    {
        let mut path = String::from_str("\\\\?\\");
        path.append(file);
        (ServiceLoad { file: String::from_str(file), stage: LoadStage::CheckFile }, ServiceAction::CheckDriverFile(path))
    }
}

} // verus!

//! Verified core of a small Windows utility library: UTF-16 string
//! conversions, the decisions of the driver service loader, and the parsing
//! of the kernel module list.
pub mod string;
pub mod path;
pub mod status;
pub mod system_info;
pub mod ntdll_wrap;
pub mod loader;
pub mod random;
pub mod letter_draws;
pub mod file_utils;
pub mod privilege;

# moon_win32_utils

Utilities for loading Windows kernel drivers as services, with the logic
proved in Verus.

- `src/` holds the verified library: UTF-16 string conversions and their
  round-trip laws (`string`), Windows path file stems (`path`), NT status
  codes (`status`), the driver service load and unload runs as state machines
  with their laws (`loader`), the service names handed to the kernel
  (`ntdll_wrap`), the parsing of the kernel module list (`system_info`), and
  random file names (`random`, `file_utils`).
- `app/` performs the Windows calls (registry, files, `NtLoadDriver`,
  `NtQuerySystemInformation`, tokens, handles) and feeds their results to the
  library. It builds only for Windows targets.
- `tests/` runs the library on concrete values.

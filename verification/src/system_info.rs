use vstd::prelude::*;
use vstd::slice::slice_subrange;

use crate::status::{NtStatus, STATUS_INFO_LENGTH_MISMATCH, STATUS_NOT_FOUND, STATUS_SUCCESS};
use crate::string::{from_utf8_lossy, is_first_nul, str_chars, utf8_lossy};

verus! {

/// The information class that lists the loaded kernel modules.
pub const SYSTEM_MODULE_INFORMATION: u32 = 11u32;

/// Where the module records start in the module list (after the count and
/// its padding).
pub const MODULES_OFFSET: usize = 8usize;

/// The size of one module record.
pub const MODULE_RECORD_SIZE: usize = 296usize;

/// Where a record holds the module's image base.
pub const IMAGE_BASE_OFFSET: usize = 16usize;

/// Where a record holds the offset of the file name inside the full path.
pub const FILE_NAME_OFFSET_OFFSET: usize = 38usize;

/// Where a record holds the module's full path.
pub const FULL_PATH_OFFSET: usize = 40usize;

/// The size of the full path field.
pub const FULL_PATH_SIZE: usize = 256usize;

/// A little-endian `u16` at `off`.
pub open spec fn read_u16_le(b: Seq<u8>, off: int) -> int {
    b[off] + 256 * b[off + 1]
}

/// A little-endian `u32` at `off`.
pub open spec fn read_u32_le(b: Seq<u8>, off: int) -> int {
    read_u16_le(b, off) + 65536 * read_u16_le(b, off + 2)
}

/// A little-endian `u64` at `off`.
pub open spec fn read_u64_le(b: Seq<u8>, off: int) -> int {
    read_u32_le(b, off) + 4294967296 * read_u32_le(b, off + 4)
}

/// The number of module records the list announces.
pub open spec fn module_count(b: Seq<u8>) -> int {
    read_u32_le(b, 0)
}

/// Where record `i` starts.
pub open spec fn record_start(i: int) -> int {
    MODULES_OFFSET + MODULE_RECORD_SIZE * i
}

/// The image base of record `i`.
pub open spec fn module_image_base(b: Seq<u8>, i: int) -> int {
    read_u64_le(b, record_start(i) + IMAGE_BASE_OFFSET)
}

/// The offset of record `i`'s file name inside its full path.
pub open spec fn module_name_offset(b: Seq<u8>, i: int) -> int {
    read_u16_le(b, record_start(i) + FILE_NAME_OFFSET_OFFSET)
}

/// The bytes of record `i`'s full path from its file name on.
pub open spec fn module_name_field(b: Seq<u8>, i: int) -> Seq<u8> {
    b.subrange(
        record_start(i) + FULL_PATH_OFFSET + module_name_offset(b, i),
        record_start(i) + FULL_PATH_OFFSET + FULL_PATH_SIZE,
    )
}

/// The list holds the records it announces, and every file name offset lies
/// inside its full path.
pub open spec fn module_buffer_well_formed(b: Seq<u8>) -> bool {
    &&& b.len() >= MODULES_OFFSET
    &&& b.len() >= record_start(module_count(b))
    &&& forall|i: int|
        0 <= i < module_count(b) ==> #[trigger] module_name_offset(b, i) <= FULL_PATH_SIZE
}

/// The ASCII lower-case code of a character.
pub open spec fn ascii_lower_code(c: char) -> u32 {
    if 'A' as u32 <= c as u32 <= 'Z' as u32 {
        (c as u32 + 32) as u32
    } else {
        c as u32
    }
}

/// Equal up to ASCII case.
pub open spec fn eq_ignore_ascii_case(a: Seq<char>, b: Seq<char>) -> bool {
    &&& a.len() == b.len()
    &&& forall|j: int| 0 <= j < a.len() ==> ascii_lower_code(#[trigger] a[j]) == ascii_lower_code(
        b[j],
    )
}

/// `b` is `a`, or the same ASCII letter in the other case.
pub open spec fn same_up_to_ascii_case(a: char, b: char) -> bool {
    ||| a == b
    ||| (65 <= a as u32 <= 90 && b as u32 == a as u32 + 32)
    ||| (65 <= b as u32 <= 90 && a as u32 == b as u32 + 32)
}

/// Case folding: two characters fold alike exactly when they are equal or
/// are the upper- and lower-case forms of one ASCII letter.
pub proof fn law_ascii_case_folding(a: char, b: char)
    ensures
        ascii_lower_code(a) == ascii_lower_code(b) <==> same_up_to_ascii_case(a, b),
{
    broadcast use vstd::utf8::char_u32_cast;

    if ascii_lower_code(a) == ascii_lower_code(b) && a as u32 == b as u32 {
        assert((a as u32) as char == a);
        assert((b as u32) as char == b);
    }
}

/// Names equal up to ASCII case are exactly the names of equal length whose
/// characters pair up as equal or as the two cases of one ASCII letter.
pub proof fn law_eq_ignore_ascii_case(s: Seq<char>, t: Seq<char>)
    ensures
        eq_ignore_ascii_case(s, t) <==> (s.len() == t.len() && forall|j: int|
            0 <= j < s.len() ==> same_up_to_ascii_case(#[trigger] s[j], t[j])),
{
    if s.len() == t.len() {
        assert forall|j: int| 0 <= j < s.len() implies (ascii_lower_code(#[trigger] s[j])
            == ascii_lower_code(t[j]) <==> same_up_to_ascii_case(s[j], t[j])) by {
            law_ascii_case_folding(s[j], t[j]);
        }
    }
}

/// A record that names a module still names it when the query differs from
/// it only in the case of ASCII letters.
pub proof fn law_module_match_ignores_ascii_case(b: Seq<u8>, i: int, name: Seq<char>, query: Seq<char>)
    requires
        module_matches(b, i, name),
        name.len() == query.len(),
        forall|j: int| 0 <= j < name.len() ==> same_up_to_ascii_case(#[trigger] name[j], query[j]),
    ensures
        module_matches(b, i, query),
{
    let field = module_name_field(b, i);
    let k = choose|k: int|
        is_first_nul(field, k) && eq_ignore_ascii_case(utf8_lossy(field.take(k)), name);
    let text = utf8_lossy(field.take(k));
    assert forall|j: int| 0 <= j < text.len() implies ascii_lower_code(#[trigger] text[j])
        == ascii_lower_code(query[j]) by {
        law_ascii_case_folding(name[j], query[j]);
        assert(ascii_lower_code(text[j]) == ascii_lower_code(name[j]));
    }
    assert(eq_ignore_ascii_case(text, query));
}

/// Record `i` names the module `name`: its file name field holds a zero byte,
/// and the text before it equals `name` up to ASCII case.
pub open spec fn module_matches(b: Seq<u8>, i: int, name: Seq<char>) -> bool {
    let field = module_name_field(b, i);
    exists|k: int|
        is_first_nul(field, k) && eq_ignore_ascii_case(utf8_lossy(field.take(k)), name)
}

/// Record `i` lies inside a buffer that holds `count` records.
proof fn lemma_record_in_bounds(len: int, count: int, i: int)
    requires
        0 <= i < count,
        len >= record_start(count),
    ensures
        record_start(i) + MODULE_RECORD_SIZE <= len,
        MODULE_RECORD_SIZE * i <= len,
{
    assert(MODULE_RECORD_SIZE * i + MODULE_RECORD_SIZE <= MODULE_RECORD_SIZE * count) by (nonlinear_arith)
        requires
            0 <= i < count,
    ;
}

/// `buffer` is a well-formed module list.
pub fn module_buffer_is_well_formed(buffer: &[u8]) -> (r: bool)
    ensures
        r == module_buffer_well_formed(buffer@),
{
    if buffer.len() < MODULES_OFFSET {
        return false;
    }
    let count = read_u32(buffer, 0);
    if (buffer.len() as u64) < 8 + 296 * (count as u64) {
        return false;
    }
    let mut i: u32 = 0;
    while i < count
        invariant
            buffer@.len() >= record_start(count as int),
            count == module_count(buffer@),
            i <= count,
            forall|j: int| 0 <= j < i ==> #[trigger] module_name_offset(buffer@, j) <= FULL_PATH_SIZE,
        decreases count - i,
    {
        let blen = buffer.len();
        proof {
            lemma_record_in_bounds(blen as int, count as int, i as int);
        }
        let start: usize = MODULES_OFFSET + MODULE_RECORD_SIZE * (i as usize);
        let offset = read_u16(buffer, start + FILE_NAME_OFFSET_OFFSET);
        assert(offset == module_name_offset(buffer@, i as int));
        if offset as usize > FULL_PATH_SIZE {
            return false;
        }
        i = i + 1;
    }
    true
}

fn read_u16(b: &[u8], off: usize) -> (r: u16)
    requires
        off + 2 <= b.len(),
    ensures
        r == read_u16_le(b@, off as int),
{
    b[off] as u16 + (b[off + 1] as u16) * 256
}

fn read_u32(b: &[u8], off: usize) -> (r: u32)
    requires
        off + 4 <= b.len(),
    ensures
        r == read_u32_le(b@, off as int),
{
    read_u16(b, off) as u32 + (read_u16(b, off + 2) as u32) * 65536
}

fn read_u64(b: &[u8], off: usize) -> (r: u64)
    requires
        off + 8 <= b.len(),
    ensures
        r == read_u64_le(b@, off as int),
{
    read_u32(b, off) as u64 + (read_u32(b, off + 4) as u64) * 4294967296
}

fn ascii_lower(c: char) -> (r: u32)
    ensures
        r == ascii_lower_code(c),
{
    let v = c as u32;
    if 'A' as u32 <= v && v <= 'Z' as u32 {
        v + 32
    } else {
        v
    }
}

/// `a` and `b` are equal up to ASCII case.
pub fn chars_eq_ignore_ascii_case(a: &Vec<char>, b: &Vec<char>) -> (r: bool)
    ensures
        r == eq_ignore_ascii_case(a@, b@),
{
    if a.len() != b.len() {
        return false;
    }
    let n = a.len();
    let mut j: usize = 0;
    while j < n
        invariant
            n == a@.len(),
            n == b@.len(),
            j <= n,
            forall|k: int| 0 <= k < j ==> ascii_lower_code(#[trigger] a@[k]) == ascii_lower_code(
                b@[k],
            ),
        decreases n - j,
    {
        if ascii_lower(a[j]) != ascii_lower(b[j]) {
            return false;
        }
        j = j + 1;
    }
    true
}

/// Whether record `i` of the list names `name` (given as its characters).
fn record_matches(buffer: &[u8], i: u32, name: &Vec<char>) -> (r: bool)
    requires
        module_buffer_well_formed(buffer@),
        i < module_count(buffer@),
    ensures
        r == module_matches(buffer@, i as int, name@),
{
    let blen = buffer.len();
    proof {
        lemma_record_in_bounds(blen as int, module_count(buffer@), i as int);
    }
    let start: usize = MODULES_OFFSET + MODULE_RECORD_SIZE * (i as usize);
    let offset = read_u16(buffer, start + FILE_NAME_OFFSET_OFFSET) as usize;
    assert(offset == module_name_offset(buffer@, i as int));
    assert(offset <= FULL_PATH_SIZE);
    let field = slice_subrange(
        buffer,
        start + FULL_PATH_OFFSET + offset,
        start + FULL_PATH_OFFSET + FULL_PATH_SIZE,
    );
    assert(field@ =~= module_name_field(buffer@, i as int));
    let flen = field.len();
    let mut k: usize = 0;
    while k < flen && field[k] != 0
        invariant
            flen == field@.len(),
            k <= flen,
            forall|j: int| 0 <= j < k ==> field@[j] != 0,
        decreases flen - k,
    {
        k = k + 1;
    }
    if k == flen {
        assert forall|m: int| !is_first_nul(field@, m) by {
            if is_first_nul(field@, m) {
                assert(field@[m] != 0);
            }
        }
        return false;
    }
    assert(is_first_nul(field@, k as int));
    assert forall|m: int| is_first_nul(field@, m) implies m == k by {
        if m < k {
            assert(field@[m] != 0);
        } else if m > k {
            assert(field@[k as int] != 0);
        }
    }
    let text = slice_subrange(field, 0, k);
    assert(text@ =~= field@.take(k as int));
    let decoded = from_utf8_lossy(text);
    let chars = str_chars(decoded.as_str());
    chars_eq_ignore_ascii_case(&chars, name)
}

/// The image base of the first module in the list whose file name equals
/// `module_name` up to ASCII case; `STATUS_NOT_FOUND` when none does.
pub fn find_kernel_module_address(buffer: &[u8], module_name: &str) -> (r: Result<u64, NtStatus>)
    requires
        module_buffer_well_formed(buffer@),
    ensures
        match r {
            Ok(base) => exists|i: int|
                0 <= i < module_count(buffer@) && module_matches(buffer@, i, module_name@) && (
                forall|j: int| 0 <= j < i ==> !module_matches(buffer@, j, module_name@))
                    && base == module_image_base(buffer@, i),
            Err(e) => e == STATUS_NOT_FOUND && forall|i: int|
                0 <= i < module_count(buffer@) ==> !module_matches(buffer@, i, module_name@),
        },
{
    let name = str_chars(module_name);
    let count = read_u32(buffer, 0);
    let mut i: u32 = 0;
    while i < count
        invariant
            module_buffer_well_formed(buffer@),
            count == module_count(buffer@),
            name@ == module_name@,
            i <= count,
            forall|j: int| 0 <= j < i ==> !module_matches(buffer@, j, module_name@),
        decreases count - i,
    {
        if record_matches(buffer, i, &name) {
            let blen = buffer.len();
            proof {
                lemma_record_in_bounds(blen as int, count as int, i as int);
            }
            let start: usize = MODULES_OFFSET + MODULE_RECORD_SIZE * (i as usize);
            let base = read_u64(buffer, start + IMAGE_BASE_OFFSET);
            assert(base == module_image_base(buffer@, i as int));
            return Ok(base);
        }
        i = i + 1;
    }
    Err(STATUS_NOT_FOUND)
}

/// What the module query loop does with the status of a query.
pub enum ModuleQueryStep {
    /// The buffer was too small: grow it to the reported size and ask again.
    Retry,
    /// The buffer holds the module list.
    Parse,
    /// The query failed with this status.
    Fail(NtStatus),
}

/// The next step of the module query for the status it returned.
pub fn module_query_step(status: NtStatus) -> (r: ModuleQueryStep)
    ensures
        status == STATUS_INFO_LENGTH_MISMATCH ==> r is Retry,
        status == STATUS_SUCCESS ==> r is Parse,
        status != STATUS_INFO_LENGTH_MISMATCH && status != STATUS_SUCCESS ==> r == ModuleQueryStep::Fail(status),
{
    if status == STATUS_INFO_LENGTH_MISMATCH {
        ModuleQueryStep::Retry
    } else if status != STATUS_SUCCESS {
        ModuleQueryStep::Fail(status)
    } else {
        ModuleQueryStep::Parse
    }
}

} // verus!

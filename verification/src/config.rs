//! What a run is configured with: the policies to simulate, the size of the
//! largest cache as a text such as `2MB`, and the columns of a trace that
//! hold the fields of an access.
use vstd::prelude::*;
use vstd::string::StrSliceExecFns;
use crate::AccessRecord;

verus! {

/// The eviction policies a run can simulate.
#[derive(Clone, Copy, Debug, PartialEq, Eq, Structural)]
pub enum EvictionPolicy {
    LRU,
    FIFO,
}

impl EvictionPolicy {
    /// The name of the policy, as it labels a curve.
    pub open spec fn label(self) -> Seq<char> {
        match self {
            EvictionPolicy::LRU => "LRU"@,
            EvictionPolicy::FIFO => "FIFO"@,
        }
    }

    /// The name of the policy as a string.
    pub fn to_string(&self) -> (name: String)
        ensures
            name@ == self.label(),
    {
        broadcast use vstd::string::to_string_from_display_ensures_for_str;

        match self {
            EvictionPolicy::LRU => "LRU",
            EvictionPolicy::FIFO => "FIFO",
        }.to_string()
    }
}

/// The policies of a run that names none: least recently used alone.
pub fn default_eviction_policies() -> (policies: Option<Vec<EvictionPolicy>>)
    ensures
        policies matches Some(v) && v@ == seq![EvictionPolicy::LRU],
{
    let mut v: Vec<EvictionPolicy> = Vec::new();
    v.push(EvictionPolicy::LRU);
    assert(v@ =~= seq![EvictionPolicy::LRU]);
    Some(v)
}

/// Bytes in a kilobyte.
pub const KB: u64 = 1024;

/// Bytes in a megabyte.
pub const MB: u64 = 1_048_576;

/// Bytes in a gigabyte.
pub const GB: u64 = 1_073_741_824;

/// What `str::trim` leaves of a text: the text without the whitespace, in
/// the sense of Unicode, at its two ends.
pub uninterp spec fn trimmed(text: Seq<char>) -> Seq<char>;

/// What `str::to_uppercase` makes of a text: its upper case, in the sense of
/// Unicode.
pub uninterp spec fn uppercased(text: Seq<char>) -> Seq<char>;

/// Calls `str::trim`.
#[verifier::external_body]
fn trim(text: &str) -> (inner: &str)
    ensures
        inner@ == trimmed(text@),
{
    text.trim()
}

/// Calls `str::to_uppercase`.
#[verifier::external_body]
fn to_uppercase(text: &str) -> (upper: String)
    ensures
        upper@ == uppercased(text@),
{
    text.to_uppercase()
}

/// Whether `c` is one of the ten decimal digits.
pub open spec fn is_digit(c: char) -> bool {
    '0' <= c <= '9'
}

/// The number a string of digits stands for.
pub open spec fn digits_value(digits: Seq<char>) -> nat
    decreases digits.len(),
{
    if digits.len() == 0 {
        0
    } else {
        digits_value(digits.drop_last()) * 10 + (digits.last() as nat - '0' as nat) as nat
    }
}

/// The text without a plus sign at its front.
pub open spec fn unsigned_part(text: Seq<char>) -> Seq<char> {
    if text.len() > 0 && text[0] == '+' {
        text.subrange(1, text.len() as int)
    } else {
        text
    }
}

/// The number a text stands for: an optional plus sign, then one decimal
/// digit or more and nothing else, with a value that fits `u64`.
pub open spec fn decimal_value(text: Seq<char>) -> Option<u64> {
    let digits = unsigned_part(text);
    if digits.len() > 0 && (forall|i: int| 0 <= i < digits.len() ==> is_digit(#[trigger] digits[i]))
        && digits_value(digits) <= u64::MAX {
        Some(digits_value(digits) as u64)
    } else {
        None
    }
}

/// Whether the text ends in the letter `unit` and a `B`.
pub open spec fn has_unit(text: Seq<char>, unit: char) -> bool {
    text.len() >= 2 && text[text.len() - 2] == unit && text[text.len() - 1] == 'B'
}

/// The number at the front of the text times `factor`, if the number is
/// there and the product fits `u64`.
pub open spec fn scaled_value(number: Seq<char>, factor: u64) -> Option<u64> {
    match decimal_value(number) {
        Some(n) => if n * factor <= u64::MAX {
            Some((n * factor) as u64)
        } else {
            None
        },
        None => None,
    }
}

/// The size in bytes that a trimmed, upper-case text stands for: a number,
/// or a number followed by `KB`, `MB` or `GB` for the powers of 1024.
pub open spec fn size_value(text: Seq<char>) -> Option<u64> {
    let number = text.subrange(0, text.len() - 2);
    if has_unit(text, 'K') {
        scaled_value(number, KB)
    } else if has_unit(text, 'M') {
        scaled_value(number, MB)
    } else if has_unit(text, 'G') {
        scaled_value(number, GB)
    } else {
        decimal_value(text)
    }
}

/// A string of digits stands for no less than any of its fronts does.
proof fn lemma_front_is_smaller(digits: Seq<char>, k: int)
    requires
        0 <= k <= digits.len(),
    ensures
        digits_value(digits.subrange(0, k)) <= digits_value(digits),
    decreases digits.len(),
{
    if k < digits.len() {
        assert(digits.drop_last().subrange(0, k) =~= digits.subrange(0, k));
        lemma_front_is_smaller(digits.drop_last(), k);
    } else {
        assert(digits.subrange(0, k) =~= digits);
    }
}

/// Reads a number as [`decimal_value`] defines it.
pub fn parse_decimal(text: &str) -> (value: Option<u64>)
    ensures
        value == decimal_value(text@),
{
    let n = text.unicode_len();
    let start: usize = if n > 0 && text.get_char(0) == '+' {
        1
    } else {
        0
    };
    let ghost digits = unsigned_part(text@);
    if start == n {
        return None;
    }
    let mut value: u64 = 0;
    let mut i: usize = start;
    assert(digits =~= text@.subrange(start as int, n as int));
    while i < n
        invariant
            start <= i <= n,
            n == text@.len(),
            digits == unsigned_part(text@),
            digits == text@.subrange(start as int, n as int),
            forall|j: int| 0 <= j < i - start ==> is_digit(#[trigger] digits[j]),
            value == digits_value(digits.subrange(0, i - start)),
        decreases n - i,
    {
        let c = text.get_char(i);
        if c < '0' || c > '9' {
            assert(!is_digit(digits[i - start]));
            return None;
        }
        let digit = (c as u32 - '0' as u32) as u64;
        proof {
            let front = digits.subrange(0, i - start + 1);
            assert(front.drop_last() =~= digits.subrange(0, i - start));
            assert(front.last() == c);
            assert(digits_value(front) == value * 10 + digit);
            lemma_front_is_smaller(digits, i - start + 1);
        }
        value = match value.checked_mul(10) {
            Some(tens) => match tens.checked_add(digit) {
                Some(sum) => sum,
                None => {
                    return None;
                },
            },
            None => {
                return None;
            },
        };
        i += 1;
    }
    assert(digits.subrange(0, n - start) =~= digits);
    Some(value)
}

/// Reads a number and multiplies it by `factor`.
fn parse_scaled(number: &str, factor: u64) -> (value: Option<u64>)
    ensures
        value == scaled_value(number@, factor),
{
    match parse_decimal(number) {
        Some(n) => n.checked_mul(factor),
        None => None,
    }
}

/// Tells whether the text ends in the letter `unit` and a `B`.
fn ends_with_unit(text: &str, unit: char) -> (ends: bool)
    ensures
        ends == has_unit(text@, unit),
{
    let n = text.unicode_len();
    n >= 2 && text.get_char(n - 2) == unit && text.get_char(n - 1) == 'B'
}

/// Reads a size from a text that is trimmed and in upper case already.
pub fn size_from_text(text: &str) -> (size: Option<u64>)
    ensures
        size == size_value(text@),
{
    let n = text.unicode_len();
    if ends_with_unit(text, 'K') {
        parse_scaled(text.substring_char(0, n - 2), KB)
    } else if ends_with_unit(text, 'M') {
        parse_scaled(text.substring_char(0, n - 2), MB)
    } else if ends_with_unit(text, 'G') {
        parse_scaled(text.substring_char(0, n - 2), GB)
    } else {
        parse_decimal(text)
    }
}

/// Reads a cache size such as `4096`, `100kb` or ` 2MB `: the text is
/// trimmed and put in upper case, then read by [`size_from_text`]. `None`
/// where that text is no size.
pub fn try_parse_size(s: &str) -> (size: Option<u64>)
    ensures
        size == size_value(uppercased(trimmed(s@))),
{
    let upper = to_uppercase(trim(s));
    if size_from_text(upper.as_str()).is_some() {
        Some(parse_size(s))
    } else {
        None
    }
}

/// Reads a cache size from a text that is known to hold one.
pub fn parse_size(s: &str) -> (size: u64)
    requires
        size_value(uppercased(trimmed(s@))) is Some,
    ensures
        Some(size) == size_value(uppercased(trimmed(s@))),
{
    let upper = to_uppercase(trim(s));
    match size_from_text(upper.as_str()) {
        Some(size) => size,
        None => vstd::pervasive::unreached(),
    }
}

/// For each field of an access, the column of a row that holds it.
/// `None` and `-1` both leave the field at its default.
#[derive(Clone, Copy, Debug)]
pub struct FieldMap {
    pub timestamp: Option<i32>,
    pub command: Option<i32>,
    pub key: Option<i32>,
    pub size: Option<i32>,
    pub ttl: Option<i32>,
}

/// Whether the column, if one is named, exists in a row of `columns`
/// columns.
pub open spec fn column_in_row(field: Option<i32>, columns: nat) -> bool {
    field matches Some(index) ==> index == -1 || 0 <= index < columns
}

/// Whether a row of `columns` columns has every column the map names.
pub open spec fn map_fits_row(map: FieldMap, columns: nat) -> bool {
    &&& column_in_row(map.timestamp, columns)
    &&& column_in_row(map.command, columns)
    &&& column_in_row(map.key, columns)
    &&& column_in_row(map.size, columns)
    &&& column_in_row(map.ttl, columns)
}

/// The value of a field: the number in its column, trimmed, or the default
/// where no column is named or the column holds no number.
pub open spec fn field_value(row: Seq<String>, field: Option<i32>, default: u64) -> u64 {
    match field {
        Some(index) => if index == -1 {
            default
        } else {
            match decimal_value(trimmed(row[index as int]@)) {
                Some(value) => value,
                None => default,
            }
        },
        None => default,
    }
}

/// The value of a field that holds no more than `max`: the value of the
/// field if it is that small, and the default if the number in the column is
/// too large for the field.
pub open spec fn bounded_field_value(
    row: Seq<String>,
    field: Option<i32>,
    default: u64,
    max: u64,
) -> u64 {
    if field_value(row, field, default) <= max {
        field_value(row, field, default)
    } else {
        default
    }
}

/// The access a row stands for. Every field defaults to zero, also where
/// its column holds a number that the field cannot hold.
pub open spec fn row_record(map: FieldMap, row: Seq<String>) -> AccessRecord {
    AccessRecord {
        timestamp: field_value(row, map.timestamp, 0),
        command: bounded_field_value(row, map.command, 0, u8::MAX as u64) as u8,
        key: field_value(row, map.key, 0),
        size: bounded_field_value(row, map.size, 0, u32::MAX as u64) as u32,
        ttl: bounded_field_value(row, map.ttl, 0, u32::MAX as u64) as u32,
    }
}

/// Whether no field has a column of its own, so that rows are read by the
/// names of their columns.
pub fn is_default_parsing(arg: &FieldMap) -> (plain: bool)
    ensures
        plain == (arg.timestamp is None && arg.command is None && arg.key is None && arg.size
            is None && arg.ttl is None),
{
    arg.timestamp.is_none() && arg.command.is_none() && arg.key.is_none() && arg.size.is_none()
        && arg.ttl.is_none()
}

/// Tells whether a row of `columns` columns has the column, if one is named.
pub fn column_ok(field: Option<i32>, columns: usize) -> (ok: bool)
    ensures
        ok == column_in_row(field, columns as nat),
{
    match field {
        Some(index) => index == -1 || (index >= 0 && (index as usize) < columns),
        None => true,
    }
}

/// Tells whether a row of `columns` columns has every column the map names.
pub fn map_ok(map: &FieldMap, columns: usize) -> (ok: bool)
    ensures
        ok == map_fits_row(*map, columns as nat),
{
    column_ok(map.timestamp, columns) && column_ok(map.command, columns) && column_ok(
        map.key,
        columns,
    ) && column_ok(map.size, columns) && column_ok(map.ttl, columns)
}

/// Reads one field of a row.
pub fn parse_field(record: &Vec<String>, field_opt: Option<i32>, default: u64) -> (value: u64)
    requires
        column_in_row(field_opt, record@.len()),
    ensures
        value == field_value(record@, field_opt, default),
{
    if let Some(index) = field_opt {
        if index == -1 {
            default
        } else {
            let field = trim(record[index as usize].as_str());
            match parse_decimal(field) {
                Some(value) => value,
                None => default,
            }
        }
    } else {
        default
    }
}

/// Reads one field of a row that holds no more than `max`.
pub fn parse_bounded_field(
    record: &Vec<String>,
    field_opt: Option<i32>,
    default: u64,
    max: u64,
) -> (value: u64)
    requires
        column_in_row(field_opt, record@.len()),
        default <= max,
    ensures
        value == bounded_field_value(record@, field_opt, default, max),
        value <= max,
{
    let value = parse_field(record, field_opt, default);
    if value <= max {
        value
    } else {
        default
    }
}

/// Reads the access that a row stands for.
pub fn parse_row(arg: &FieldMap, record: &Vec<String>) -> (access: AccessRecord)
    requires
        map_fits_row(*arg, record@.len()),
    ensures
        access == row_record(*arg, record@),
{
    let timestamp = parse_field(record, arg.timestamp, 0);
    let command = parse_bounded_field(record, arg.command, 0, u8::MAX as u64) as u8;
    let key = parse_field(record, arg.key, 0);
    let size = parse_bounded_field(record, arg.size, 0, u32::MAX as u64) as u32;
    let ttl = parse_bounded_field(record, arg.ttl, 0, u32::MAX as u64) as u32;
    AccessRecord { timestamp, command, key, size, ttl }
}

/// Reads the accesses that the rows stand for, in the order of the rows.
pub fn parse_custom(arg: &FieldMap, rows: &Vec<Vec<String>>) -> (access_records: Vec<AccessRecord>)
    requires
        forall|i: int| 0 <= i < rows@.len() ==> map_fits_row(*arg, (#[trigger] rows@[i])@.len()),
    ensures
        access_records@.len() == rows@.len(),
        forall|i: int|
            0 <= i < rows@.len() ==> #[trigger] access_records@[i] == row_record(*arg, rows@[i]@),
{
    let mut access_records: Vec<AccessRecord> = Vec::new();
    let n = rows.len();
    let mut i: usize = 0;
    while i < n
        invariant
            i <= n,
            n == rows@.len(),
            access_records@.len() == i,
            forall|j: int|
                0 <= j < rows@.len() ==> map_fits_row(*arg, (#[trigger] rows@[j])@.len()),
            forall|j: int|
                0 <= j < i ==> #[trigger] access_records@[j] == row_record(*arg, rows@[j]@),
        decreases n - i,
    {
        let access = parse_row(arg, &rows[i]);
        access_records.push(access);
        i += 1;
    }
    access_records
}

} // verus!

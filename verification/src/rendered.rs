use vstd::prelude::*;
use crate::event_log::{
    is_scalar, EventSystemValues, NamedEventData, EVT_VARIANT_TYPE_ARRAY, EVT_VARIANT_TYPE_MASK, MAX_EVENT_TEXT_CHARS,
};
use crate::event_scan::{timestamp_text, timestamp_text_spec, SystemTimeValues};

verus! {

/// `EvtVarTypeString`.
pub const EVT_VAR_TYPE_STRING: i32 = 1;
/// `EvtVarTypeByte`.
pub const EVT_VAR_TYPE_BYTE: i32 = 4;
/// `EvtVarTypeUInt16`.
pub const EVT_VAR_TYPE_UINT16: i32 = 6;
/// `EvtVarTypeUInt64`.
pub const EVT_VAR_TYPE_UINT64: i32 = 10;
/// `EvtVarTypeFileTime`.
pub const EVT_VAR_TYPE_FILE_TIME: i32 = 17;
/// `EvtVarTypeSysTime`.
pub const EVT_VAR_TYPE_SYS_TIME: i32 = 18;

/// Number of system properties a system render context gives (`EvtSystemPropertyIdEND`).
pub const SYSTEM_PROPERTY_COUNT: usize = 18;
/// Index of the provider name among the system properties.
pub const SYSTEM_PROVIDER_NAME: usize = 0;
/// Index of the event id among the system properties.
pub const SYSTEM_EVENT_ID: usize = 2;
/// Index of the creation time among the system properties.
pub const SYSTEM_TIME_CREATED: usize = 8;
/// Index of the record id among the system properties.
pub const SYSTEM_EVENT_RECORD_ID: usize = 9;
/// Index of the event version among the system properties.
pub const SYSTEM_VERSION: usize = 17;
/// Number of named data items rendered from a crash record.
pub const NAMED_DATA_COUNT: usize = 5;
/// Size in bytes of a `SYSTEMTIME`.
pub const SYSTEM_TIME_BYTES: usize = 16;

/// One rendered event value (`EVT_VARIANT`): its type field and the first eight bytes of its
/// value, read as a little-endian integer (a number, or the address of a string or time).
#[derive(Debug, Clone, Copy, PartialEq, Eq, Structural)]
pub struct EventVariant {
    pub value_type: u32,
    pub payload: u64,
}

/// A rendered event record: the bytes of the buffer Windows rendered into (at least
/// `buffer_used` of them), the address the buffer started at, how many bytes Windows filled,
/// and the record's values.
#[derive(Debug)]
pub struct RenderedValues {
    pub buffer: Vec<u8>,
    pub buffer_address: usize,
    pub buffer_used: usize,
    pub values: Vec<EventVariant>,
}

/// Whether a record's buffer holds the bytes Windows reported.
pub open spec fn rendered_wf(v: RenderedValues) -> bool {
    v.buffer_used <= v.buffer@.len()
}

/// Whether a value is one value (not an array) of type `t`.
pub open spec fn scalar_of(v: EventVariant, t: i32) -> bool {
    v.value_type & EVT_VARIANT_TYPE_ARRAY == 0 && (v.value_type & EVT_VARIANT_TYPE_MASK) as int == t as int
}

/// The type of a value, without its array flag.
pub fn variant_type(value: EventVariant) -> (r: u32)
    ensures
        r == value.value_type & EVT_VARIANT_TYPE_MASK,
{
    value.value_type & EVT_VARIANT_TYPE_MASK
}

/// The little-endian 16-bit unit at byte `offset`.
pub open spec fn unit_at(bytes: Seq<u8>, offset: int) -> u16 {
    (bytes[offset] as int + 256 * bytes[offset + 1] as int) as u16
}

/// A leading (high) surrogate code unit.
pub open spec fn is_high_surrogate(u: u16) -> bool {
    0xD800 <= u <= 0xDBFF
}

/// A trailing (low) surrogate code unit.
pub open spec fn is_low_surrogate(u: u16) -> bool {
    0xDC00 <= u <= 0xDFFF
}

/// The code point a surrogate pair stands for.
pub open spec fn surrogate_pair_value(high: u16, low: u16) -> int {
    0x10000 + (high - 0xD800) * 0x400 + (low - 0xDC00)
}

/// UTF-16 decoding of code units: a unit that is not a surrogate is its own character, a high
/// surrogate followed by a low one is the character they encode, and any other surrogate
/// makes the units invalid (`None`).
pub open spec fn utf16_strict_text(units: Seq<u16>) -> Option<Seq<char>>
    decreases units.len(),
{
    if units.len() == 0 {
        Some(Seq::empty())
    } else if !is_high_surrogate(units[0]) && !is_low_surrogate(units[0]) {
        match utf16_strict_text(units.drop_first()) {
            Some(t) => Some(seq![units[0] as char] + t),
            None => None,
        }
    } else if is_high_surrogate(units[0]) && units.len() >= 2 && is_low_surrogate(units[1]) {
        match utf16_strict_text(units.skip(2)) {
            Some(t) => Some(seq![surrogate_pair_value(units[0], units[1]) as char] + t),
            None => None,
        }
    } else {
        None
    }
}

/// Decodes UTF-16 code units with `String::from_utf16`, which its documentation describes
/// as decoding UTF-16 and failing when the units hold invalid data. Claimed: the result is
/// `utf16_strict_text` of the units.
#[verifier::external_body]
fn utf16_strict(units: &Vec<u16>) -> (r: Option<String>)
    ensures
        match utf16_strict_text(units@) {
            Some(t) => r matches Some(s) && s@ == t,
            None => r is None,
        },
{
    String::from_utf16(units.as_slice()).ok()
}

/// The units from byte `offset` on, `n` of them.
pub open spec fn units_from(bytes: Seq<u8>, offset: int, n: nat) -> Seq<u16> {
    Seq::new(n, |k: int| unit_at(bytes, offset + 2 * k))
}

/// Index of the first zero among the units, if any.
pub open spec fn first_zero(units: Seq<u16>) -> Option<int> {
    if exists|k: int| 0 <= k < units.len() && units[k] == 0 {
        Some(choose|k: int| 0 <= k < units.len() && units[k] == 0 && forall|j: int| 0 <= j < k ==> units[j] != 0)
    } else {
        None
    }
}

/// The text a string value points to: the pointer must lie inside the filled part of the
/// buffer and be aligned for UTF-16; the text ends at a zero unit among the next
/// `MAX_EVENT_TEXT_CHARS + 1` units that the buffer holds, and must be valid UTF-16.
pub open spec fn utf16_z_spec(v: RenderedValues, pointer: int) -> Option<Seq<char>> {
    let start = v.buffer_address as int;
    let end = start + v.buffer_used;
    if end > usize::MAX || pointer < start || pointer >= end || pointer % 2 != 0 {
        None
    } else {
        let available = (end - pointer) / 2;
        let n = if available < MAX_EVENT_TEXT_CHARS + 1 { available } else { MAX_EVENT_TEXT_CHARS + 1 };
        let units = units_from(v.buffer@, pointer - start, n as nat);
        if n == 0 {
            None
        } else {
            match first_zero(units) {
                Some(len) => utf16_strict_text(units.take(len)),
                None => None,
            }
        }
    }
}

/// Reads the text a string value points to (see `utf16_z_spec`).
pub fn utf16_z(v: &RenderedValues, pointer: usize) -> (r: Option<String>)
    requires
        rendered_wf(*v),
    ensures
        match utf16_z_spec(*v, pointer as int) {
            Some(t) => r matches Some(s) && s@ == t,
            None => r is None,
        },
{
    let start = v.buffer_address;
    if start > usize::MAX - v.buffer_used {
        return None;
    }
    let end = start + v.buffer_used;
    if pointer < start || pointer >= end || pointer % 2 != 0 {
        return None;
    }
    let available = (end - pointer) / 2;
    let n = if available < MAX_EVENT_TEXT_CHARS + 1 { available } else { MAX_EVENT_TEXT_CHARS + 1 };
    if n == 0 {
        return None;
    }
    let offset = pointer - start;
    let ghost all = units_from(v.buffer@, offset as int, n as nat);
    let mut units: Vec<u16> = Vec::new();
    let mut k: usize = 0;
    while k < n
        invariant
            rendered_wf(*v),
            start == v.buffer_address,
            pointer >= start,
            pointer % 2 == 0,
            n == (if available < MAX_EVENT_TEXT_CHARS + 1 { available as int } else { MAX_EVENT_TEXT_CHARS + 1 }),
            n > 0,
            n <= available,
            available == (end - pointer) / 2,
            end == start + v.buffer_used,
            offset == pointer - start,
            pointer < end,
            k <= n,
            all == units_from(v.buffer@, offset as int, n as nat),
            units@ == all.take(k as int),
            forall|j: int| 0 <= j < k ==> all[j] != 0,
        decreases n - k,
    {
        let at = offset + 2 * k;
        let u: u16 = v.buffer[at] as u16 + 256 * (v.buffer[at + 1] as u16);
        assert(u == unit_at(v.buffer@, offset + 2 * k));
        if u == 0 {
            proof {
                assert(all[k as int] == 0);
                let w = choose|w: int| 0 <= w < all.len() && all[w] == 0 && forall|j: int| 0 <= j < w ==> all[j] != 0;
                assert(w == k) by {
                    if w < k {
                        assert(all[w] != 0);
                    } else if w > k {
                        assert(all[k as int] == 0);
                    }
                }
            }
            return utf16_strict(&units);
        }
        units.push(u);
        k = k + 1;
        assert(units@ =~= all.take(k as int));
    }
    proof {
        if exists|j: int| 0 <= j < all.len() && all[j] == 0 {
            let w = choose|w: int| 0 <= w < all.len() && all[w] == 0;
            assert(all[w] != 0);
        }
    }
    None
}

/// The calendar time a system-time value points to: the sixteen bytes must lie inside the
/// filled part of the buffer and be aligned for a `SYSTEMTIME` (two bytes).
pub open spec fn system_time_spec(v: RenderedValues, pointer: int) -> Option<SystemTimeValues> {
    let start = v.buffer_address as int;
    let end = start + v.buffer_used;
    if end > usize::MAX || pointer + SYSTEM_TIME_BYTES > usize::MAX || pointer < start || pointer + SYSTEM_TIME_BYTES
        > end || pointer % 2 != 0 {
        None
    } else {
        let o = pointer - start;
        let b = v.buffer@;
        Some(
            SystemTimeValues {
                year: unit_at(b, o),
                month: unit_at(b, o + 2),
                day: unit_at(b, o + 6),
                hour: unit_at(b, o + 8),
                minute: unit_at(b, o + 10),
                second: unit_at(b, o + 12),
                milliseconds: unit_at(b, o + 14),
            },
        )
    }
}

fn unit_exec(b: &Vec<u8>, o: usize) -> (r: u16)
    requires
        o + 1 < b.len(),
    ensures
        r == unit_at(b@, o as int),
{
    b[o] as u16 + 256 * (b[o + 1] as u16)
}

/// Reads the calendar time a system-time value points to (see `system_time_spec`).
pub fn system_time(v: &RenderedValues, pointer: usize) -> (r: Option<SystemTimeValues>)
    requires
        rendered_wf(*v),
    ensures
        r == system_time_spec(*v, pointer as int),
{
    let start = v.buffer_address;
    if start > usize::MAX - v.buffer_used || pointer > usize::MAX - SYSTEM_TIME_BYTES {
        return None;
    }
    let end = start + v.buffer_used;
    if pointer < start || pointer + SYSTEM_TIME_BYTES > end || pointer % 2 != 0 {
        return None;
    }
    let o = pointer - start;
    let b = &v.buffer;
    Some(SystemTimeValues {
        year: unit_exec(b, o),
        month: unit_exec(b, o + 2),
        day: unit_exec(b, o + 6),
        hour: unit_exec(b, o + 8),
        minute: unit_exec(b, o + 10),
        second: unit_exec(b, o + 12),
        milliseconds: unit_exec(b, o + 14),
    })
}

/// The text of value `index`: it must be a single string with a non-null pointer.
pub open spec fn variant_string_spec(v: RenderedValues, index: int) -> Option<Seq<char>> {
    if 0 <= index < v.values@.len() && scalar_of(v.values@[index], EVT_VAR_TYPE_STRING)
        && v.values@[index].payload as usize != 0 {
        utf16_z_spec(v, (v.values@[index].payload as usize) as int)
    } else {
        None
    }
}

/// The text of value `index` (see `variant_string_spec`).
pub fn variant_string(v: &RenderedValues, index: usize) -> (r: Option<String>)
    requires
        rendered_wf(*v),
    ensures
        match variant_string_spec(*v, index as int) {
            Some(t) => r matches Some(s) && s@ == t,
            None => r is None,
        },
{
    if index >= v.values.len() {
        return None;
    }
    let value = v.values[index];
    if !is_scalar(value.value_type, EVT_VAR_TYPE_STRING) {
        return None;
    }
    let pointer = value.payload as usize;
    if pointer == 0 {
        return None;
    }
    utf16_z(v, pointer)
}

/// A single unsigned 16-bit value.
pub fn variant_u16(value: EventVariant) -> (r: Option<u16>)
    ensures
        r == if scalar_of(value, EVT_VAR_TYPE_UINT16) { Some(value.payload as u16) } else { None::<u16> },
{
    if !is_scalar(value.value_type, EVT_VAR_TYPE_UINT16) {
        return None;
    }
    Some(value.payload as u16)
}

/// A single byte value.
pub fn variant_u8(value: EventVariant) -> (r: Option<u8>)
    ensures
        r == if scalar_of(value, EVT_VAR_TYPE_BYTE) { Some(value.payload as u8) } else { None::<u8> },
{
    if !is_scalar(value.value_type, EVT_VAR_TYPE_BYTE) {
        return None;
    }
    Some(value.payload as u8)
}

/// A single unsigned 64-bit value.
pub fn variant_u64(value: EventVariant) -> (r: Option<u64>)
    ensures
        r == if scalar_of(value, EVT_VAR_TYPE_UINT64) { Some(value.payload) } else { None::<u64> },
{
    if !is_scalar(value.value_type, EVT_VAR_TYPE_UINT64) {
        return None;
    }
    Some(value.payload)
}

/// The timestamp text of value `index`: a file time is read through `converted` (what the
/// system's file-time conversion gave for that value); a system time through its pointer,
/// which must not be null; any other value gives nothing (see `timestamp_text_spec`).
pub open spec fn variant_timestamp_spec(v: RenderedValues, index: int, converted: Option<SystemTimeValues>) -> Option<
    Seq<char>,
> {
    if 0 <= index < v.values@.len() {
        let value = v.values@[index];
        let time = if scalar_of(value, EVT_VAR_TYPE_FILE_TIME) {
            converted
        } else if scalar_of(value, EVT_VAR_TYPE_SYS_TIME) && value.payload as usize != 0 {
            system_time_spec(v, (value.payload as usize) as int)
        } else {
            None
        };
        match time {
            Some(t) => timestamp_text_spec(t),
            None => None,
        }
    } else {
        None
    }
}

/// The timestamp text of value `index` (see `variant_timestamp_spec`).
pub fn variant_timestamp_utc(v: &RenderedValues, index: usize, converted: Option<SystemTimeValues>) -> (r: Option<
    String,
>)
    requires
        rendered_wf(*v),
    ensures
        match variant_timestamp_spec(*v, index as int, converted) {
            Some(t) => r matches Some(s) && s@ == t,
            None => r is None,
        },
{
    if index >= v.values.len() {
        return None;
    }
    let value = v.values[index];
    let time = if is_scalar(value.value_type, EVT_VAR_TYPE_FILE_TIME) {
        converted
    } else if is_scalar(value.value_type, EVT_VAR_TYPE_SYS_TIME) && value.payload as usize != 0 {
        system_time(v, value.payload as usize)
    } else {
        None
    };
    match time {
        Some(t) => timestamp_text(t),
        None => None,
    }
}

/// The system part of a record rendered with the system context: it must have exactly
/// `SYSTEM_PROPERTY_COUNT` values, with the provider name, event id, version, record id and
/// creation time of the expected types; the creation time is read as `variant_timestamp_spec`
/// says.
pub open spec fn system_values_spec(v: RenderedValues, converted: Option<SystemTimeValues>) -> Option<(
    Seq<char>,
    u16,
    u8,
    u64,
    Seq<char>,
)> {
    if v.values@.len() != SYSTEM_PROPERTY_COUNT {
        None
    } else {
        let id = v.values@[SYSTEM_EVENT_ID as int];
        let version = v.values@[SYSTEM_VERSION as int];
        let record = v.values@[SYSTEM_EVENT_RECORD_ID as int];
        match (
            variant_string_spec(v, SYSTEM_PROVIDER_NAME as int),
            variant_timestamp_spec(v, SYSTEM_TIME_CREATED as int, converted),
        ) {
            (Some(provider), Some(time)) => if scalar_of(id, EVT_VAR_TYPE_UINT16) && scalar_of(version, EVT_VAR_TYPE_BYTE)
                && scalar_of(record, EVT_VAR_TYPE_UINT64) {
                Some((provider, id.payload as u16, version.payload as u8, record.payload, time))
            } else {
                None
            },
            _ => None,
        }
    }
}

/// Reads the system part of a record (see `system_values_spec`); `converted` is what the
/// system's file-time conversion gave for the creation time, when it is a file time.
pub fn system_values_from_rendered(v: &RenderedValues, converted: Option<SystemTimeValues>) -> (r: Option<
    EventSystemValues,
>)
    requires
        rendered_wf(*v),
    ensures
        match system_values_spec(*v, converted) {
            Some((provider, id, version, record, time)) => r matches Some(s) && s.provider@ == provider && s.event_id
                == id && s.version == version && s.event_record_id == record && s.timestamp_utc@ == time,
            None => r is None,
        },
{
    if v.values.len() != SYSTEM_PROPERTY_COUNT {
        return None;
    }
    let provider = match variant_string(v, SYSTEM_PROVIDER_NAME) {
        Some(p) => p,
        None => return None,
    };
    let event_id = match variant_u16(v.values[SYSTEM_EVENT_ID]) {
        Some(x) => x,
        None => return None,
    };
    let version = match variant_u8(v.values[SYSTEM_VERSION]) {
        Some(x) => x,
        None => return None,
    };
    let event_record_id = match variant_u64(v.values[SYSTEM_EVENT_RECORD_ID]) {
        Some(x) => x,
        None => return None,
    };
    let timestamp_utc = match variant_timestamp_utc(v, SYSTEM_TIME_CREATED, converted) {
        Some(t) => t,
        None => return None,
    };
    Some(EventSystemValues { provider, event_id, version, event_record_id, timestamp_utc })
}

/// The text of each value, in order (see `variant_string_spec`).
pub open spec fn positional_spec(v: RenderedValues) -> Seq<Option<Seq<char>>> {
    Seq::new(v.values@.len(), |i: int| variant_string_spec(v, i))
}

/// The plain value of an optional text.
pub open spec fn opt_text(o: Option<String>) -> Option<Seq<char>> {
    match o {
        Some(s) => Some(s@),
        None => None,
    }
}

/// Reads the named data items of a crash record rendered with the named-values context: it
/// must have exactly `NAMED_DATA_COUNT` values; each item is the text of its value.
pub fn named_event_data_from_rendered(v: &RenderedValues) -> (r: Option<NamedEventData>)
    requires
        rendered_wf(*v),
    ensures
        v.values@.len() != NAMED_DATA_COUNT ==> r is None,
        v.values@.len() == NAMED_DATA_COUNT ==> (r matches Some(d) && opt_text(d.app_name) == variant_string_spec(*v, 0)
            && opt_text(d.app_path) == variant_string_spec(*v, 1) && opt_text(d.faulting_module_name)
            == variant_string_spec(*v, 2) && opt_text(d.faulting_module_path) == variant_string_spec(*v, 3) && opt_text(
            d.exception_code,
        ) == variant_string_spec(*v, 4)),
{
    if v.values.len() != NAMED_DATA_COUNT {
        return None;
    }
    Some(NamedEventData {
        app_name: variant_string(v, 0),
        app_path: variant_string(v, 1),
        faulting_module_name: variant_string(v, 2),
        faulting_module_path: variant_string(v, 3),
        exception_code: variant_string(v, 4),
    })
}

/// Reads the text of every value of a record rendered with the user context (see
/// `variant_string_spec`).
pub fn positional_event_data_from_rendered(v: &RenderedValues) -> (r: Vec<Option<String>>)
    requires
        rendered_wf(*v),
    ensures
        r@.map_values(|o: Option<String>| opt_text(o)) == positional_spec(*v),
{
    let mut out: Vec<Option<String>> = Vec::new();
    let mut i: usize = 0;
    while i < v.values.len()
        invariant
            rendered_wf(*v),
            i <= v.values@.len(),
            out@.map_values(|o: Option<String>| opt_text(o)) == positional_spec(*v).take(i as int),
        decreases v.values.len() - i,
    {
        let ghost before = out@.map_values(|o: Option<String>| opt_text(o));
        let s = variant_string(v, i);
        out.push(s);
        assert(out@.map_values(|o: Option<String>| opt_text(o)) =~= before.push(variant_string_spec(*v, i as int)));
        i = i + 1;
        assert(positional_spec(*v).take(i as int) =~= positional_spec(*v).take(i - 1).push(variant_string_spec(*v, i - 1)));
    }
    assert(positional_spec(*v).take(i as int) =~= positional_spec(*v));
    out
}

} // verus!

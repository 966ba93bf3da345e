use cpu_affinity_tool::event_scan::SystemTimeValues;
use cpu_affinity_tool::rendered::{
    named_event_data_from_rendered, positional_event_data_from_rendered, system_time, system_values_from_rendered,
    utf16_z, variant_string, variant_timestamp_utc, variant_type, variant_u16, variant_u64, variant_u8, EventVariant,
    RenderedValues,
};

const VARIANT_SIZE: usize = 16;
const BASE: usize = 0x1000;

fn string_variant(address: usize) -> EventVariant {
    EventVariant { value_type: 1, payload: address as u64 }
}

fn utf16_bytes(text: &str) -> Vec<u8> {
    let mut out = Vec::new();
    for unit in text.encode_utf16() {
        out.extend_from_slice(&unit.to_le_bytes());
    }
    out.extend_from_slice(&[0, 0]);
    out
}

#[test]
fn string_values_must_point_inside_the_rendered_buffer() {
    let mut buffer = vec![0u8; 2 * VARIANT_SIZE];
    let text_offset = VARIANT_SIZE;
    let text = utf16_bytes("A");
    buffer[text_offset..text_offset + text.len()].copy_from_slice(&text);
    let rendered = RenderedValues {
        buffer,
        buffer_address: BASE,
        buffer_used: text_offset + text.len(),
        values: vec![string_variant(BASE + text_offset)],
    };
    assert_eq!(variant_string(&rendered, 0), Some("A".to_string()));

    let rendered_with_bad_pointer = RenderedValues {
        buffer: vec![0u8; VARIANT_SIZE],
        buffer_address: BASE,
        buffer_used: VARIANT_SIZE,
        values: vec![string_variant(0x10)],
    };
    assert_eq!(variant_string(&rendered_with_bad_pointer, 0), None);
}

#[test]
fn strings_need_alignment_terminator_and_valid_utf16() {
    let mut buffer = vec![0u8; 64];
    let good = utf16_bytes("héllo");
    buffer[16..16 + good.len()].copy_from_slice(&good);
    buffer[40] = 0x00;
    buffer[41] = 0xD8;
    let v = RenderedValues { buffer: buffer.clone(), buffer_address: BASE, buffer_used: 64, values: Vec::new() };
    assert_eq!(utf16_z(&v, BASE + 16), Some("héllo".to_string()));
    assert_eq!(utf16_z(&v, BASE + 17), None);
    assert_eq!(utf16_z(&v, BASE + 40), None);
    let cut = RenderedValues { buffer, buffer_address: BASE, buffer_used: 20, values: Vec::new() };
    assert_eq!(utf16_z(&cut, BASE + 16), None);
    assert_eq!(utf16_z(&cut, BASE + 20), None);
}

#[test]
fn long_strings_without_terminator_in_reach_are_refused() {
    let mut buffer = vec![0u8; 2 * 300];
    for k in 0..299 {
        buffer[2 * k] = b'x';
    }
    let v = RenderedValues { buffer, buffer_address: BASE, buffer_used: 600, values: Vec::new() };
    assert_eq!(utf16_z(&v, BASE), None);
    assert_eq!(utf16_z(&v, BASE + 2 * 43), Some("x".repeat(256)));
}

#[test]
fn scalar_values_check_their_type() {
    assert_eq!(variant_u16(EventVariant { value_type: 6, payload: 1000 }), Some(1000));
    assert_eq!(variant_u16(EventVariant { value_type: 6 | 128, payload: 1000 }), None);
    assert_eq!(variant_u16(EventVariant { value_type: 4, payload: 1000 }), None);
    assert_eq!(variant_u8(EventVariant { value_type: 4, payload: 0x1FF }), Some(0xFF));
    assert_eq!(variant_u64(EventVariant { value_type: 10, payload: u64::MAX }), Some(u64::MAX));
}

fn system_time_bytes(t: [u16; 8]) -> Vec<u8> {
    t.iter().flat_map(|u| u.to_le_bytes()).collect()
}

#[test]
fn system_times_are_read_inside_the_buffer() {
    let mut buffer = vec![0u8; 48];
    buffer[16..32].copy_from_slice(&system_time_bytes([2024, 3, 5, 9, 14, 7, 30, 45]));
    let v = RenderedValues {
        buffer,
        buffer_address: BASE,
        buffer_used: 32,
        values: vec![EventVariant { value_type: 18, payload: (BASE + 16) as u64 }],
    };
    assert_eq!(
        system_time(&v, BASE + 16),
        Some(SystemTimeValues { year: 2024, month: 3, day: 9, hour: 14, minute: 7, second: 30, milliseconds: 45 })
    );
    assert_eq!(system_time(&v, BASE + 18), None);
    assert_eq!(system_time(&v, BASE + 15), None);
    assert_eq!(variant_timestamp_utc(&v, 0, None), Some("2024-03-09T14:07:30.045Z".to_string()));
}

#[test]
fn file_times_use_the_converted_value() {
    let v = RenderedValues {
        buffer: Vec::new(),
        buffer_address: BASE,
        buffer_used: 0,
        values: vec![EventVariant { value_type: 17, payload: 133_000_000_000_000_000 }],
    };
    let t = SystemTimeValues { year: 2022, month: 6, day: 21, hour: 1, minute: 2, second: 3, milliseconds: 4 };
    assert_eq!(variant_timestamp_utc(&v, 0, Some(t)), Some("2022-06-21T01:02:03.004Z".to_string()));
    assert_eq!(variant_timestamp_utc(&v, 0, None), None);
    let bad = SystemTimeValues { month: 13, ..t };
    assert_eq!(variant_timestamp_utc(&v, 0, Some(bad)), None);
}

#[test]
fn system_values_need_all_properties() {
    let mut buffer = vec![0u8; 64];
    let provider = utf16_bytes("Application Error");
    buffer[0..provider.len()].copy_from_slice(&provider);
    let mut values = vec![EventVariant { value_type: 0, payload: 0 }; 18];
    values[0] = string_variant(BASE);
    values[2] = EventVariant { value_type: 6, payload: 1000 };
    values[8] = EventVariant { value_type: 17, payload: 1 };
    values[9] = EventVariant { value_type: 10, payload: 77 };
    values[17] = EventVariant { value_type: 4, payload: 0 };
    let v = RenderedValues { buffer, buffer_address: BASE, buffer_used: 64, values };
    let t = SystemTimeValues { year: 2024, month: 1, day: 2, hour: 3, minute: 4, second: 5, milliseconds: 6 };
    let s = system_values_from_rendered(&v, Some(t)).unwrap();
    assert_eq!(s.provider, "Application Error");
    assert_eq!(s.event_id, 1000);
    assert_eq!(s.version, 0);
    assert_eq!(s.event_record_id, 77);
    assert_eq!(s.timestamp_utc, "2024-01-02T03:04:05.006Z");
    let short = RenderedValues { buffer: Vec::new(), buffer_address: BASE, buffer_used: 0, values: vec![string_variant(BASE); 17] };
    assert!(system_values_from_rendered(&short, Some(t)).is_none());
}

#[test]
fn named_and_positional_data_read_each_value() {
    let mut buffer = vec![0u8; 32];
    let app = utf16_bytes("app.exe");
    buffer[0..app.len()].copy_from_slice(&app);
    let values = vec![
        string_variant(BASE),
        EventVariant { value_type: 0, payload: 0 },
        string_variant(0),
        string_variant(BASE),
        EventVariant { value_type: 1 | 128, payload: BASE as u64 },
    ];
    let v = RenderedValues { buffer, buffer_address: BASE, buffer_used: 32, values };
    let named = named_event_data_from_rendered(&v).unwrap();
    assert_eq!(named.app_name, Some("app.exe".to_string()));
    assert_eq!(named.app_path, None);
    assert_eq!(named.faulting_module_name, None);
    assert_eq!(named.faulting_module_path, Some("app.exe".to_string()));
    assert_eq!(named.exception_code, None);
    assert_eq!(
        positional_event_data_from_rendered(&v),
        vec![Some("app.exe".to_string()), None, None, Some("app.exe".to_string()), None]
    );
    let four = RenderedValues { buffer: Vec::new(), buffer_address: BASE, buffer_used: 0, values: vec![string_variant(0); 4] };
    assert!(named_event_data_from_rendered(&four).is_none());
}

#[test]
fn variant_type_drops_the_array_flag() {
    assert_eq!(variant_type(EventVariant { value_type: 6 | 128, payload: 0 }), 6);
    assert_eq!(variant_type(EventVariant { value_type: 18, payload: 0 }), 18);
}

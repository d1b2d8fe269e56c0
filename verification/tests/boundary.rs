use render_bundle::error_buffer::{
    adapter_index, buffer_usage_from_bits, decimal_text, error_text, trace_path,
    truncated_length, ErrorBuffer,
};
use render_bundle::flags::BufferUsages;

#[test]
fn text_of_an_error_names_its_causes() {
    assert_eq!(error_text(&vec![String::from("top")]), "top");
    assert_eq!(
        error_text(&vec![String::from("top"), String::from("middle"), String::from("root")]),
        "top, caused by: middle, caused by: root"
    );
    assert_eq!(error_text(&vec![String::new(), String::new()]), ", caused by: ");
    assert_eq!(error_text(&vec![]), "");
}

#[test]
fn message_is_cut_to_leave_room_for_the_zero_byte() {
    assert_eq!(truncated_length(0, 1), 0);
    assert_eq!(truncated_length(3, 4), 3);
    assert_eq!(truncated_length(4, 4), 3);
    assert_eq!(truncated_length(5, 4), 3);
    assert_eq!(truncated_length(usize::MAX, 1), 0);
}

#[test]
fn buffer_holds_the_message_and_a_zero_byte() {
    let mut buffer = ErrorBuffer::new(8);
    assert_eq!(buffer.string, vec![0]);
    assert_eq!(buffer.capacity, 8);
    buffer.init_str("short");
    assert_eq!(buffer.string, b"short\0".to_vec());
    buffer.init_str("exactly");
    assert_eq!(buffer.string, b"exactly\0".to_vec());
    buffer.init_str("too long!");
    assert_eq!(buffer.string, b"too lon\0".to_vec());
    buffer.init_str("");
    assert_eq!(buffer.string, vec![0]);
    assert_eq!(buffer.capacity, 8);
}

#[test]
fn buffer_of_one_byte_holds_the_zero_byte_alone() {
    let mut buffer = ErrorBuffer::new(1);
    buffer.init_str("anything");
    assert_eq!(buffer.string, vec![0]);
}

#[test]
fn message_is_cut_by_bytes() {
    let mut buffer = ErrorBuffer::new(3);
    buffer.init_str("a\u{e9}b");
    assert_eq!(buffer.string, vec![b'a', 0xc3, 0]);
}

#[test]
fn buffer_takes_an_error_with_its_causes() {
    let mut buffer = ErrorBuffer::new(64);
    buffer.init(&vec![String::from("scope"), String::from("cause")]);
    assert_eq!(buffer.string, b"scope, caused by: cause\0".to_vec());
    let mut small = ErrorBuffer::new(10);
    small.init(&vec![String::from("scope"), String::from("cause")]);
    assert_eq!(small.string, b"scope, ca\0".to_vec());
}

#[test]
fn chosen_adapter_is_found_in_the_list() {
    assert_eq!(adapter_index(&[5, 7, 9], 5), 0);
    assert_eq!(adapter_index(&[5, 7, 9], 9), 2);
    assert_eq!(adapter_index(&[5, 7, 5, 7], 7), 1);
}

#[test]
fn usage_bits_that_stand_for_no_usage_are_refused() {
    assert_eq!(buffer_usage_from_bits(0), Ok(BufferUsages { bits: 0 }));
    assert_eq!(buffer_usage_from_bits(0x1ff), Ok(BufferUsages { bits: 0x1ff }));
    assert_eq!(buffer_usage_from_bits(0x30), Ok(BufferUsages { bits: 0x30 }));
    let message =
        "GPUBufferDescriptor's 'usage' includes invalid unimplemented bits or unimplemented usages";
    assert_eq!(buffer_usage_from_bits(0x200), Err(message));
    assert_eq!(buffer_usage_from_bits(u32::MAX), Err(message));
}

#[test]
fn numbers_are_written_in_decimal() {
    assert_eq!(decimal_text(0), "0");
    assert_eq!(decimal_text(7), "7");
    assert_eq!(decimal_text(10), "10");
    assert_eq!(decimal_text(1234567890), "1234567890");
    assert_eq!(decimal_text(u32::MAX), "4294967295");
}

#[test]
fn trace_of_a_device_goes_to_its_own_directory() {
    assert_eq!(trace_path("/tmp/trace", 0), "/tmp/trace/0/");
    assert_eq!(trace_path("/tmp/trace", 12), "/tmp/trace/12/");
    assert_eq!(trace_path("", 305), "/305/");
}

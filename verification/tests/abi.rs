use hello_app::abi::{
    abi_call, abi_entry_addr, hello, payload_calls, putchar, puts, shutdown, AbiCall,
    ABI_ENTRY_SIZE, SYS_HELLO, SYS_PUTCHAR, SYS_TERMINATE,
};

const TABLE: usize = 0x8000_1000;

fn call(entry_addr: usize, arg0: usize) -> AbiCall {
    AbiCall { entry_addr, arg0, arg1: 1, arg2: 2, arg3: 3 }
}

#[test]
fn service_numbers() {
    assert_eq!(SYS_HELLO, 1);
    assert_eq!(SYS_PUTCHAR, 2);
    assert_eq!(SYS_TERMINATE, 3);
    assert_eq!(ABI_ENTRY_SIZE, 8);
}

#[test]
fn entry_addresses_are_eight_bytes_apart() {
    assert_eq!(abi_entry_addr(TABLE, 0), TABLE);
    assert_eq!(abi_entry_addr(TABLE, 1), TABLE + 8);
    assert_eq!(abi_entry_addr(TABLE, 2), TABLE + 16);
    assert_eq!(abi_entry_addr(TABLE, 3), TABLE + 24);
    assert_eq!(abi_entry_addr(0, 15), 120);
}

#[test]
fn entry_address_at_the_top_of_memory() {
    assert_eq!(abi_entry_addr(usize::MAX - 24, 3), usize::MAX);
}

#[test]
fn abi_call_passes_one_two_three() {
    assert_eq!(abi_call(TABLE, 7, 42), call(TABLE + 56, 42));
}

#[test]
fn hello_and_shutdown() {
    assert_eq!(hello(TABLE), call(TABLE + 8, 0));
    assert_eq!(shutdown(TABLE), call(TABLE + 24, 0));
}

#[test]
fn putchar_sends_code_point() {
    assert_eq!(putchar(TABLE, 'z'), call(TABLE + 16, 'z' as usize));
    assert_eq!(putchar(TABLE, '\u{263A}'), call(TABLE + 16, 0x263A));
}

#[test]
fn puts_one_call_per_byte() {
    let calls = puts(TABLE, b"testa");
    let expected: Vec<AbiCall> = b"testa".iter().map(|b| call(TABLE + 16, *b as usize)).collect();
    assert_eq!(calls, expected);
    assert_eq!(calls.len(), 5);
    assert_eq!(calls[0].arg0, 0x74);
}

#[test]
fn puts_empty() {
    assert!(puts(TABLE, b"").is_empty());
}

#[test]
fn puts_concatenation() {
    let mut joined = puts(TABLE, b"te");
    joined.extend(puts(TABLE, b"sta"));
    assert_eq!(joined, puts(TABLE, b"testa"));
}

#[test]
fn putchar_matches_puts_for_a_byte() {
    assert_eq!(puts(TABLE, b"z"), vec![putchar(TABLE, 'z')]);
    assert_eq!(puts(TABLE, &[0xE9]), vec![putchar(TABLE, '\u{E9}')]);
}

#[test]
fn payload_sequence() {
    let calls = payload_calls(TABLE, b"testa");
    assert_eq!(calls.len(), 7);
    assert_eq!(calls[0], hello(TABLE));
    assert_eq!(calls[1..6].to_vec(), puts(TABLE, b"testa"));
    assert_eq!(calls[6], shutdown(TABLE));
}

#[test]
fn payload_with_empty_message() {
    assert_eq!(payload_calls(TABLE, b""), vec![hello(TABLE), shutdown(TABLE)]);
}

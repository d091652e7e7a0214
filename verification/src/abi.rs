use vstd::prelude::*;

verus! {

/// Service number of the greeting entry.
pub const SYS_HELLO: usize = 1;

/// Service number of the entry that prints one character.
pub const SYS_PUTCHAR: usize = 2;

/// Service number of the entry that shuts the machine down.
pub const SYS_TERMINATE: usize = 3;

/// Width in bytes of one entry of the kernel's table.
pub const ABI_ENTRY_SIZE: usize = 8;

/// One request through the kernel's table: the address of the entry to read
/// and the four arguments the entry is called with.
#[derive(Clone, Copy, Debug, PartialEq, Eq, Structural)]
pub struct AbiCall {
    pub entry_addr: usize,
    pub arg0: usize,
    pub arg1: usize,
    pub arg2: usize,
    pub arg3: usize,
}

/// Address of the entry for service `abi_id` in a table at `table_addr`.
pub open spec fn entry_addr_of(table_addr: int, abi_id: int) -> int {
    table_addr + abi_id * (ABI_ENTRY_SIZE as int)
}

/// The entry for `abi_id` lies at an address that a `usize` can hold.
pub open spec fn entry_fits(table_addr: usize, abi_id: usize) -> bool {
    entry_addr_of(table_addr as int, abi_id as int) <= usize::MAX
}

/// The request for service `abi_id` with first argument `arg0`; the other
/// three arguments are always 1, 2 and 3.
pub open spec fn spec_abi_call(table_addr: usize, abi_id: usize, arg0: usize) -> AbiCall {
    AbiCall {
        entry_addr: entry_addr_of(table_addr as int, abi_id as int) as usize,
        arg0: arg0,
        arg1: 1,
        arg2: 2,
        arg3: 3,
    }
}

/// Address of the entry for service `abi_id` in the table at `table_addr`.
pub fn abi_entry_addr(table_addr: usize, abi_id: usize) -> (addr: usize)
    requires
        entry_fits(table_addr, abi_id),
    ensures
        addr == entry_addr_of(table_addr as int, abi_id as int),
        addr == table_addr + abi_id * 8,
{
    table_addr + abi_id * ABI_ENTRY_SIZE
}

/// The request that calls service `abi_id` with `arg0`.
pub fn abi_call(table_addr: usize, abi_id: usize, arg0: usize) -> (call: AbiCall)
    requires
        entry_fits(table_addr, abi_id),
    ensures
        call == spec_abi_call(table_addr, abi_id, arg0),
        call.entry_addr == table_addr + abi_id * 8,
        call.arg0 == arg0,
        call.arg1 == 1,
        call.arg2 == 2,
        call.arg3 == 3,
{
    AbiCall { entry_addr: abi_entry_addr(table_addr, abi_id), arg0, arg1: 1, arg2: 2, arg3: 3 }
}


/// The requests that print the bytes of `s`, one per byte, in order.
pub open spec fn spec_puts(table_addr: usize, s: Seq<u8>) -> Seq<AbiCall> {
    s.map_values(|b: u8| spec_abi_call(table_addr, SYS_PUTCHAR, b as usize))
}

/// The request that prints `c`; its first argument is the code point of `c`.
pub open spec fn spec_putchar(table_addr: usize, c: char) -> AbiCall {
    spec_abi_call(table_addr, SYS_PUTCHAR, c as usize)
}

/// What the payload asks of the kernel from start to end: a greeting, the
/// bytes of `message`, then a shutdown.
pub open spec fn spec_payload(table_addr: usize, message: Seq<u8>) -> Seq<AbiCall> {
    seq![spec_abi_call(table_addr, SYS_HELLO, 0)] + spec_puts(table_addr, message) + seq![
        spec_abi_call(table_addr, SYS_TERMINATE, 0),
    ]
}

/// Requests that every byte of `s` be printed, in order.
pub fn puts(table_addr: usize, s: &[u8]) -> (calls: Vec<AbiCall>)
    requires
        entry_fits(table_addr, SYS_PUTCHAR),
    ensures
        calls@ == spec_puts(table_addr, s@),
        calls@.len() == s@.len(),
        forall|k: int|
            0 <= k < s@.len() ==> {
                &&& (#[trigger] calls@[k]).entry_addr == table_addr + 16
                &&& calls@[k].arg0 == s@[k] as usize
                &&& calls@[k].arg1 == 1
                &&& calls@[k].arg2 == 2
                &&& calls@[k].arg3 == 3
            },
{
    let mut calls: Vec<AbiCall> = Vec::new();
    let mut i: usize = 0;
    while i < s.len()
        invariant
            entry_fits(table_addr, SYS_PUTCHAR),
            i <= s@.len(),
            calls@ == spec_puts(table_addr, s@.take(i as int)),
        decreases s@.len() - i,
    {
        calls.push(abi_call(table_addr, SYS_PUTCHAR, s[i] as usize));
        assert(s@.take(i + 1) =~= s@.take(i as int).push(s@[i as int]));
        i = i + 1;
    }
    assert(s@.take(i as int) =~= s@);
    calls
}

/// Requests that the character `c` be printed.
pub fn putchar(table_addr: usize, c: char) -> (call: AbiCall)
    requires
        entry_fits(table_addr, SYS_PUTCHAR),
    ensures
        call == spec_putchar(table_addr, c),
        call.entry_addr == table_addr + 16,
        call.arg0 == c as usize,
        call.arg1 == 1,
        call.arg2 == 2,
        call.arg3 == 3,
{
    abi_call(table_addr, SYS_PUTCHAR, c as usize)
}

/// Requests the kernel's greeting.
pub fn hello(table_addr: usize) -> (call: AbiCall)
    requires
        entry_fits(table_addr, SYS_HELLO),
    ensures
        call == spec_abi_call(table_addr, SYS_HELLO, 0),
        call.entry_addr == table_addr + 8,
        call.arg0 == 0,
        call.arg1 == 1,
        call.arg2 == 2,
        call.arg3 == 3,
{
    abi_call(table_addr, SYS_HELLO, 0)
}

/// Requests that the kernel shut the machine down.
pub fn shutdown(table_addr: usize) -> (call: AbiCall)
    requires
        entry_fits(table_addr, SYS_TERMINATE),
    ensures
        call == spec_abi_call(table_addr, SYS_TERMINATE, 0),
        call.entry_addr == table_addr + 24,
        call.arg0 == 0,
        call.arg1 == 1,
        call.arg2 == 2,
        call.arg3 == 3,
{
    abi_call(table_addr, SYS_TERMINATE, 0)
}

/// Everything the payload requests, in order: the greeting, each byte of
/// `message`, and the shutdown.
pub fn payload_calls(table_addr: usize, message: &[u8]) -> (calls: Vec<AbiCall>)
    requires
        entry_fits(table_addr, SYS_TERMINATE),
    ensures
        calls@ == spec_payload(table_addr, message@),
        calls@.len() == message@.len() + 2,
        calls@[0].entry_addr == table_addr + 8,
        calls@[0].arg0 == 0,
        calls@[message@.len() as int + 1].entry_addr == table_addr + 24,
        calls@[message@.len() as int + 1].arg0 == 0,
        forall|k: int|
            0 <= k < message@.len() ==> {
                &&& (#[trigger] calls@[k + 1]).entry_addr == table_addr + 16
                &&& calls@[k + 1].arg0 == message@[k] as usize
            },
        forall|k: int|
            0 <= k < calls@.len() ==> {
                &&& (#[trigger] calls@[k]).arg1 == 1
                &&& calls@[k].arg2 == 2
                &&& calls@[k].arg3 == 3
            },
{
    let mut calls: Vec<AbiCall> = Vec::new();
    calls.push(hello(table_addr));
    let mut text = puts(table_addr, message);
    calls.append(&mut text);
    calls.push(shutdown(table_addr));
    proof {
        lemma_payload_shape(table_addr, message@);
    }
    calls
}

/// Printing two byte strings one after the other requests the same calls as
/// printing their concatenation.
pub proof fn lemma_puts_concat(table_addr: usize, a: Seq<u8>, b: Seq<u8>)
    ensures
        spec_puts(table_addr, a + b) == spec_puts(table_addr, a) + spec_puts(table_addr, b),
{
    assert(spec_puts(table_addr, a + b) =~= spec_puts(table_addr, a) + spec_puts(table_addr, b));
}

/// For a character below 256, `putchar` requests exactly what `puts` requests
/// for the one byte with that value.
pub proof fn lemma_putchar_is_one_byte_puts(table_addr: usize, c: char)
    requires
        (c as int) < 256,
    ensures
        spec_puts(table_addr, seq![(c as int) as u8]) == seq![spec_putchar(table_addr, c)],
{
    assert(spec_puts(table_addr, seq![(c as int) as u8]) =~= seq![spec_putchar(table_addr, c)]);
}

/// Entries of different services occupy disjoint words of the table.
pub proof fn lemma_entries_disjoint(table_addr: usize, i: usize, j: usize)
    requires
        i != j,
    ensures
        entry_addr_of(table_addr as int, i as int) + ABI_ENTRY_SIZE <= entry_addr_of(
            table_addr as int,
            j as int,
        ) || entry_addr_of(table_addr as int, j as int) + ABI_ENTRY_SIZE <= entry_addr_of(
            table_addr as int,
            i as int,
        ),
{
}

/// Service `i`'s entry lies `8 * i` bytes past the start of the table: the
/// first entry is at the table's address and each next one a word further.
pub proof fn lemma_entry_addr_is_word_index(table_addr: int, i: int)
    ensures
        entry_addr_of(table_addr, i) == table_addr + i * 8,
        entry_addr_of(table_addr, 0) == table_addr,
        entry_addr_of(table_addr, i + 1) == entry_addr_of(table_addr, i) + 8,
{
}

/// A request for service `i` names the word `table + 8 * i` and carries its
/// first argument unchanged, followed by 1, 2 and 3.
pub proof fn lemma_abi_call_fields(table_addr: usize, i: usize, arg0: usize)
    requires
        entry_fits(table_addr, i),
    ensures
        spec_abi_call(table_addr, i, arg0).entry_addr == table_addr + i * 8,
        spec_abi_call(table_addr, i, arg0).arg0 == arg0,
        spec_abi_call(table_addr, i, arg0).arg1 == 1,
        spec_abi_call(table_addr, i, arg0).arg2 == 2,
        spec_abi_call(table_addr, i, arg0).arg3 == 3,
{
}

/// Printing a byte string makes one request per byte, in order; request `k`
/// names the word at `table + 16` and carries byte `k` of the string.
pub proof fn lemma_puts_byte_by_byte(table_addr: usize, s: Seq<u8>)
    requires
        entry_fits(table_addr, SYS_PUTCHAR),
    ensures
        spec_puts(table_addr, s).len() == s.len(),
        forall|k: int|
            0 <= k < s.len() ==> {
                &&& (#[trigger] spec_puts(table_addr, s)[k]).entry_addr == table_addr + 16
                &&& spec_puts(table_addr, s)[k].arg0 == s[k] as usize
                &&& spec_puts(table_addr, s)[k].arg1 == 1
                &&& spec_puts(table_addr, s)[k].arg2 == 2
                &&& spec_puts(table_addr, s)[k].arg3 == 3
            },
{
}

/// Printing a character requests the word at `table + 16` with the
/// character's code point as first argument.
pub proof fn lemma_putchar_sends_code_point(table_addr: usize, c: char)
    requires
        entry_fits(table_addr, SYS_PUTCHAR),
    ensures
        spec_putchar(table_addr, c).entry_addr == table_addr + 16,
        spec_putchar(table_addr, c).arg0 == c as usize,
        spec_putchar(table_addr, c).arg0 as int == c as u32 as int,
{
}

/// The payload makes `|m| + 2` requests whatever the message: first the
/// greeting (`table + 8`, argument 0), then request `k + 1` prints byte `k` of
/// the message (`table + 16`), and last the shutdown (`table + 24`, argument 0).
pub proof fn lemma_payload_shape(table_addr: usize, m: Seq<u8>)
    requires
        entry_fits(table_addr, SYS_TERMINATE),
    ensures
        spec_payload(table_addr, m).len() == m.len() + 2,
        spec_payload(table_addr, m)[0].entry_addr == table_addr + 8,
        spec_payload(table_addr, m)[0].arg0 == 0,
        spec_payload(table_addr, m)[m.len() as int + 1].entry_addr == table_addr + 24,
        spec_payload(table_addr, m)[m.len() as int + 1].arg0 == 0,
        forall|k: int|
            0 <= k < m.len() ==> {
                &&& (#[trigger] spec_payload(table_addr, m)[k + 1]).entry_addr == table_addr + 16
                &&& spec_payload(table_addr, m)[k + 1].arg0 == m[k] as usize
            },
        forall|k: int|
            0 <= k < m.len() + 2 ==> {
                &&& (#[trigger] spec_payload(table_addr, m)[k]).arg1 == 1
                &&& spec_payload(table_addr, m)[k].arg2 == 2
                &&& spec_payload(table_addr, m)[k].arg3 == 3
            },
{
    let p = spec_payload(table_addr, m);
    let text = spec_puts(table_addr, m);
    assert forall|k: int| 0 <= k < m.len() implies #[trigger] p[k + 1] == text[k] by {
    }
    assert forall|k: int| 0 <= k < m.len() + 2 implies {
        &&& (#[trigger] p[k]).arg1 == 1
        &&& p[k].arg2 == 2
        &&& p[k].arg3 == 3
    } by {
        if 1 <= k <= m.len() {
            assert(p[k] == text[k - 1]);
        }
    }
}

} // verus!

//! Encoding of the fixed-size command frame.
use vstd::prelude::*;

verus! {

/// Size in bytes of every command frame.
pub const FRAME_SIZE: usize = 512;

/// Offset of the big-endian size field.
pub const SIZE_OFFSET: usize = 252;

/// Offset of the big-endian address field.
pub const ADDRESS_OFFSET: usize = 256;

/// The operation selector carried in byte 4 of a frame.
#[derive(Clone, Copy, PartialEq, Eq, Debug, Structural)]
pub enum Opcode {
    /// Get memory operation
    Get,
    /// Put memory operation
    Put,
    /// Video RAM get memory operation
    Vget,
    /// Video RAM put memory operation
    Vput,
    // file system operations
    Ls,
    Mkdir,
    Rm,
    Mv,
    // special operations
    Reset,
    Boot,
    PowerCycle,
    Info,
    MenuResut,
    Stream,
    Time,
    // response
    Respose,
}

/// The address space selector carried in byte 5 of a frame.
#[derive(Clone, Copy, PartialEq, Eq, Debug, Structural)]
pub enum Space {
    File,
    Snes,
    Msu,
    Cmd,
    Config,
}

/// One flag of the bitmask carried in byte 6 of a frame.
#[derive(Clone, Copy, PartialEq, Eq, Debug, Structural)]
pub enum Flags {
    NoFlag,
    SkipReset,
    OnlyReset,
    Clrx,
    Setx,
    StreamBurst,
    Noresp,
    Data64b,
}

impl Opcode {
    /// The wire value of the opcode: its position in the declaration.
    pub open spec fn spec_code(self) -> u8 {
        match self {
            Opcode::Get => 0,
            Opcode::Put => 1,
            Opcode::Vget => 2,
            Opcode::Vput => 3,
            Opcode::Ls => 4,
            Opcode::Mkdir => 5,
            Opcode::Rm => 6,
            Opcode::Mv => 7,
            Opcode::Reset => 8,
            Opcode::Boot => 9,
            Opcode::PowerCycle => 10,
            Opcode::Info => 11,
            Opcode::MenuResut => 12,
            Opcode::Stream => 13,
            Opcode::Time => 14,
            Opcode::Respose => 15,
        }
    }

    /// The byte that stands for this opcode on the wire.
    pub fn code(self) -> (r: u8)
        ensures
            r == self.spec_code(),
    {
        match self {
            Opcode::Get => 0,
            Opcode::Put => 1,
            Opcode::Vget => 2,
            Opcode::Vput => 3,
            Opcode::Ls => 4,
            Opcode::Mkdir => 5,
            Opcode::Rm => 6,
            Opcode::Mv => 7,
            Opcode::Reset => 8,
            Opcode::Boot => 9,
            Opcode::PowerCycle => 10,
            Opcode::Info => 11,
            Opcode::MenuResut => 12,
            Opcode::Stream => 13,
            Opcode::Time => 14,
            Opcode::Respose => 15,
        }
    }
}

impl Space {
    /// The wire value of the address space: its position in the declaration.
    pub open spec fn spec_code(self) -> u8 {
        match self {
            Space::File => 0,
            Space::Snes => 1,
            Space::Msu => 2,
            Space::Cmd => 3,
            Space::Config => 4,
        }
    }

    /// The byte that stands for this address space on the wire.
    pub fn code(self) -> (r: u8)
        ensures
            r == self.spec_code(),
    {
        match self {
            Space::File => 0,
            Space::Snes => 1,
            Space::Msu => 2,
            Space::Cmd => 3,
            Space::Config => 4,
        }
    }
}

impl Flags {
    /// The bit (or zero, for no flag) that this flag sets in the bitmask.
    pub open spec fn spec_bits(self) -> u8 {
        match self {
            Flags::NoFlag => 0,
            Flags::SkipReset => 1,
            Flags::OnlyReset => 2,
            Flags::Clrx => 4,
            Flags::Setx => 8,
            Flags::StreamBurst => 16,
            Flags::Noresp => 64,
            Flags::Data64b => 128,
        }
    }

    /// The bitmask value of this flag.
    pub fn bits(self) -> (r: u8)
        ensures
            r == self.spec_bits(),
    {
        match self {
            Flags::NoFlag => 0,
            Flags::SkipReset => 1,
            Flags::OnlyReset => 2,
            Flags::Clrx => 4,
            Flags::Setx => 8,
            Flags::StreamBurst => 16,
            Flags::Noresp => 64,
            Flags::Data64b => 128,
        }
    }
}

/// The four big-endian bytes of `x`, most significant first.
pub open spec fn be_bytes(x: u32) -> Seq<u8> {
    seq![
        ((x >> 24u32) & 0xffu32) as u8,
        ((x >> 16u32) & 0xffu32) as u8,
        ((x >> 8u32) & 0xffu32) as u8,
        (x & 0xffu32) as u8,
    ]
}

/// The number that four bytes, most significant first, stand for.
pub open spec fn be_value(b: Seq<u8>) -> int
    recommends
        b.len() == 4,
{
    b[0] * 0x1000000 + b[1] * 0x10000 + b[2] * 0x100 + b[3]
}

/// The bytes of a command frame for the given fields: the magic `"USBA"`,
/// opcode, space and flags in bytes 4 to 6, the size at byte 252 and the
/// address at byte 256, both big-endian, and zero everywhere else.
pub open spec fn frame_bytes(opcode: u8, space: u8, flags: u8, address: u32, size: u32) -> Seq<u8> {
    Seq::new(
        FRAME_SIZE as nat,
        |i: int|
            if i == 0 {
                0x55u8
            } else if i == 1 {
                0x53u8
            } else if i == 2 {
                0x42u8
            } else if i == 3 {
                0x41u8
            } else if i == 4 {
                opcode
            } else if i == 5 {
                space
            } else if i == 6 {
                flags
            } else if SIZE_OFFSET <= i < SIZE_OFFSET + 4 {
                be_bytes(size)[i - SIZE_OFFSET]
            } else if ADDRESS_OFFSET <= i < ADDRESS_OFFSET + 4 {
                be_bytes(address)[i - ADDRESS_OFFSET]
            } else {
                0u8
            },
    )
}

/// Writes `x` big-endian into `buf` at `at`.
fn put_u32_be(buf: &mut Vec<u8>, at: usize, x: u32)
    requires
        at + 4 <= old(buf)@.len(),
    ensures
        final(buf)@.len() == old(buf)@.len(),
        forall|i: int|
            0 <= i < final(buf)@.len() ==> #[trigger] final(buf)@[i] == if at <= i < at + 4 {
                be_bytes(x)[i - at]
            } else {
                old(buf)@[i]
            },
{
    let b0 = ((x >> 24u32) & 0xffu32) as u8;
    let b1 = ((x >> 16u32) & 0xffu32) as u8;
    let b2 = ((x >> 8u32) & 0xffu32) as u8;
    let b3 = (x & 0xffu32) as u8;
    // The length of a `Vec` is a `usize`, which bounds the indices below.
    let len = buf.len();
    assert(at + 3 < len);
    buf.set(at, b0);
    buf.set(at + 1, b1);
    buf.set(at + 2, b2);
    buf.set(at + 3, b3);
}

/// Encodes one command frame from its raw field bytes.
pub fn encode_frame(opcode: u8, space: u8, flags: u8, address: u32, size: u32) -> (r: Vec<u8>)
    ensures
        r@ == frame_bytes(opcode, space, flags, address, size),
{
    let mut buf: Vec<u8> = Vec::new();
    let mut i: usize = 0;
    while i < FRAME_SIZE
        invariant
            i <= FRAME_SIZE,
            buf@.len() == i,
            forall|j: int| 0 <= j < i ==> #[trigger] buf@[j] == 0u8,
        decreases FRAME_SIZE - i,
    {
        buf.push(0u8);
        i = i + 1;
    }
    buf.set(0, 0x55u8);
    buf.set(1, 0x53u8);
    buf.set(2, 0x42u8);
    buf.set(3, 0x41u8);
    buf.set(4, opcode);
    buf.set(5, space);
    buf.set(6, flags);
    put_u32_be(&mut buf, SIZE_OFFSET, size);
    put_u32_be(&mut buf, ADDRESS_OFFSET, address);
    assert(buf@ =~= frame_bytes(opcode, space, flags, address, size));
    buf
}

/// Encodes a command frame for an operation on an address space with a flag.
pub fn encode_command(opcode: Opcode, space: Space, flags: Flags, address: u32, size: u32) -> (r: Vec<u8>)
    ensures
        r@ == frame_bytes(opcode.spec_code(), space.spec_code(), flags.spec_bits(), address, size),
{
    encode_frame(opcode.code(), space.code(), flags.bits(), address, size)
}

/// Encodes the command that reads `size` bytes of console memory at `address`:
/// a `Get` on the `Snes` space with the `Noresp` flag.
pub fn encode_get_memory(address: u32, size: u32) -> (r: Vec<u8>)
    ensures
        r@ == frame_bytes(
            Opcode::Get.spec_code(),
            Space::Snes.spec_code(),
            Flags::Noresp.spec_bits(),
            address,
            size,
        ),
{
    encode_command(Opcode::Get, Space::Snes, Flags::Noresp, address, size)
}

/// Reads the big-endian `u32` at `at` in `buf`.
pub fn decode_u32_be(buf: &[u8], at: usize) -> (r: u32)
    requires
        at + 4 <= buf@.len(),
    ensures
        r as int == be_value(buf@.subrange(at as int, at + 4)),
{
    let b0 = buf[at];
    let b1 = buf[at + 1];
    let b2 = buf[at + 2];
    let b3 = buf[at + 3];
    let r = ((b0 as u32) << 24u32) | ((b1 as u32) << 16u32) | ((b2 as u32) << 8u32) | (b3 as u32);
    assert(r == (b0 as u32) * 0x1000000 + (b1 as u32) * 0x10000 + (b2 as u32) * 0x100 + (b3 as u32))
        by (bit_vector)
        requires
            r == ((b0 as u32) << 24u32) | ((b1 as u32) << 16u32) | ((b2 as u32) << 8u32) | (b3 as u32),
    ;
    r
}

/// Reads the size field of a command frame.
pub fn frame_size_field(frame: &[u8]) -> (r: u32)
    requires
        frame@.len() == FRAME_SIZE,
    ensures
        r as int == be_value(frame@.subrange(SIZE_OFFSET as int, SIZE_OFFSET + 4)),
{
    decode_u32_be(frame, SIZE_OFFSET)
}

/// Reads the address field of a command frame.
pub fn frame_address_field(frame: &[u8]) -> (r: u32)
    requires
        frame@.len() == FRAME_SIZE,
    ensures
        r as int == be_value(frame@.subrange(ADDRESS_OFFSET as int, ADDRESS_OFFSET + 4)),
{
    decode_u32_be(frame, ADDRESS_OFFSET)
}

/// The four big-endian bytes of a number read back give the number.
pub proof fn lemma_be_round_trip(x: u32)
    ensures
        be_value(be_bytes(x)) == x as int,
{
    let b0 = ((x >> 24u32) & 0xffu32) as u8;
    let b1 = ((x >> 16u32) & 0xffu32) as u8;
    let b2 = ((x >> 8u32) & 0xffu32) as u8;
    let b3 = (x & 0xffu32) as u8;
    assert((b0 as u32) * 0x1000000 + (b1 as u32) * 0x10000 + (b2 as u32) * 0x100 + (b3 as u32) == x)
        by (bit_vector)
        requires
            b0 == ((x >> 24u32) & 0xffu32) as u8,
            b1 == ((x >> 16u32) & 0xffu32) as u8,
            b2 == ((x >> 8u32) & 0xffu32) as u8,
            b3 == (x & 0xffu32) as u8,
    ;
}

/// Decoding the size and address fields of an encoded frame gives back the
/// size and address it was encoded from, for every `u32`.
pub proof fn lemma_frame_fields_round_trip(opcode: u8, space: u8, flags: u8, address: u32, size: u32)
    ensures
        be_value(frame_bytes(opcode, space, flags, address, size).subrange(SIZE_OFFSET as int, SIZE_OFFSET + 4))
            == size as int,
        be_value(frame_bytes(opcode, space, flags, address, size).subrange(ADDRESS_OFFSET as int, ADDRESS_OFFSET + 4))
            == address as int,
{
    let f = frame_bytes(opcode, space, flags, address, size);
    assert(f.subrange(SIZE_OFFSET as int, SIZE_OFFSET + 4) =~= be_bytes(size));
    assert(f.subrange(ADDRESS_OFFSET as int, ADDRESS_OFFSET + 4) =~= be_bytes(address));
    lemma_be_round_trip(size);
    lemma_be_round_trip(address);
}

} // verus!

//! The instruction set: what a 16-bit word means.
//!
//! A word is read as four nibbles. [`Instruction::encoding`] gives the word
//! of each instruction; [`decode`] is its inverse, and answers `None` on
//! every word that is the encoding of no instruction.

use vstd::prelude::*;

verus! {

/// One decoded instruction. `x` and `y` name registers, `n` is a nibble,
/// `nn` a byte and `addr` a 12-bit address.
#[derive(Clone, Copy, Debug, PartialEq, Eq, Structural)]
pub enum Instruction {
    /// `00E0`: switch every pixel off.
    ClearScreen,
    /// `00EE`: return from a subroutine.
    Return,
    /// `1NNN`: jump to `addr`.
    Jump { addr: u16 },
    /// `2NNN`: call the subroutine at `addr`.
    Call { addr: u16 },
    /// `3XNN`: skip the next instruction if `V[x] == nn`.
    SkipEqImm { x: u8, nn: u8 },
    /// `4XNN`: skip the next instruction if `V[x] != nn`.
    SkipNeImm { x: u8, nn: u8 },
    /// `5XY0`: skip the next instruction if `V[x] == V[y]`.
    SkipEqReg { x: u8, y: u8 },
    /// `6XNN`: `V[x] = nn`.
    LoadImm { x: u8, nn: u8 },
    /// `7XNN`: `V[x] += nn`, wrapping, flag untouched.
    AddImm { x: u8, nn: u8 },
    /// `8XY0`: `V[x] = V[y]`.
    LoadReg { x: u8, y: u8 },
    /// `8XY1`: `V[x] |= V[y]`.
    Or { x: u8, y: u8 },
    /// `8XY2`: `V[x] &= V[y]`.
    And { x: u8, y: u8 },
    /// `8XY3`: `V[x] ^= V[y]`.
    Xor { x: u8, y: u8 },
    /// `8XY4`: `V[x] += V[y]`, flag = carry.
    AddReg { x: u8, y: u8 },
    /// `8XY5`: `V[x] -= V[y]`, flag = no borrow.
    SubReg { x: u8, y: u8 },
    /// `8XY6`: `V[x] >>= 1`, flag = the bit shifted out. `y` is decoded but
    /// not read.
    ShiftRight { x: u8, y: u8 },
    /// `8XY7`: `V[x] = V[y] - V[x]`, flag = no borrow.
    SubFrom { x: u8, y: u8 },
    /// `8XYE`: `V[x] <<= 1`, flag = the bit shifted out. `y` is decoded but
    /// not read.
    ShiftLeft { x: u8, y: u8 },
    /// `9XY0`: skip the next instruction if `V[x] != V[y]`.
    SkipNeReg { x: u8, y: u8 },
    /// `ANNN`: `I = addr`.
    LoadIndex { addr: u16 },
    /// `BNNN`: jump to `addr + V[0]`.
    JumpOffset { addr: u16 },
    /// `CXNN`: `V[x] = random & nn`.
    Random { x: u8, nn: u8 },
    /// `DXYN`: draw the `n`-row sprite at `I` at `(V[x], V[y])`, flag =
    /// collision.
    Draw { x: u8, y: u8, n: u8 },
    /// `EX9E`: skip the next instruction if key `V[x]` is down.
    SkipIfKey { x: u8 },
    /// `EXA1`: skip the next instruction if key `V[x]` is up.
    SkipIfNotKey { x: u8 },
    /// `FX07`: `V[x] = delay timer`.
    LoadDelay { x: u8 },
    /// `FX0A`: store the index of the lowest key that is down in `V[x]`, or
    /// wait on this instruction until a key is down.
    WaitKey { x: u8 },
    /// `FX15`: `delay timer = V[x]`.
    SetDelay { x: u8 },
    /// `FX18`: `sound timer = V[x]`.
    SetSound { x: u8 },
    /// `FX1E`: `I += V[x]`, wrapping at sixteen bits, flag untouched.
    AddIndex { x: u8 },
    /// `FX29`: `I = V[x] * GLYPH_SIZE`, the address of the glyph for `V[x]`.
    FontAddress { x: u8 },
    /// `FX33`: store the three decimal digits of `V[x]` at `I`.
    StoreBcd { x: u8 },
    /// `FX55`: store `V[0]..=V[x]` at `I`.
    DumpRegisters { x: u8 },
    /// `FX65`: load `V[0]..=V[x]` from `I`.
    LoadRegisters { x: u8 },
}

/// The word with leading nibble `op` and the 12-bit address `addr`.
pub open spec fn word_addr(op: int, addr: int) -> int {
    op * 0x1000 + addr
}

/// The word with leading nibble `op`, register nibble `x` and byte `nn`.
pub open spec fn word_byte(op: int, x: int, nn: int) -> int {
    op * 0x1000 + x * 0x100 + nn
}

/// The word made of the four nibbles `op`, `x`, `y`, `n`.
pub open spec fn word_nibbles(op: int, x: int, y: int, n: int) -> int {
    op * 0x1000 + x * 0x100 + y * 0x10 + n
}

impl Instruction {
    /// Every field fits the bits that the encoding gives it.
    pub open spec fn wf(self) -> bool {
        match self {
            Instruction::ClearScreen | Instruction::Return => true,
            Instruction::Jump { addr }
            | Instruction::Call { addr }
            | Instruction::LoadIndex { addr }
            | Instruction::JumpOffset { addr } => addr < 0x1000,
            Instruction::SkipEqImm { x, .. }
            | Instruction::SkipNeImm { x, .. }
            | Instruction::LoadImm { x, .. }
            | Instruction::AddImm { x, .. }
            | Instruction::Random { x, .. } => x < 16,
            Instruction::SkipEqReg { x, y }
            | Instruction::LoadReg { x, y }
            | Instruction::Or { x, y }
            | Instruction::And { x, y }
            | Instruction::Xor { x, y }
            | Instruction::AddReg { x, y }
            | Instruction::SubReg { x, y }
            | Instruction::ShiftRight { x, y }
            | Instruction::SubFrom { x, y }
            | Instruction::ShiftLeft { x, y }
            | Instruction::SkipNeReg { x, y } => x < 16 && y < 16,
            Instruction::Draw { x, y, n } => x < 16 && y < 16 && n < 16,
            Instruction::SkipIfKey { x }
            | Instruction::SkipIfNotKey { x }
            | Instruction::LoadDelay { x }
            | Instruction::WaitKey { x }
            | Instruction::SetDelay { x }
            | Instruction::SetSound { x }
            | Instruction::AddIndex { x }
            | Instruction::FontAddress { x }
            | Instruction::StoreBcd { x }
            | Instruction::DumpRegisters { x }
            | Instruction::LoadRegisters { x } => x < 16,
        }
    }

    /// The 16-bit word that stands for this instruction.
    pub open spec fn encoding(self) -> int {
        match self {
            Instruction::ClearScreen => 0x00E0,
            Instruction::Return => 0x00EE,
            Instruction::Jump { addr } => word_addr(0x1, addr as int),
            Instruction::Call { addr } => word_addr(0x2, addr as int),
            Instruction::SkipEqImm { x, nn } => word_byte(0x3, x as int, nn as int),
            Instruction::SkipNeImm { x, nn } => word_byte(0x4, x as int, nn as int),
            Instruction::SkipEqReg { x, y } => word_nibbles(0x5, x as int, y as int, 0x0),
            Instruction::LoadImm { x, nn } => word_byte(0x6, x as int, nn as int),
            Instruction::AddImm { x, nn } => word_byte(0x7, x as int, nn as int),
            Instruction::LoadReg { x, y } => word_nibbles(0x8, x as int, y as int, 0x0),
            Instruction::Or { x, y } => word_nibbles(0x8, x as int, y as int, 0x1),
            Instruction::And { x, y } => word_nibbles(0x8, x as int, y as int, 0x2),
            Instruction::Xor { x, y } => word_nibbles(0x8, x as int, y as int, 0x3),
            Instruction::AddReg { x, y } => word_nibbles(0x8, x as int, y as int, 0x4),
            Instruction::SubReg { x, y } => word_nibbles(0x8, x as int, y as int, 0x5),
            Instruction::ShiftRight { x, y } => word_nibbles(0x8, x as int, y as int, 0x6),
            Instruction::SubFrom { x, y } => word_nibbles(0x8, x as int, y as int, 0x7),
            Instruction::ShiftLeft { x, y } => word_nibbles(0x8, x as int, y as int, 0xE),
            Instruction::SkipNeReg { x, y } => word_nibbles(0x9, x as int, y as int, 0x0),
            Instruction::LoadIndex { addr } => word_addr(0xA, addr as int),
            Instruction::JumpOffset { addr } => word_addr(0xB, addr as int),
            Instruction::Random { x, nn } => word_byte(0xC, x as int, nn as int),
            Instruction::Draw { x, y, n } => word_nibbles(0xD, x as int, y as int, n as int),
            Instruction::SkipIfKey { x } => word_byte(0xE, x as int, 0x9E),
            Instruction::SkipIfNotKey { x } => word_byte(0xE, x as int, 0xA1),
            Instruction::LoadDelay { x } => word_byte(0xF, x as int, 0x07),
            Instruction::WaitKey { x } => word_byte(0xF, x as int, 0x0A),
            Instruction::SetDelay { x } => word_byte(0xF, x as int, 0x15),
            Instruction::SetSound { x } => word_byte(0xF, x as int, 0x18),
            Instruction::AddIndex { x } => word_byte(0xF, x as int, 0x1E),
            Instruction::FontAddress { x } => word_byte(0xF, x as int, 0x29),
            Instruction::StoreBcd { x } => word_byte(0xF, x as int, 0x33),
            Instruction::DumpRegisters { x } => word_byte(0xF, x as int, 0x55),
            Instruction::LoadRegisters { x } => word_byte(0xF, x as int, 0x65),
        }
    }
}

/// The instruction that `word` stands for, if any. Patterns are tried from
/// the most specific to the least: whole words, then leading nibble with low
/// byte or low nibble, then the leading nibble alone.
pub open spec fn decode_spec(word: u16) -> Option<Instruction> {
    let op = word / 0x1000;
    let x = ((word / 0x100) % 0x10) as u8;
    let y = ((word / 0x10) % 0x10) as u8;
    let n = (word % 0x10) as u8;
    let nn = (word % 0x100) as u8;
    let addr = (word % 0x1000) as u16;
    if word == 0x00E0 {
        Some(Instruction::ClearScreen)
    } else if word == 0x00EE {
        Some(Instruction::Return)
    } else if op == 0xE && nn == 0x9E {
        Some(Instruction::SkipIfKey { x })
    } else if op == 0xE && nn == 0xA1 {
        Some(Instruction::SkipIfNotKey { x })
    } else if op == 0xF && nn == 0x07 {
        Some(Instruction::LoadDelay { x })
    } else if op == 0xF && nn == 0x0A {
        Some(Instruction::WaitKey { x })
    } else if op == 0xF && nn == 0x15 {
        Some(Instruction::SetDelay { x })
    } else if op == 0xF && nn == 0x18 {
        Some(Instruction::SetSound { x })
    } else if op == 0xF && nn == 0x1E {
        Some(Instruction::AddIndex { x })
    } else if op == 0xF && nn == 0x29 {
        Some(Instruction::FontAddress { x })
    } else if op == 0xF && nn == 0x33 {
        Some(Instruction::StoreBcd { x })
    } else if op == 0xF && nn == 0x55 {
        Some(Instruction::DumpRegisters { x })
    } else if op == 0xF && nn == 0x65 {
        Some(Instruction::LoadRegisters { x })
    } else if op == 0x5 && n == 0x0 {
        Some(Instruction::SkipEqReg { x, y })
    } else if op == 0x8 && n == 0x0 {
        Some(Instruction::LoadReg { x, y })
    } else if op == 0x8 && n == 0x1 {
        Some(Instruction::Or { x, y })
    } else if op == 0x8 && n == 0x2 {
        Some(Instruction::And { x, y })
    } else if op == 0x8 && n == 0x3 {
        Some(Instruction::Xor { x, y })
    } else if op == 0x8 && n == 0x4 {
        Some(Instruction::AddReg { x, y })
    } else if op == 0x8 && n == 0x5 {
        Some(Instruction::SubReg { x, y })
    } else if op == 0x8 && n == 0x6 {
        Some(Instruction::ShiftRight { x, y })
    } else if op == 0x8 && n == 0x7 {
        Some(Instruction::SubFrom { x, y })
    } else if op == 0x8 && n == 0xE {
        Some(Instruction::ShiftLeft { x, y })
    } else if op == 0x9 && n == 0x0 {
        Some(Instruction::SkipNeReg { x, y })
    } else if op == 0x1 {
        Some(Instruction::Jump { addr })
    } else if op == 0x2 {
        Some(Instruction::Call { addr })
    } else if op == 0x3 {
        Some(Instruction::SkipEqImm { x, nn })
    } else if op == 0x4 {
        Some(Instruction::SkipNeImm { x, nn })
    } else if op == 0x6 {
        Some(Instruction::LoadImm { x, nn })
    } else if op == 0x7 {
        Some(Instruction::AddImm { x, nn })
    } else if op == 0xA {
        Some(Instruction::LoadIndex { addr })
    } else if op == 0xB {
        Some(Instruction::JumpOffset { addr })
    } else if op == 0xC {
        Some(Instruction::Random { x, nn })
    } else if op == 0xD {
        Some(Instruction::Draw { x, y, n })
    } else {
        None
    }
}

/// The four nibbles of `word`, most significant first.
fn nibbles(word: u16) -> (r: (u8, u8, u8, u8))
    ensures
        r.0 == word / 0x1000,
        r.1 == (word / 0x100) % 0x10,
        r.2 == (word / 0x10) % 0x10,
        r.3 == word % 0x10,
{
    assert(word >> 12 == word / 0x1000 && (word >> 8) & 0xF == (word / 0x100) % 0x10 && (word >> 4)
        & 0xF == (word / 0x10) % 0x10 && word & 0xF == word % 0x10) by (bit_vector);
    ((word >> 12) as u8, ((word >> 8) & 0xF) as u8, ((word >> 4) & 0xF) as u8, (word & 0xF) as u8)
}

/// Decodes one instruction word.
pub fn decode(word: u16) -> (r: Option<Instruction>)
    ensures
        r == decode_spec(word),
{
    let (op, x, y, n) = nibbles(word);
    assert(word & 0xFF == word % 0x100 && word & 0xFFF == word % 0x1000) by (bit_vector);
    let nn: u8 = (word & 0xFF) as u8;
    let addr: u16 = word & 0xFFF;
    match (op, x, y, n) {
        (0x0, 0x0, 0xE, 0x0) => Some(Instruction::ClearScreen),
        (0x0, 0x0, 0xE, 0xE) => Some(Instruction::Return),
        (0xE, _, 0x9, 0xE) => Some(Instruction::SkipIfKey { x }),
        (0xE, _, 0xA, 0x1) => Some(Instruction::SkipIfNotKey { x }),
        (0xF, _, 0x0, 0x7) => Some(Instruction::LoadDelay { x }),
        (0xF, _, 0x0, 0xA) => Some(Instruction::WaitKey { x }),
        (0xF, _, 0x1, 0x5) => Some(Instruction::SetDelay { x }),
        (0xF, _, 0x1, 0x8) => Some(Instruction::SetSound { x }),
        (0xF, _, 0x1, 0xE) => Some(Instruction::AddIndex { x }),
        (0xF, _, 0x2, 0x9) => Some(Instruction::FontAddress { x }),
        (0xF, _, 0x3, 0x3) => Some(Instruction::StoreBcd { x }),
        (0xF, _, 0x5, 0x5) => Some(Instruction::DumpRegisters { x }),
        (0xF, _, 0x6, 0x5) => Some(Instruction::LoadRegisters { x }),
        (0x5, _, _, 0x0) => Some(Instruction::SkipEqReg { x, y }),
        (0x8, _, _, 0x0) => Some(Instruction::LoadReg { x, y }),
        (0x8, _, _, 0x1) => Some(Instruction::Or { x, y }),
        (0x8, _, _, 0x2) => Some(Instruction::And { x, y }),
        (0x8, _, _, 0x3) => Some(Instruction::Xor { x, y }),
        (0x8, _, _, 0x4) => Some(Instruction::AddReg { x, y }),
        (0x8, _, _, 0x5) => Some(Instruction::SubReg { x, y }),
        (0x8, _, _, 0x6) => Some(Instruction::ShiftRight { x, y }),
        (0x8, _, _, 0x7) => Some(Instruction::SubFrom { x, y }),
        (0x8, _, _, 0xE) => Some(Instruction::ShiftLeft { x, y }),
        (0x9, _, _, 0x0) => Some(Instruction::SkipNeReg { x, y }),
        (0x1, _, _, _) => Some(Instruction::Jump { addr }),
        (0x2, _, _, _) => Some(Instruction::Call { addr }),
        (0x3, _, _, _) => Some(Instruction::SkipEqImm { x, nn }),
        (0x4, _, _, _) => Some(Instruction::SkipNeImm { x, nn }),
        (0x6, _, _, _) => Some(Instruction::LoadImm { x, nn }),
        (0x7, _, _, _) => Some(Instruction::AddImm { x, nn }),
        (0xA, _, _, _) => Some(Instruction::LoadIndex { addr }),
        (0xB, _, _, _) => Some(Instruction::JumpOffset { addr }),
        (0xC, _, _, _) => Some(Instruction::Random { x, nn }),
        (0xD, _, _, _) => Some(Instruction::Draw { x, y, n }),
        _ => None,
    }
}

/// The nibbles of a word put together from nibbles are those nibbles.
proof fn lemma_nibbles_of_word(op: int, x: int, y: int, n: int)
    requires
        0 <= op < 16,
        0 <= x < 16,
        0 <= y < 16,
        0 <= n < 16,
    ensures
        ({
            let w = word_nibbles(op, x, y, n);
            &&& 0 <= w <= u16::MAX
            &&& w / 0x1000 == op
            &&& (w / 0x100) % 0x10 == x
            &&& (w / 0x10) % 0x10 == y
            &&& w % 0x10 == n
            &&& w % 0x100 == y * 0x10 + n
            &&& w % 0x1000 == x * 0x100 + y * 0x10 + n
        }),
{
    let (a, b, c, d) = (op as u32, x as u32, y as u32, n as u32);
    assert(a < 16 && b < 16 && c < 16 && d < 16 ==> ({
        let w = a * 0x1000 + b * 0x100 + c * 0x10 + d;
        &&& w <= 0xFFFF
        &&& w / 0x1000 == a
        &&& (w / 0x100) % 0x10 == b
        &&& (w / 0x10) % 0x10 == c
        &&& w % 0x10 == d
        &&& w % 0x100 == c * 0x10 + d
        &&& w % 0x1000 == b * 0x100 + c * 0x10 + d
    })) by (bit_vector);
}

/// A word is put together from its own nibbles.
proof fn lemma_word_of_nibbles(word: u16)
    ensures
        ({
            let op = word / 0x1000;
            let x = (word / 0x100) % 0x10;
            let y = (word / 0x10) % 0x10;
            let n = word % 0x10;
            &&& word == word_nibbles(op as int, x as int, y as int, n as int)
            &&& word == word_byte(op as int, x as int, (word % 0x100) as int)
            &&& word == word_addr(op as int, (word % 0x1000) as int)
            &&& op < 16
        }),
{
    assert({
        let op = word / 0x1000;
        let x = (word / 0x100) % 0x10;
        let y = (word / 0x10) % 0x10;
        let n = word % 0x10;
        &&& word == op * 0x1000 + x * 0x100 + y * 0x10 + n
        &&& word == op * 0x1000 + x * 0x100 + word % 0x100
        &&& word == op * 0x1000 + word % 0x1000
        &&& op < 16
    }) by (bit_vector);
}

/// Decoding inverts encoding: the word of a well-formed instruction decodes
/// to that instruction.
pub proof fn lemma_decode_encoding(ins: Instruction)
    requires
        ins.wf(),
    ensures
        0 <= ins.encoding() <= u16::MAX,
        decode_spec(ins.encoding() as u16) == Some(ins),
{
    match ins {
        Instruction::ClearScreen | Instruction::Return => {},
        Instruction::Jump { addr }
        | Instruction::Call { addr }
        | Instruction::LoadIndex { addr }
        | Instruction::JumpOffset { addr } => {
            let a = addr as int;
            lemma_nibbles_of_word(ins.encoding() / 0x1000, a / 0x100, (a / 0x10) % 0x10, a % 0x10);
        },
        Instruction::SkipEqImm { x, nn }
        | Instruction::SkipNeImm { x, nn }
        | Instruction::LoadImm { x, nn }
        | Instruction::AddImm { x, nn }
        | Instruction::Random { x, nn } => {
            lemma_nibbles_of_word(ins.encoding() / 0x1000, x as int, nn as int / 0x10, nn as int % 0x10);
        },
        Instruction::SkipEqReg { x, y }
        | Instruction::LoadReg { x, y }
        | Instruction::Or { x, y }
        | Instruction::And { x, y }
        | Instruction::Xor { x, y }
        | Instruction::AddReg { x, y }
        | Instruction::SubReg { x, y }
        | Instruction::ShiftRight { x, y }
        | Instruction::SubFrom { x, y }
        | Instruction::ShiftLeft { x, y }
        | Instruction::SkipNeReg { x, y } => {
            lemma_nibbles_of_word(ins.encoding() / 0x1000, x as int, y as int, ins.encoding() % 0x10);
        },
        Instruction::Draw { x, y, n } => {
            lemma_nibbles_of_word(0xD, x as int, y as int, n as int);
        },
        Instruction::SkipIfKey { x }
        | Instruction::SkipIfNotKey { x }
        | Instruction::LoadDelay { x }
        | Instruction::WaitKey { x }
        | Instruction::SetDelay { x }
        | Instruction::SetSound { x }
        | Instruction::AddIndex { x }
        | Instruction::FontAddress { x }
        | Instruction::StoreBcd { x }
        | Instruction::DumpRegisters { x }
        | Instruction::LoadRegisters { x } => {
            let w = ins.encoding();
            lemma_nibbles_of_word(w / 0x1000, x as int, (w / 0x10) % 0x10, w % 0x10);
        },
    }
}

/// Encoding inverts decoding: whatever a word decodes to is well formed and
/// has that word as its encoding.
pub proof fn lemma_encoding_decode(word: u16)
    ensures
        decode_spec(word) matches Some(ins) ==> ins.wf() && ins.encoding() == word,
{
    lemma_word_of_nibbles(word);
}

/// A word decodes to nothing exactly when no well-formed instruction has it
/// as its encoding.
pub proof fn lemma_unknown_word(word: u16)
    ensures
        decode_spec(word) is None <==> forall|ins: Instruction|
            ins.wf() ==> #[trigger] ins.encoding() != word,
{
    lemma_encoding_decode(word);
    assert forall|ins: Instruction| decode_spec(word) is None && ins.wf() implies #[trigger]
        ins.encoding() != word by {
        lemma_decode_encoding(ins);
    }
}

/// Two well-formed instructions with the same encoding are the same.
pub proof fn lemma_encoding_injective(a: Instruction, b: Instruction)
    requires
        a.wf(),
        b.wf(),
        a.encoding() == b.encoding(),
    ensures
        a == b,
{
    lemma_decode_encoding(a);
    lemma_decode_encoding(b);
}

} // verus!

use vstd::prelude::*;

verus! {

/// A decoded instruction of the supported subset.
#[derive(Clone, Copy, Debug, PartialEq, Eq, Structural)]
pub enum Instruction {
    /// `00E0`: turn every pixel off.
    ClearScreen,
    /// `1NNN`: continue execution at `NNN`.
    Jump { address: u16 },
    /// `6XNN`: `VX = NN`.
    SetRegister { x: u8, value: u8 },
    /// `7XNN`: `VX = VX + NN`, wrapping.
    AddRegister { x: u8, value: u8 },
    /// `ANNN`: `I = NNN`.
    SetAddress { address: u16 },
    /// `DXYN`: draw an `N`-row sprite from `I` at `(VX, VY)`.
    DrawSprite { x: u8, y: u8, rows: u8 },
}

/// Bits 15..12 of a word.
pub open spec fn category(op: u16) -> int {
    op as int / 4096
}

/// Bits 11..8 of a word: the `X` register index.
pub open spec fn field_x(op: u16) -> int {
    (op as int / 256) % 16
}

/// Bits 7..4 of a word: the `Y` register index.
pub open spec fn field_y(op: u16) -> int {
    (op as int / 16) % 16
}

/// Bits 3..0 of a word.
pub open spec fn field_n(op: u16) -> int {
    op as int % 16
}

/// Bits 7..0 of a word.
pub open spec fn field_nn(op: u16) -> int {
    op as int % 256
}

/// Bits 11..0 of a word.
pub open spec fn field_nnn(op: u16) -> int {
    op as int % 4096
}

/// The instruction a word stands for, or `None` for a word outside the supported subset.
pub open spec fn spec_decode(op: u16) -> Option<Instruction> {
    if op == 0x00E0 {
        Some(Instruction::ClearScreen)
    } else if category(op) == 0x1 {
        Some(Instruction::Jump { address: field_nnn(op) as u16 })
    } else if category(op) == 0x6 {
        Some(Instruction::SetRegister { x: field_x(op) as u8, value: field_nn(op) as u8 })
    } else if category(op) == 0x7 {
        Some(Instruction::AddRegister { x: field_x(op) as u8, value: field_nn(op) as u8 })
    } else if category(op) == 0xA {
        Some(Instruction::SetAddress { address: field_nnn(op) as u16 })
    } else if category(op) == 0xD {
        Some(
            Instruction::DrawSprite {
                x: field_x(op) as u8,
                y: field_y(op) as u8,
                rows: field_n(op) as u8,
            },
        )
    } else {
        None
    }
}

/// Decoding routes each word to exactly one instruction kind, by its template: `00E0`
/// alone to clear-screen, and each word of high nibble 1, 6, 7, A or D to the matching
/// kind with the operand fields taken from the word. Every other word is unsupported.
pub proof fn lemma_decode_routing(op: u16)
    ensures
        spec_decode(op) == Some(Instruction::ClearScreen) <==> op == 0x00E0,
        spec_decode(op) == Some(Instruction::Jump { address: field_nnn(op) as u16 }) <==> category(
            op,
        ) == 0x1,
        spec_decode(op) == Some(
            Instruction::SetRegister { x: field_x(op) as u8, value: field_nn(op) as u8 },
        ) <==> category(op) == 0x6,
        spec_decode(op) == Some(
            Instruction::AddRegister { x: field_x(op) as u8, value: field_nn(op) as u8 },
        ) <==> category(op) == 0x7,
        spec_decode(op) == Some(Instruction::SetAddress { address: field_nnn(op) as u16 })
            <==> category(op) == 0xA,
        spec_decode(op) == Some(
            Instruction::DrawSprite {
                x: field_x(op) as u8,
                y: field_y(op) as u8,
                rows: field_n(op) as u8,
            },
        ) <==> category(op) == 0xD,
        spec_decode(op) is None <==> (op != 0x00E0 && category(op) != 0x1 && category(op) != 0x6
            && category(op) != 0x7 && category(op) != 0xA && category(op) != 0xD),
{
}

/// Splits a word into its high nibble and its operand fields, masking before shifting.
pub(crate) fn fields(op: u16) -> (r: (u16, u8, u8, u8, u8, u16))
    ensures
        r.0 as int == category(op),
        r.1 as int == field_x(op),
        r.2 as int == field_y(op),
        r.3 as int == field_n(op),
        r.4 as int == field_nn(op),
        r.5 as int == field_nnn(op),
{
    let hi: u16 = (op & 0xF000) >> 12;
    let x: u16 = (op & 0x0F00) >> 8;
    let y: u16 = (op & 0x00F0) >> 4;
    let n: u16 = op & 0x000F;
    let nn: u16 = op & 0x00FF;
    let nnn: u16 = op & 0x0FFF;
    assert(hi == op / 4096) by (bit_vector)
        requires
            hi == (op & 0xF000) >> 12,
    ;
    assert(x == (op / 256) % 16) by (bit_vector)
        requires
            x == (op & 0x0F00) >> 8,
    ;
    assert(y == (op / 16) % 16) by (bit_vector)
        requires
            y == (op & 0x00F0) >> 4,
    ;
    assert(n == op % 16) by (bit_vector)
        requires
            n == op & 0x000F,
    ;
    assert(nn == op % 256) by (bit_vector)
        requires
            nn == op & 0x00FF,
    ;
    assert(nnn == op % 4096) by (bit_vector)
        requires
            nnn == op & 0x0FFF,
    ;
    (hi, x as u8, y as u8, n as u8, nn as u8, nnn)
}

/// Classifies a word by its high nibble (and, for `00E0`, the whole word).
pub fn decode(op: u16) -> (r: Option<Instruction>)
    ensures
        r == spec_decode(op),
{
    let (hi, x, y, n, nn, nnn) = fields(op);
    if op == 0x00E0 {
        Some(Instruction::ClearScreen)
    } else if hi == 0x1 {
        Some(Instruction::Jump { address: nnn })
    } else if hi == 0x6 {
        Some(Instruction::SetRegister { x, value: nn })
    } else if hi == 0x7 {
        Some(Instruction::AddRegister { x, value: nn })
    } else if hi == 0xA {
        Some(Instruction::SetAddress { address: nnn })
    } else if hi == 0xD {
        Some(Instruction::DrawSprite { x, y, rows: n })
    } else {
        None
    }
}

} // verus!

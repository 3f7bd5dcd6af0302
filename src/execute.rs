use vstd::prelude::*;
use crate::display::{on_grid, Display, HEIGHT, WIDTH};
use crate::machine::{Error, State, FLAG_REGISTER, MEMORY_SIZE};
use crate::machine::{after_fetch, can_fetch, fetch_opcode, word_at};
use crate::opcode::{
    category, decode, fields, field_n, field_nn, field_nnn, field_x, field_y, spec_decode, Instruction,
};

verus! {

/// The state after `1NNN`: the program counter is `NNN`.
pub open spec fn after_jump(s: State, op: u16) -> State {
    State { program_counter: field_nnn(op) as u16, ..s }
}

/// The state after `ANNN`: the address register is `NNN`.
pub open spec fn after_set_address(s: State, op: u16) -> State {
    State { address_register: field_nnn(op) as u16, ..s }
}

/// `s2` is `s` with register `x` replaced by `v`.
pub open spec fn register_set(s: State, s2: State, x: int, v: u8) -> bool {
    &&& s2.registers@ == s.registers@.update(x, v)
    &&& s2.memory == s.memory
    &&& s2.program_counter == s.program_counter
    &&& s2.address_register == s.address_register
}

/// The value `7XNN` leaves in `VX`: the sum modulo 256.
pub open spec fn add_value(s: State, op: u16) -> u8 {
    ((s.registers@[field_x(op)] as int + field_nn(op)) % 256) as u8
}

/// Bit `7 - col` of `byte`: the sprite pixel in column `col` of a row.
pub open spec fn sprite_bit(byte: u8, col: int) -> bool {
    (byte >> ((7 - col) as u8)) & 1u8 == 1u8
}

/// Column of the sprite origin for `DXYN`: `VX` modulo the grid width.
pub open spec fn origin_x(s: State, op: u16) -> int {
    s.registers@[field_x(op)] as int % 64
}

/// Row of the sprite origin for `DXYN`: `VY` modulo the grid height.
pub open spec fn origin_y(s: State, op: u16) -> int {
    s.registers@[field_y(op)] as int % 32
}

/// Whether the `N` sprite rows that `DXYN` reads from the address register lie in memory.
pub open spec fn sprite_in_memory(s: State, op: u16) -> bool {
    s.address_register as int + field_n(op) <= 4096
}

/// Whether the sprite of `DXYN` has a set bit over pixel `(x, y)`.
pub open spec fn covers(s: State, op: u16, x: int, y: int) -> bool {
    let x0 = origin_x(s, op);
    let y0 = origin_y(s, op);
    &&& x0 <= x < x0 + 8
    &&& y0 <= y < y0 + field_n(op)
    &&& sprite_bit(s.memory@[s.address_register as int + (y - y0)], x - x0)
}

/// Whether `DXYN` turns off a pixel of `d` that was lit.
pub open spec fn collides(s: State, d: Display, op: u16) -> bool {
    exists|x: int, y: int| on_grid(x, y) && #[trigger] covers(s, op, x, y) && d.lit(x, y)
}

/// `d2` is `d` with every pixel under a set sprite bit flipped; pixels off the grid are clipped.
pub open spec fn sprite_drawn(s: State, d: Display, op: u16, d2: Display) -> bool {
    forall|x: int, y: int|
        on_grid(x, y) ==> #[trigger] d2.lit(x, y) == (d.lit(x, y) != covers(s, op, x, y))
}

/// The outcome of `DXYN` on `s` and `d`.
pub open spec fn draw_outcome(
    s: State,
    d: Display,
    op: u16,
    s2: State,
    d2: Display,
    r: Result<(), Error>,
) -> bool {
    if sprite_in_memory(s, op) {
        &&& r is Ok
        &&& sprite_drawn(s, d, op, d2)
        &&& register_set(
            s,
            s2,
            FLAG_REGISTER as int,
            if collides(s, d, op) {
                1u8
            } else {
                0u8
            },
        )
    } else {
        &&& r == Err::<(), Error>(
            Error::SpriteOutOfBounds { address: s.address_register, rows: field_n(op) as u8 },
        )
        &&& s2 == s
        &&& d2 == d
    }
}

/// The outcome of executing word `op` on `s` and `d`, as its decoded instruction prescribes.
pub open spec fn execution(
    op: u16,
    s: State,
    d: Display,
    s2: State,
    d2: Display,
    r: Result<(), Error>,
) -> bool {
    match spec_decode(op) {
        None => {
            &&& r == Err::<(), Error>(
                Error::UnimplementedOpcode { opcode: op, program_counter: s.program_counter },
            )
            &&& s2 == s
            &&& d2 == d
        },
        Some(Instruction::ClearScreen) => r is Ok && s2 == s && d2.is_blank(),
        Some(Instruction::Jump { .. }) => r is Ok && s2 == after_jump(s, op) && d2 == d,
        Some(Instruction::SetRegister { .. }) => {
            &&& r is Ok
            &&& register_set(s, s2, field_x(op), field_nn(op) as u8)
            &&& d2 == d
        },
        Some(Instruction::AddRegister { .. }) => {
            &&& r is Ok
            &&& register_set(s, s2, field_x(op), add_value(s, op))
            &&& d2 == d
        },
        Some(Instruction::SetAddress { .. }) => r is Ok && s2 == after_set_address(s, op) && d2
            == d,
        Some(Instruction::DrawSprite { .. }) => draw_outcome(s, d, op, s2, d2, r),
    }
}

/// Position `(x, y)` comes before `(px, py)` in row-major order.
pub open spec fn before(x: int, y: int, px: int, py: int) -> bool {
    y < py || (y == py && x < px)
}

/// `1NNN`: sets the program counter to `NNN`.
pub fn jump_to(state: &mut State, opcode: u16)
    ensures
        *final(state) == after_jump(*old(state), opcode),
{
    let (_, _, _, _, _, nnn) = fields(opcode);
    state.program_counter = nnn;
}

/// `6XNN`: sets `VX` to `NN`.
pub fn set_vx(state: &mut State, opcode: u16)
    ensures
        register_set(*old(state), *final(state), field_x(opcode), field_nn(opcode) as u8),
{
    let (_, x, _, _, nn, _) = fields(opcode);
    state.registers[x as usize] = nn;
}

/// `7XNN`: adds `NN` to `VX`, wrapping modulo 256. `VF` is left alone.
pub fn add_vx(state: &mut State, opcode: u16)
    ensures
        register_set(*old(state), *final(state), field_x(opcode), add_value(*old(state), opcode)),
{
    let (_, x, _, _, nn, _) = fields(opcode);
    let sum: u8 = state.registers[x as usize].wrapping_add(nn);
    state.registers[x as usize] = sum;
}

/// `ANNN`: sets the address register to `NNN`.
pub fn set_i(state: &mut State, opcode: u16)
    ensures
        *final(state) == after_set_address(*old(state), opcode),
{
    let (_, _, _, _, _, nnn) = fields(opcode);
    state.address_register = nnn;
}

/// `DXYN`: XOR-draws the `N`-row sprite at the address register onto the grid at
/// `(VX mod 64, VY mod 32)`, clipping what falls off the grid. `VF` becomes 1 when a
/// lit pixel is turned off, else 0. Fails, changing nothing, when the sprite rows do not
/// all lie in memory.
pub fn draw_sprite(state: &mut State, display: &mut Display, opcode: u16) -> (r: Result<(), Error>)
    ensures
        draw_outcome(*old(state), *old(display), opcode, *final(state), *final(display), r),
{
    let (_, xi, yi, n, _, _) = fields(opcode);
    let i = state.address_register;
    if i as usize + n as usize > MEMORY_SIZE {
        return Err(Error::SpriteOutOfBounds { address: i, rows: n });
    }
    let x0: usize = (state.registers[xi as usize] % 64) as usize;
    let y0: usize = (state.registers[yi as usize] % 32) as usize;
    let ghost s0 = *state;
    let ghost d0 = *display;
    proof {
        d0.lemma_len();
    }
    let mut collision = false;
    let mut row: usize = 0;
    while row < n as usize && y0 + row < HEIGHT
        invariant
            *state == s0,
            x0 == origin_x(s0, opcode),
            y0 == origin_y(s0, opcode),
            n as int == field_n(opcode),
            i == s0.address_register,
            i as int + n as int <= 4096,
            row <= n,
            display@.len() == 2048,
            forall|x: int, y: int|
                on_grid(x, y) ==> #[trigger] display.lit(x, y) == (d0.lit(x, y) != (covers(
                    s0,
                    opcode,
                    x,
                    y,
                ) && before(x, y, x0 as int, y0 + row))),
            collision == exists|x: int, y: int|
                on_grid(x, y) && #[trigger] covers(s0, opcode, x, y) && before(
                    x,
                    y,
                    x0 as int,
                    y0 + row,
                ) && d0.lit(x, y),
        decreases n - row,
    {
        let byte = state.memory[i as usize + row];
        let py: usize = y0 + row;
        let mut col: usize = 0;
        while col < 8 && x0 + col < WIDTH
            invariant
                *state == s0,
                x0 == origin_x(s0, opcode),
                y0 == origin_y(s0, opcode),
                n as int == field_n(opcode),
                i == s0.address_register,
                i as int + n as int <= 4096,
                row < n,
                py == y0 + row,
                py < 32,
                byte == s0.memory@[i + row],
                col <= 8,
                display@.len() == 2048,
                forall|x: int, y: int|
                    on_grid(x, y) ==> #[trigger] display.lit(x, y) == (d0.lit(x, y) != (covers(
                        s0,
                        opcode,
                        x,
                        y,
                    ) && before(x, y, x0 + col, py as int))),
                collision == exists|x: int, y: int|
                    on_grid(x, y) && #[trigger] covers(s0, opcode, x, y) && before(
                        x,
                        y,
                        x0 + col,
                        py as int,
                    ) && d0.lit(x, y),
            decreases 8 - col,
        {
            let px: usize = x0 + col;
            let ghost c0 = collision;
            let ghost dprev = *display;
            if (byte >> (7 - col as u8)) & 1 == 1 {
                assert(covers(s0, opcode, px as int, py as int));
                let cur = display.read(px, py);
                if cur {
                    collision = true;
                }
                display.write(px, py, !cur);
                assert forall|x: int, y: int| on_grid(x, y) implies #[trigger] display.lit(x, y)
                    == dprev.lit(x, y) != (x == px && y == py) by {}
            } else {
                assert(!covers(s0, opcode, px as int, py as int));
            }
            proof {
                if collision {
                    if !c0 {
                        assert(on_grid(px as int, py as int) && covers(s0, opcode, px as int, py as int)
                            && before(px as int, py as int, x0 + col + 1, py as int) && d0.lit(
                            px as int,
                            py as int,
                        ));
                    } else {
                        let (wx, wy) = choose|x: int, y: int|
                            on_grid(x, y) && #[trigger] covers(s0, opcode, x, y) && before(
                                x,
                                y,
                                x0 + col,
                                py as int,
                            ) && d0.lit(x, y);
                        assert(before(wx, wy, x0 + col + 1, py as int));
                    }
                }
            }
            col += 1;
        }
        row += 1;
    }
    state.registers[FLAG_REGISTER] = if collision {
        1
    } else {
        0
    };
    Ok(())
}

/// Decodes `opcode` and runs its handler. A word outside the supported subset fails,
/// changing nothing.
pub fn execute_opcode(opcode: u16, state: &mut State, display: &mut Display) -> (r: Result<
    (),
    Error,
>)
    ensures
        execution(opcode, *old(state), *old(display), *final(state), *final(display), r),
{
    match decode(opcode) {
        None => Err(
            Error::UnimplementedOpcode { opcode, program_counter: state.program_counter },
        ),
        Some(Instruction::ClearScreen) => {
            display.clear();
            Ok(())
        },
        Some(Instruction::Jump { .. }) => {
            jump_to(state, opcode);
            Ok(())
        },
        Some(Instruction::SetRegister { .. }) => {
            set_vx(state, opcode);
            Ok(())
        },
        Some(Instruction::AddRegister { .. }) => {
            add_vx(state, opcode);
            Ok(())
        },
        Some(Instruction::SetAddress { .. }) => {
            set_i(state, opcode);
            Ok(())
        },
        Some(Instruction::DrawSprite { .. }) => draw_sprite(state, display, opcode),
    }
}

/// One fetch-decode-execute cycle: fetches the word at the program counter, advances the
/// program counter by two and executes the word.
pub fn step(state: &mut State, display: &mut Display) -> (r: Result<(), Error>)
    ensures
        !can_fetch(*old(state)) ==> r == Err::<(), Error>(
            Error::FetchOutOfBounds { program_counter: old(state).program_counter },
        ) && *final(state) == *old(state) && *final(display) == *old(display),
        can_fetch(*old(state)) ==> execution(
            word_at(old(state).memory@, old(state).program_counter as int) as u16,
            after_fetch(*old(state)),
            *old(display),
            *final(state),
            *final(display),
            r,
        ),
{
    match fetch_opcode(state) {
        Err(e) => Err(e),
        Ok(opcode) => execute_opcode(opcode, state, display),
    }
}

/// A jump sets the program counter to `NNN` whatever it held before, and the next fetch
/// reads the word stored at `NNN` (when both of its bytes lie in memory).
pub proof fn lemma_jump_then_fetch(
    op: u16,
    s: State,
    d: Display,
    s2: State,
    d2: Display,
    r: Result<(), Error>,
)
    requires
        category(op) == 0x1,
        execution(op, s, d, s2, d2, r),
    ensures
        r is Ok,
        s2.program_counter == field_nnn(op),
        field_nnn(op) + 1 < 4096 ==> can_fetch(s2) && word_at(s2.memory@, s2.program_counter as int)
            == word_at(s.memory@, field_nnn(op)),
{
}

/// Setting `VX` to `a` and then adding `b` to it leaves `(a + b) mod 256` in `VX`.
pub proof fn lemma_set_then_add(
    op1: u16,
    op2: u16,
    s0: State,
    d0: Display,
    s1: State,
    d1: Display,
    r1: Result<(), Error>,
    s2: State,
    d2: Display,
    r2: Result<(), Error>,
)
    requires
        category(op1) == 0x6,
        category(op2) == 0x7,
        field_x(op1) == field_x(op2),
        execution(op1, s0, d0, s1, d1, r1),
        execution(op2, s1, d1, s2, d2, r2),
    ensures
        r1 is Ok,
        r2 is Ok,
        s2.registers@[field_x(op1)] as int == (field_nn(op1) + field_nn(op2)) % 256,
{
}

/// After clear-screen no pixel of the grid is lit.
pub proof fn lemma_clear_then_read(s: State, d: Display, s2: State, d2: Display, r: Result<(), Error>)
    requires
        execution(0x00E0, s, d, s2, d2, r),
    ensures
        r is Ok,
        forall|x: int, y: int| on_grid(x, y) ==> !#[trigger] d2.lit(x, y),
{
}

/// Drawing the same sprite twice at the same place restores the grid, and the second
/// draw reports a collision exactly when the sprite has a set bit over a pixel that was
/// unlit before the first draw. The sprite's position must not be read from `VF`, which
/// the first draw overwrites.
pub proof fn lemma_draw_twice(
    op: u16,
    s0: State,
    d0: Display,
    s1: State,
    d1: Display,
    r1: Result<(), Error>,
    s2: State,
    d2: Display,
    r2: Result<(), Error>,
)
    requires
        category(op) == 0xD,
        field_x(op) != 0xF,
        field_y(op) != 0xF,
        execution(op, s0, d0, s1, d1, r1),
        execution(op, s1, d1, s2, d2, r2),
    ensures
        d2 == d0,
        sprite_in_memory(s0, op) ==> r2 is Ok && s2.registers@[0xF] == if exists|x: int, y: int|
            on_grid(x, y) && #[trigger] covers(s0, op, x, y) && !d0.lit(x, y) {
            1u8
        } else {
            0u8
        },
{
    if sprite_in_memory(s0, op) {
        assert forall|x: int, y: int| on_grid(x, y) implies #[trigger] covers(s1, op, x, y)
            == covers(s0, op, x, y) by {}
        assert forall|x: int, y: int| on_grid(x, y) implies #[trigger] d2.lit(x, y) == d0.lit(
            x,
            y,
        ) by {
            assert(covers(s1, op, x, y) == covers(s0, op, x, y));
        }
        Display::lemma_same_pixels(d2, d0);
        if collides(s1, d1, op) {
            let (x, y) = choose|x: int, y: int|
                on_grid(x, y) && #[trigger] covers(s1, op, x, y) && d1.lit(x, y);
            assert(covers(s0, op, x, y) && !d0.lit(x, y));
        }
        if exists|x: int, y: int| on_grid(x, y) && #[trigger] covers(s0, op, x, y) && !d0.lit(x, y) {
            let (x, y) = choose|x: int, y: int|
                on_grid(x, y) && #[trigger] covers(s0, op, x, y) && !d0.lit(x, y);
            assert(covers(s1, op, x, y) && d1.lit(x, y));
        }
    }
}

} // verus!

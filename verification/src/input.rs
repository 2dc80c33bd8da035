//! Input types shared by frontends.
use vstd::prelude::*;

verus! {

/// SNES controller state snapshot.
#[derive(Debug, Default, Clone, Copy, PartialEq, Eq, Structural)]
pub struct ControllerState {
    /// B button.
    pub b: bool,
    /// Y button.
    pub y: bool,
    /// Select button.
    pub select: bool,
    /// Start button.
    pub start: bool,
    /// Up direction.
    pub up: bool,
    /// Down direction.
    pub down: bool,
    /// Left direction.
    pub left: bool,
    /// Right direction.
    pub right: bool,
    /// A button.
    pub a: bool,
    /// X button.
    pub x: bool,
    /// L shoulder.
    pub l: bool,
    /// R shoulder.
    pub r: bool,
}

/// 1 when `b` holds, else 0.
#[verifier::opaque]
pub open spec fn flag(b: bool) -> int {
    if b { 1 } else { 0 }
}

/// 1 when `b` holds, else 0, as a machine word.
fn flag_u16(b: bool) -> (r: u16)
    ensures
        r as int == flag(b),
        r <= 1,
{
    reveal(flag);
    if b { 1 } else { 0 }
}

/// Packs twelve one-bit flags, the `i`-th at weight `2^i`.
fn pack_bits(b0: u16, b1: u16, b2: u16, b3: u16, b4: u16, b5: u16, b6: u16, b7: u16,
    b8: u16, b9: u16, b10: u16, b11: u16) -> (r: u16)
    requires
        b0 <= 1, b1 <= 1, b2 <= 1, b3 <= 1, b4 <= 1, b5 <= 1,
        b6 <= 1, b7 <= 1, b8 <= 1, b9 <= 1, b10 <= 1, b11 <= 1,
    ensures
        r as int == b0 + 2 * b1 + 4 * b2 + 8 * b3 + 16 * b4 + 32 * b5 + 64 * b6 + 128 * b7
            + 256 * b8 + 512 * b9 + 1024 * b10 + 2048 * b11,
        r < 4096,
{
    // The flags occupy disjoint bit positions, so the sum is their bitwise union.
    b0 + 2 * b1 + 4 * b2 + 8 * b3 + 16 * b4 + 32 * b5 + 64 * b6 + 128 * b7
        + 256 * b8 + 512 * b9 + 1024 * b10 + 2048 * b11
}

impl ControllerState {
    /// The serial encoding: bit `i` is set exactly when the `i`-th button in SNES order
    /// (B, Y, Select, Start, Up, Down, Left, Right, A, X, L, R) is held.
    pub open spec fn spec_bits(self) -> int {
        flag(self.b) + 2 * flag(self.y) + 4 * flag(self.select) + 8 * flag(self.start)
            + 16 * flag(self.up) + 32 * flag(self.down) + 64 * flag(self.left)
            + 128 * flag(self.right) + 256 * flag(self.a) + 512 * flag(self.x)
            + 1024 * flag(self.l) + 2048 * flag(self.r)
    }

    /// Encode the controller into the standard SNES serial bit order.
    pub fn to_bits(self) -> (bits: u16)
        ensures
            bits as int == self.spec_bits(),
            bits < 4096,
    {
        let b0: u16 = flag_u16(self.b);
        let b1: u16 = flag_u16(self.y);
        let b2: u16 = flag_u16(self.select);
        let b3: u16 = flag_u16(self.start);
        let b4: u16 = flag_u16(self.up);
        let b5: u16 = flag_u16(self.down);
        let b6: u16 = flag_u16(self.left);
        let b7: u16 = flag_u16(self.right);
        let b8: u16 = flag_u16(self.a);
        let b9: u16 = flag_u16(self.x);
        let b10: u16 = flag_u16(self.l);
        let b11: u16 = flag_u16(self.r);
        let bits: u16 = pack_bits(b0, b1, b2, b3, b4, b5, b6, b7, b8, b9, b10, b11);
        bits
    }
}

} // verus!

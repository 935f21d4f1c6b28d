//! The unwind operations of the x64 Windows ABI and their node encodings.

use crate::writer::{le_u16, le_u32, lemma_splice_concat, splice, Writer};
use vstd::prelude::*;

verus! {

/// Largest stack allocation (inclusive) that has the one-node "small" form.
pub const SMALL_ALLOC_MAX_SIZE: u32 = 128;

/// Largest stack allocation (inclusive) whose size divided by 8 fits in 16 bits.
pub const LARGE_ALLOC_16BIT_MAX_SIZE: u32 = 524280;

/// Largest scaled offset of a vector-register save that fits in 16 bits.
pub const SAVE_XMM_16BIT_MAX_SCALED: u32 = 65535;

/// Operation code: push of a non-volatile general-purpose register.
pub const OP_PUSH_NONVOLATILE_REGISTER: u8 = 0;

/// Operation code: large stack allocation (16-bit or 32-bit size field).
pub const OP_LARGE_STACK_ALLOC: u8 = 1;

/// Operation code: small stack allocation (size held in the high nibble).
pub const OP_SMALL_STACK_ALLOC: u8 = 2;

/// Operation code: save of a vector register at a 16-bit scaled offset.
pub const OP_SAVE_XMM128: u8 = 8;

/// Operation code: save of a vector register at a 32-bit scaled offset.
pub const OP_SAVE_XMM128_FAR: u8 = 9;

/// The supported unwind codes for the x64 Windows ABI.
///
/// The register codes follow the Windows general-purpose register numbering.
#[derive(Clone, Copy, Debug, PartialEq, Eq, Structural)]
pub enum UnwindCode {
    PushRegister { offset: u8, reg: u8 },
    SaveXmm { offset: u8, reg: u8, stack_offset: u32 },
    StackAlloc { offset: u8, size: u32 },
}

/// The operation byte of a node: `info` in the high nibble, `op` in the low one.
pub open spec fn op_byte(info: u8, op: u8) -> u8 {
    (info << 4u8) | op
}

impl UnwindCode {
    /// What the encoder needs of a code: a stack allocation is a positive
    /// multiple of 8 bytes.
    pub open spec fn well_formed(self) -> bool {
        match self {
            UnwindCode::StackAlloc { size, .. } => size >= 8 && size % 8 == 0,
            _ => true,
        }
    }

    /// Number of 2-byte nodes that the code occupies.
    pub open spec fn nodes(self) -> nat {
        match self {
            UnwindCode::PushRegister { .. } => 1,
            UnwindCode::SaveXmm { stack_offset, .. } => {
                if stack_offset / 16 <= SAVE_XMM_16BIT_MAX_SCALED {
                    2
                } else {
                    3
                }
            },
            UnwindCode::StackAlloc { size, .. } => {
                if size <= SMALL_ALLOC_MAX_SIZE {
                    1
                } else if size <= LARGE_ALLOC_16BIT_MAX_SIZE {
                    2
                } else {
                    3
                }
            },
        }
    }

    /// The bytes of the code's nodes: the prologue offset, the operation
    /// byte, then the operand fields.
    pub open spec fn encoding(self) -> Seq<u8> {
        match self {
            UnwindCode::PushRegister { offset, reg } => seq![
                offset,
                op_byte(reg, OP_PUSH_NONVOLATILE_REGISTER),
            ],
            UnwindCode::SaveXmm { offset, reg, stack_offset } => {
                let scaled = stack_offset / 16;
                if scaled <= SAVE_XMM_16BIT_MAX_SCALED {
                    seq![offset, op_byte(reg, OP_SAVE_XMM128)] + le_u16(scaled as u16)
                } else {
                    seq![offset, op_byte(reg, OP_SAVE_XMM128_FAR)] + le_u16(scaled as u16)
                        + le_u16((scaled >> 16u32) as u16)
                }
            },
            UnwindCode::StackAlloc { offset, size } => {
                if size <= SMALL_ALLOC_MAX_SIZE {
                    seq![offset, op_byte(((size - 8) / 8) as u8, OP_SMALL_STACK_ALLOC)]
                } else if size <= LARGE_ALLOC_16BIT_MAX_SIZE {
                    seq![offset, OP_LARGE_STACK_ALLOC] + le_u16((size / 8) as u16)
                } else {
                    seq![offset, op_byte(1, OP_LARGE_STACK_ALLOC)] + le_u32(size)
                }
            },
        }
    }

    /// The encoding takes exactly two bytes per node.
    pub proof fn lemma_encoding_len(self)
        ensures
            self.encoding().len() == 2 * self.nodes(),
    {
    }

    /// Number of 2-byte nodes that the code occupies.
    pub fn node_count(&self) -> (r: usize)
        ensures
            r == self.nodes(),
    {
        match self {
            UnwindCode::StackAlloc { size, .. } => {
                if *size <= SMALL_ALLOC_MAX_SIZE {
                    1
                } else if *size <= LARGE_ALLOC_16BIT_MAX_SIZE {
                    2
                } else {
                    3
                }
            },
            UnwindCode::SaveXmm { stack_offset, .. } => {
                if *stack_offset / 16 <= SAVE_XMM_16BIT_MAX_SCALED {
                    2
                } else {
                    3
                }
            },
            UnwindCode::PushRegister { .. } => 1,
        }
    }

    /// Writes the code's nodes at the writer's cursor.
    pub fn emit(&self, writer: &mut Writer)
        requires
            self.well_formed(),
            old(writer).offset + 2 * self.nodes() <= old(writer).buf@.len(),
        ensures
            final(final(writer).buf)@ == final(old(writer).buf)@,
            final(writer).offset == old(writer).offset + 2 * self.nodes(),
            final(writer).buf@ == splice(old(writer).buf@, old(writer).offset as int, self.encoding()),
    {
        let ghost s0 = writer.buf@;
        let ghost at = writer.offset as int;
        match self {
            UnwindCode::PushRegister { offset, reg } => {
                writer.write_u8(*offset);
                writer.write_u8((*reg << 4u8) | OP_PUSH_NONVOLATILE_REGISTER);
                proof {
                    lemma_splice_concat(s0, at, seq![*offset], seq![op_byte(*reg, OP_PUSH_NONVOLATILE_REGISTER)]);
                    assert(seq![*offset] + seq![op_byte(*reg, OP_PUSH_NONVOLATILE_REGISTER)] =~= self.encoding());
                }
            },
            UnwindCode::SaveXmm { offset, reg, stack_offset } => {
                writer.write_u8(*offset);
                let scaled = *stack_offset / 16;
                if scaled <= SAVE_XMM_16BIT_MAX_SCALED {
                    let b = (*reg << 4u8) | OP_SAVE_XMM128;
                    writer.write_u8(b);
                    writer.write_u16(scaled as u16);
                    proof {
                        lemma_splice_concat(s0, at, seq![*offset], seq![b]);
                        lemma_splice_concat(s0, at, seq![*offset] + seq![b], le_u16(scaled as u16));
                        assert(seq![*offset] + seq![b] + le_u16(scaled as u16) =~= self.encoding());
                    }
                } else {
                    let b = (*reg << 4u8) | OP_SAVE_XMM128_FAR;
                    writer.write_u8(b);
                    writer.write_u16(scaled as u16);
                    writer.write_u16((scaled >> 16u32) as u16);
                    proof {
                        let h = seq![*offset] + seq![b];
                        lemma_splice_concat(s0, at, seq![*offset], seq![b]);
                        lemma_splice_concat(s0, at, h, le_u16(scaled as u16));
                        lemma_splice_concat(s0, at, h + le_u16(scaled as u16), le_u16((scaled >> 16u32) as u16));
                        assert(h + le_u16(scaled as u16) + le_u16((scaled >> 16u32) as u16) =~= self.encoding());
                    }
                }
            },
            UnwindCode::StackAlloc { offset, size } => {
                writer.write_u8(*offset);
                if *size <= SMALL_ALLOC_MAX_SIZE {
                    let b = ((((*size - 8) / 8) as u8) << 4u8) | OP_SMALL_STACK_ALLOC;
                    writer.write_u8(b);
                    proof {
                        lemma_splice_concat(s0, at, seq![*offset], seq![b]);
                        assert(seq![*offset] + seq![b] =~= self.encoding());
                    }
                } else if *size <= LARGE_ALLOC_16BIT_MAX_SIZE {
                    writer.write_u8(OP_LARGE_STACK_ALLOC);
                    writer.write_u16((*size / 8) as u16);
                    proof {
                        let h = seq![*offset] + seq![OP_LARGE_STACK_ALLOC];
                        lemma_splice_concat(s0, at, seq![*offset], seq![OP_LARGE_STACK_ALLOC]);
                        lemma_splice_concat(s0, at, h, le_u16((*size / 8) as u16));
                        assert(h + le_u16((*size / 8) as u16) =~= self.encoding());
                    }
                } else {
                    let b = (1u8 << 4u8) | OP_LARGE_STACK_ALLOC;
                    writer.write_u8(b);
                    writer.write_u32(*size);
                    proof {
                        let h = seq![*offset] + seq![b];
                        lemma_splice_concat(s0, at, seq![*offset], seq![b]);
                        lemma_splice_concat(s0, at, h, le_u32(*size));
                        assert(h + le_u32(*size) =~= self.encoding());
                    }
                }
            },
        }
    }
}

/// The little-endian 16-bit value of the two bytes of `b` at `at`.
pub open spec fn read_le16(b: Seq<u8>, at: int) -> int {
    b[at] as int + 256 * b[at + 1] as int
}

/// The little-endian 32-bit value of the four bytes of `b` at `at`.
pub open spec fn read_le32(b: Seq<u8>, at: int) -> int {
    read_le16(b, at) + 65536 * read_le16(b, at + 2)
}

/// Reading back two little-endian bytes gives the value written.
pub proof fn lemma_le_u16_round_trip(v: u16)
    ensures
        read_le16(le_u16(v), 0) == v,
{
    assert((v as u8) as u32 + ((v >> 8u16) as u8) as u32 * 256u32 == v as u32) by (bit_vector);
}

/// Reading back four little-endian bytes gives the value written.
pub proof fn lemma_le_u32_round_trip(v: u32)
    ensures
        read_le32(le_u32(v), 0) == v,
{
    assert((v as u8) as u64 + ((v >> 8u32) as u8) as u64 * 256u64 + ((v >> 16u32) as u8) as u64
        * 65536u64 + ((v >> 24u32) as u8) as u64 * 16777216u64 == v as u64) by (bit_vector);
}

/// A stack allocation of 8 to 128 bytes takes the one-node "small" form: its
/// operation byte holds the small-allocation code in the low nibble and the
/// size in 8-byte units, less one, in the high nibble.
pub proof fn lemma_small_alloc_form(offset: u8, size: u32)
    requires
        8 <= size <= SMALL_ALLOC_MAX_SIZE,
        size % 8 == 0,
    ensures
        ({
            let e = (UnwindCode::StackAlloc { offset, size }).encoding();
            &&& (UnwindCode::StackAlloc { offset, size }).nodes() == 1
            &&& e.len() == 2
            &&& e[0] == offset
            &&& e[1] & 0xfu8 == OP_SMALL_STACK_ALLOC
            &&& e[1] >> 4u8 == (size - 8) / 8
        }),
{
    let units = ((size - 8) / 8) as u8;
    assert(units < 16);
    assert((units << 4u8 | 2u8) & 0xfu8 == 2u8 && (units << 4u8 | 2u8) >> 4u8 == units)
        by (bit_vector)
        requires
            units < 16,
    ;
}

/// A stack allocation of 136 to 524280 bytes takes the two-node "16-bit
/// large" form, whose 16-bit field times 8 is the size.
pub proof fn lemma_large16_alloc_form(offset: u8, size: u32)
    requires
        SMALL_ALLOC_MAX_SIZE < size <= LARGE_ALLOC_16BIT_MAX_SIZE,
        size % 8 == 0,
    ensures
        ({
            let e = (UnwindCode::StackAlloc { offset, size }).encoding();
            &&& (UnwindCode::StackAlloc { offset, size }).nodes() == 2
            &&& e.len() == 4
            &&& e[0] == offset
            &&& e[1] == OP_LARGE_STACK_ALLOC
            &&& read_le16(e, 2) * 8 == size
        }),
{
    let v = (size / 8) as u16;
    lemma_le_u16_round_trip(v);
    let e = (UnwindCode::StackAlloc { offset, size }).encoding();
    assert(e.subrange(2, 4) =~= le_u16(v));
}

/// A stack allocation above 524280 bytes takes the three-node "32-bit large"
/// form, whose 32-bit field is the size.
pub proof fn lemma_large32_alloc_form(offset: u8, size: u32)
    requires
        size > LARGE_ALLOC_16BIT_MAX_SIZE,
    ensures
        ({
            let e = (UnwindCode::StackAlloc { offset, size }).encoding();
            &&& (UnwindCode::StackAlloc { offset, size }).nodes() == 3
            &&& e.len() == 6
            &&& e[0] == offset
            &&& e[1] & 0xfu8 == OP_LARGE_STACK_ALLOC
            &&& e[1] >> 4u8 == 1
            &&& read_le32(e, 2) == size
        }),
{
    lemma_le_u32_round_trip(size);
    let e = (UnwindCode::StackAlloc { offset, size }).encoding();
    assert(e.subrange(2, 6) =~= le_u32(size));
    assert((1u8 << 4u8 | 1u8) & 0xfu8 == 1u8 && (1u8 << 4u8 | 1u8) >> 4u8 == 1u8) by (bit_vector);
}

/// A vector-register save at stack offset `16 * k` takes two nodes with `k`
/// in one 16-bit field when `k` fits in 16 bits, and otherwise three nodes
/// whose low and high 16-bit halves put together give `k`.
pub proof fn lemma_save_xmm_form(offset: u8, reg: u8, k: u32)
    requires
        16 * k <= u32::MAX,
    ensures
        ({
            let c = UnwindCode::SaveXmm { offset, reg, stack_offset: (16 * k) as u32 };
            let e = c.encoding();
            &&& e[0] == offset
            &&& k <= SAVE_XMM_16BIT_MAX_SCALED ==> {
                &&& c.nodes() == 2
                &&& e.len() == 4
                &&& e[1] & 0xfu8 == OP_SAVE_XMM128
                &&& read_le16(e, 2) == k
            }
            &&& k > SAVE_XMM_16BIT_MAX_SCALED ==> {
                &&& c.nodes() == 3
                &&& e.len() == 6
                &&& e[1] & 0xfu8 == OP_SAVE_XMM128_FAR
                &&& read_le16(e, 2) + 65536 * read_le16(e, 4) == k
            }
        }),
{
    let so = (16 * k) as u32;
    assert(so / 16 == k);
    let e = (UnwindCode::SaveXmm { offset, reg, stack_offset: so }).encoding();
    let lo = k as u16;
    let hi = (k >> 16u32) as u16;
    lemma_le_u16_round_trip(lo);
    lemma_le_u16_round_trip(hi);
    assert(e.subrange(2, 4) =~= le_u16(lo));
    assert((reg << 4u8 | 8u8) & 0xfu8 == 8u8 && (reg << 4u8 | 9u8) & 0xfu8 == 9u8) by (bit_vector);
    if k > SAVE_XMM_16BIT_MAX_SCALED {
        assert(e.subrange(4, 6) =~= le_u16(hi));
        assert(lo as u32 + hi as u32 * 65536u32 == k) by (bit_vector)
            requires
                lo == k as u16,
                hi == (k >> 16u32) as u16,
        ;
    } else {
        assert(lo as u32 == k) by (bit_vector)
            requires
                lo == k as u16,
                k <= 65535,
        ;
    }
}

} // verus!

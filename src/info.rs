//! The `UNWIND_INFO` structure: its size and its byte layout.

use crate::code::UnwindCode;
use crate::writer::{le_u16, lemma_splice_concat, splice, Writer};
use vstd::prelude::*;

verus! {

/// Version number stored in the low three bits of the first header byte.
pub const UNWIND_INFO_VERSION: u8 = 1;

/// Largest node count that the one-byte count field can carry.
pub const MAX_NODE_COUNT: usize = 256;

/// Total number of nodes of `codes`.
pub open spec fn total_nodes(codes: Seq<UnwindCode>) -> nat
    decreases codes.len(),
{
    if codes.len() == 0 {
        0
    } else {
        total_nodes(codes.drop_last()) + codes.last().nodes()
    }
}

/// The nodes of `codes` as they are stored: the last code first.
pub open spec fn codes_encoding(codes: Seq<UnwindCode>) -> Seq<u8>
    decreases codes.len(),
{
    if codes.len() == 0 {
        Seq::empty()
    } else {
        codes.last().encoding() + codes_encoding(codes.drop_last())
    }
}

/// Size in bytes of an `UNWIND_INFO` with `n` nodes and no handler data:
/// the 4-byte header, 2 bytes per node, and 2 bytes of padding when `n` is
/// odd.
pub open spec fn size_for_nodes(n: nat) -> nat {
    4 + 2 * n + if n % 2 == 1 {
        2nat
    } else {
        0nat
    }
}

/// The zero bytes that keep the node array 32-bit aligned.
pub open spec fn padding(n: nat) -> Seq<u8> {
    if n % 2 == 1 {
        seq![0u8, 0u8]
    } else {
        Seq::empty()
    }
}

/// The stored codes take exactly two bytes per node.
pub proof fn lemma_codes_encoding_len(codes: Seq<UnwindCode>)
    ensures
        codes_encoding(codes).len() == 2 * total_nodes(codes),
    decreases codes.len(),
{
    if codes.len() > 0 {
        lemma_codes_encoding_len(codes.drop_last());
        codes.last().lemma_encoding_len();
    }
}

/// Codes are stored last first: the codes of `t`, which come after those of
/// `s`, are stored before them.
pub proof fn lemma_codes_stored_in_reverse(s: Seq<UnwindCode>, t: Seq<UnwindCode>)
    ensures
        codes_encoding(s + t) == codes_encoding(t) + codes_encoding(s),
    decreases t.len(),
{
    if t.len() == 0 {
        assert(s + t =~= s);
        assert(codes_encoding(t) + codes_encoding(s) =~= codes_encoding(s));
    } else {
        assert((s + t).drop_last() =~= s + t.drop_last());
        assert((s + t).last() == t.last());
        lemma_codes_stored_in_reverse(s, t.drop_last());
        assert(codes_encoding(s + t) =~= codes_encoding(t) + codes_encoding(s));
    }
}

/// Of two codes, the one built second is stored first.
pub proof fn lemma_two_codes_order(a: UnwindCode, b: UnwindCode)
    ensures
        codes_encoding(seq![a, b]) == b.encoding() + a.encoding(),
{
    assert(seq![a, b].drop_last() =~= seq![a]);
    assert(seq![a].drop_last() =~= Seq::<UnwindCode>::empty());
    assert(codes_encoding(Seq::<UnwindCode>::empty()) == Seq::<u8>::empty());
    assert(seq![a].last() == a);
    assert(codes_encoding(seq![a]) == a.encoding() + Seq::<u8>::empty());
    assert(codes_encoding(seq![a]) =~= a.encoding());
    assert(seq![a, b].last() == b);
    assert(codes_encoding(seq![a, b]) =~= b.encoding() + a.encoding());
}

/// Windows x64 unwind information for one function.
#[derive(Clone, Debug, PartialEq, Eq)]
pub struct UnwindInfo {
    pub flags: u8,
    pub prologue_size: u8,
    pub frame_register: Option<u8>,
    pub frame_register_offset: u8,
    pub unwind_codes: Vec<UnwindCode>,
}

impl UnwindInfo {
    /// Total number of nodes of the unwind codes.
    pub open spec fn nodes(&self) -> nat {
        total_nodes(self.unwind_codes@)
    }

    /// Size in bytes of the emitted structure.
    pub open spec fn size(&self) -> nat {
        size_for_nodes(self.nodes())
    }

    /// The node count fits the arithmetic of this machine: each code takes at
    /// least eight bytes of memory, so a vector of them is this short.
    pub open spec fn fits_machine(&self) -> bool {
        self.unwind_codes@.len() <= usize::MAX / 8
    }

    /// What `emit` needs: no handler or chained data, a node count that fits
    /// its byte, and well-formed codes.
    pub open spec fn encodable(&self) -> bool {
        &&& self.flags == 0
        &&& self.nodes() <= MAX_NODE_COUNT
        &&& forall|i: int| 0 <= i < self.unwind_codes@.len() ==> #[trigger] self.unwind_codes@[i].well_formed()
    }

    /// The frame-register byte: offset in the high nibble, register in the low
    /// one, or 0 when there is no frame register.
    pub open spec fn frame_byte(&self) -> u8 {
        match self.frame_register {
            Some(reg) => (self.frame_register_offset << 4u8) | reg,
            None => 0,
        }
    }

    /// The four header bytes.
    pub open spec fn header(&self) -> Seq<u8> {
        seq![
            (self.flags << 3u8) | UNWIND_INFO_VERSION,
            self.prologue_size,
            #[verifier::truncate] (self.nodes() as u8),
            self.frame_byte(),
        ]
    }

    /// The bytes of the emitted structure.
    pub open spec fn encoding(&self) -> Seq<u8> {
        self.header() + codes_encoding(self.unwind_codes@) + padding(self.nodes())
    }

    /// Number of nodes of the unwind codes.
    pub fn node_count(&self) -> (r: usize)
        requires
            self.fits_machine(),
        ensures
            r == self.nodes(),
            r <= 3 * self.unwind_codes@.len(),
    {
        let codes = &self.unwind_codes;
        let mut total: usize = 0;
        let mut i: usize = 0;
        while i < codes.len()
            invariant
                codes@ == self.unwind_codes@,
                codes@.len() <= usize::MAX / 8,
                i <= codes@.len(),
                total == total_nodes(codes@.subrange(0, i as int)),
                total <= 3 * i,
            decreases codes@.len() - i,
        {
            proof {
                assert(codes@.subrange(0, i + 1).drop_last() =~= codes@.subrange(0, i as int));
            }
            total = total + codes[i].node_count();
            i = i + 1;
        }
        proof {
            assert(codes@.subrange(0, i as int) =~= codes@);
        }
        total
    }

    /// Size in bytes of the emitted unwind information.
    pub fn emit_size(&self) -> (r: usize)
        requires
            self.flags == 0,
            self.fits_machine(),
        ensures
            r == self.size(),
    {
        let node_count = self.node_count();
        4 + (node_count * 2) + if (node_count % 2) == 1 {
            2
        } else {
            0
        }
    }

    /// Writes the unwind information at the start of `buf`; the bytes after
    /// it are left as they were.
    pub fn emit(&self, buf: &mut [u8])
        requires
            self.encodable(),
            self.fits_machine(),
            old(buf)@.len() >= self.size(),
        ensures
            self.encoding().len() == self.size(),
            final(buf)@ == splice(old(buf)@, 0, self.encoding()),
    {
        let ghost b0 = buf@;
        let ghost codes = self.unwind_codes@;
        let node_count = self.node_count();
        proof {
            lemma_codes_encoding_len(codes);
        }

        let ghost fin = final(buf)@;
        let mut writer = Writer::new(buf);
        let first = (self.flags << 3u8) | UNWIND_INFO_VERSION;
        writer.write_u8(first);
        writer.write_u8(self.prologue_size);
        writer.write_u8(#[verifier::truncate] (node_count as u8));
        let frame = if let Some(reg) = self.frame_register {
            (self.frame_register_offset << 4u8) | reg
        } else {
            0
        };
        writer.write_u8(frame);
        proof {
            lemma_splice_concat(b0, 0, seq![first], seq![self.prologue_size]);
            lemma_splice_concat(b0, 0, seq![first, self.prologue_size], seq![#[verifier::truncate] (node_count as u8)]);
            lemma_splice_concat(b0, 0, seq![first, self.prologue_size, #[verifier::truncate] (node_count as u8)], seq![frame]);
            assert(seq![first] + seq![self.prologue_size] =~= seq![first, self.prologue_size]);
            assert(seq![first, self.prologue_size] + seq![#[verifier::truncate] (node_count as u8)] =~= seq![first, self.prologue_size, #[verifier::truncate] (node_count as u8)]);
            assert(seq![first, self.prologue_size, #[verifier::truncate] (node_count as u8)] + seq![frame] =~= self.header());
        }

        // Codes are stored in descending prologue-offset order: last one first.
        let mut i: usize = self.unwind_codes.len();
        let ghost mut written: Seq<u8> = Seq::empty();
        proof {
            assert(codes.subrange(0, i as int) =~= codes);
            assert(self.header() + written =~= self.header());
        }
        while i > 0
            invariant
                codes == self.unwind_codes@,
                self.encodable(),
                i <= codes.len(),
                b0.len() >= self.size(),
                writer.buf@ == splice(b0, 0, self.header() + written),
                writer.buf@.len() == b0.len(),
                final(writer.buf)@ == fin,
                writer.offset == 4 + written.len(),
                written + codes_encoding(codes.subrange(0, i as int)) == codes_encoding(codes),
            decreases i,
        {
            let ghost pre = codes.subrange(0, i - 1);
            let ghost c = codes[i - 1];
            proof {
                assert(codes.subrange(0, i as int).drop_last() =~= pre);
                lemma_codes_encoding_len(codes);
                lemma_codes_encoding_len(pre);
                lemma_codes_encoding_len(codes.subrange(0, i as int));
                c.lemma_encoding_len();
                assert(total_nodes(codes.subrange(0, i as int)) == total_nodes(pre) + c.nodes());
                assert(written.len() + 2 * total_nodes(codes.subrange(0, i as int)) == 2 * total_nodes(codes));
            }
            i = i - 1;
            self.unwind_codes[i].emit(&mut writer);
            proof {
                lemma_splice_concat(b0, 0, self.header() + written, c.encoding());
                assert(self.header() + written + c.encoding() =~= self.header() + (written + c.encoding()));
                assert(written + c.encoding() + codes_encoding(pre) =~= written + codes_encoding(codes.subrange(0, i + 1)));
                written = written + c.encoding();
            }
        }
        proof {
            assert(codes.subrange(0, 0) =~= Seq::<UnwindCode>::empty());
            assert(written =~= codes_encoding(codes));
        }

        // Keep the whole structure 32-bit aligned.
        if node_count % 2 == 1 {
            writer.write_u16(0);
            proof {
                assert(le_u16(0) =~= padding(self.nodes())) by {
                    assert((0u16 as u8) == 0u8 && ((0u16 >> 8u16) as u8) == 0u8) by (bit_vector);
                }
                lemma_splice_concat(b0, 0, self.header() + written, le_u16(0));
            }
        } else {
            proof {
                assert(self.header() + written + padding(self.nodes()) =~= self.header() + written);
            }
        }
        // Exactly the precomputed number of bytes was written.
        assert(writer.offset == self.size());
    }

    /// The emitted structure is exactly `size()` bytes:
    /// `4 + 2 * nodes + (2 if nodes is odd else 0)`.
    pub proof fn lemma_encoding_len(&self)
        ensures
            self.encoding().len() == self.size(),
            self.size() == 4 + 2 * self.nodes() + (if self.nodes() % 2 == 1 {
                2int
            } else {
                0int
            }),
    {
        lemma_codes_encoding_len(self.unwind_codes@);
    }

    /// The structure ends in two zero bytes after the nodes when the node
    /// count is odd, and in nothing when it is even.
    pub proof fn lemma_trailing_padding(&self)
        ensures
            self.nodes() % 2 == 1 ==> self.encoding().subrange(4 + 2 * self.nodes() as int, self.size() as int) == seq![0u8, 0u8],
            self.nodes() % 2 == 0 ==> self.encoding().len() == 4 + 2 * self.nodes(),
    {
        self.lemma_encoding_len();
        lemma_codes_encoding_len(self.unwind_codes@);
        let n = self.nodes();
        if n % 2 == 1 {
            assert(self.encoding().subrange(4 + 2 * n as int, self.size() as int) =~= seq![0u8, 0u8]);
        }
    }
}

} // verus!

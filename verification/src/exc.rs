//! The x64 `CONTEXT` record: saving a register file to guest memory and
//! loading it back.

use vstd::prelude::*;

use crate::cpu::{CpuState, CpuView, FLAG_RESERVED_ONE};
use crate::mem::{
    at, fault_result, ga, le_bytes, lemma_block_read_back, lemma_blocks_ok, lemma_le_bytes_len,
    lemma_le_value_mod, lemma_pow256, lemma_pow256_16, lemma_sub_access, piece_blocks, pow256,
    wide_bytes_of, wide_uint_of, write_blocks, write_pieces, Block, Fault, MemView, Piece, Stored,
    VirtualMemory,
};

verus! {

/// Bytes of a `CONTEXT`.
pub const CONTEXT_SIZE: u64 = 0x4d0;

/// Offset of `ContextFlags`.
pub const OFF_CONTEXT_FLAGS: u64 = 0x30;

/// Offset of `MxCsr`.
pub const OFF_MXCSR: u64 = 0x34;

/// Offset of `EFlags`.
pub const OFF_EFLAGS: u64 = 0x44;

/// Offset of `Rax`; the other general-purpose registers follow in encoding order.
pub const OFF_GPR: u64 = 0x78;

/// Offset of `Rip`.
pub const OFF_RIP: u64 = 0xf8;

/// Offset of `Xmm0`; the other vector registers follow.
pub const OFF_XMM0: u64 = 0x1a0;

/// Control, integer and floating-point state of an AMD64 context.
pub const CONTEXT_ALL: u32 = 0x0010_000b;

/// The `MxCsr` of a fresh thread.
pub const DEFAULT_MXCSR: u32 = 0x1f80;

/// Fields of a `CONTEXT` that are written.
pub const CONTEXT_FIELDS: u64 = 36;

/// Where field `i` of a `CONTEXT` starts: what it holds, `MxCsr`, the flags, the integer
/// registers, the instruction pointer, the vector registers.
pub open spec fn field_offset(i: int) -> int {
    if i == 0 {
        0x30
    } else if i == 1 {
        0x34
    } else if i == 2 {
        0x44
    } else if i < 19 {
        0x78 + (i - 3) * 8
    } else if i == 19 {
        0xf8
    } else {
        0x1a0 + (i - 20) * 16
    }
}

/// Bytes of field `i` of a `CONTEXT`.
pub open spec fn field_size(i: int) -> nat {
    if i < 3 {
        4
    } else if i < 20 {
        8
    } else {
        16
    }
}

/// What field `i` of a `CONTEXT` holds for a register file.
pub open spec fn field_value(c: CpuView, i: int) -> nat {
    if i == 0 {
        CONTEXT_ALL as nat
    } else if i == 1 {
        DEFAULT_MXCSR as nat
    } else if i == 2 {
        c.rflags as nat
    } else if i < 19 {
        c.gpr[i - 3] as nat
    } else if i == 19 {
        c.rip as nat
    } else {
        c.xmm[i - 20] as nat
    }
}

/// The blocks that lay a register file down as a `CONTEXT` at `addr`; each field keeps as
/// many low bytes as it has.
pub open spec fn context_blocks(addr: u64, c: CpuView) -> Seq<Block> {
    Seq::new(
        CONTEXT_FIELDS as nat,
        |i: int|
            Block {
                addr: ga(addr, field_offset(i)),
                data: le_bytes(field_value(c, i), field_size(i)),
            },
    )
}

/// The memory after a register file was written to a `CONTEXT` at `addr`.
pub open spec fn context_written(m: MemView, addr: u64, c: CpuView) -> Stored {
    write_blocks(m, context_blocks(addr, c))
}

/// Where field `i` of a `CONTEXT` starts.
fn offset_of_field(i: u64) -> (r: u64)
    requires
        i < CONTEXT_FIELDS,
    ensures
        r == field_offset(i as int),
{
    if i == 0 {
        OFF_CONTEXT_FLAGS
    } else if i == 1 {
        OFF_MXCSR
    } else if i == 2 {
        OFF_EFLAGS
    } else if i < 19 {
        OFF_GPR + (i - 3) * 8
    } else if i == 19 {
        OFF_RIP
    } else {
        OFF_XMM0 + (i - 20) * 16
    }
}

/// Bytes of field `i` of a `CONTEXT`.
fn size_of_field(i: u64) -> (r: u64)
    ensures
        r == field_size(i as int),
{
    if i < 3 {
        4
    } else if i < 20 {
        8
    } else {
        16
    }
}

/// What field `i` of a `CONTEXT` holds for a register file.
fn value_of_field(s: &CpuState, i: u64) -> (r: u128)
    requires
        i < CONTEXT_FIELDS,
    ensures
        r == field_value(s@, i as int),
{
    if i == 0 {
        CONTEXT_ALL as u128
    } else if i == 1 {
        DEFAULT_MXCSR as u128
    } else if i == 2 {
        s.rflags as u128
    } else if i < 19 {
        s.gpr[i as usize - 3] as u128
    } else if i == 19 {
        s.rip as u128
    } else {
        s.xmm[i as usize - 20]
    }
}

/// Write `state` into a `CONTEXT` at `addr`: flags, integer, control and
/// vector state.
pub fn write_context(mem: &mut VirtualMemory, addr: u64, state: &CpuState) -> (r: Result<
    (),
    Fault,
>)
    ensures
        final(mem)@ == context_written(old(mem)@, addr, state@).mem,
        r == fault_result(context_written(old(mem)@, addr, state@).fault),
{
    let ghost b = context_blocks(addr, state@);
    let mut ps: Vec<Piece> = Vec::new();
    let mut i: u64 = 0;
    assert(piece_blocks(ps@) =~= b.take(0));
    while i < CONTEXT_FIELDS
        invariant
            i <= CONTEXT_FIELDS,
            b == context_blocks(addr, state@),
            ps.len() == i,
            piece_blocks(ps@) == b.take(i as int),
        decreases CONTEXT_FIELDS - i,
    {
        let ghost before = ps@;
        let data = wide_bytes_of(value_of_field(state, i), size_of_field(i));
        ps.push(Piece { addr: at(addr, offset_of_field(i)), data });
        proof {
            assert forall|k: int| 0 <= k < i implies #[trigger] piece_blocks(ps@)[k] == b[k] by {
                assert(piece_blocks(before)[k] == b.take(i as int)[k]);
            }
            assert(piece_blocks(ps@)[i as int] == b[i as int]);
        }
        i = i + 1;
        assert(piece_blocks(ps@) =~= b.take(i as int));
    }
    assert(b.take(i as int) =~= b);
    write_pieces(mem, &ps)
}

/// Fields of a `CONTEXT` that are read.
pub const FIELDS_READ: u64 = 34;

/// The field that is read at place `k`: the integer registers, the instruction pointer,
/// the flags, the vector registers.
pub open spec fn field_read(k: int) -> int {
    if k < 17 {
        k + 3
    } else if k == 17 {
        2
    } else {
        k + 2
    }
}

/// The first `n` fields that are read of a `CONTEXT` at `addr`, or the first fault.
pub open spec fn fields_at(m: MemView, addr: u64, n: nat) -> Result<Seq<nat>, Fault>
    decreases n,
{
    if n == 0 {
        Ok(Seq::empty())
    } else {
        let i = field_read(n - 1);
        match fields_at(m, addr, (n - 1) as nat) {
            Err(f) => Err(f),
            Ok(vs) => match m.read_le(ga(addr, field_offset(i)), field_size(i)) {
                Err(f) => Err(f),
                Ok(v) => Ok(vs.push(v)),
            },
        }
    }
}

/// Flags with the reserved bit set.
pub open spec fn legal_flags(eflags: u64) -> u64 {
    (eflags & !FLAG_RESERVED_ONE) | FLAG_RESERVED_ONE
}

/// The register file that the fields stand for.
pub open spec fn context_state(v: Seq<nat>) -> CpuView {
    CpuView {
        gpr: Seq::new(16, |i: int| v[i] as u64),
        rip: v[16] as u64,
        rflags: legal_flags(v[17] as u64),
        xmm: Seq::new(16, |i: int| v[18 + i] as u128),
        ..CpuView::fresh()
    }
}

/// The register file that a `CONTEXT` at `addr` holds.
pub open spec fn context_at(m: MemView, addr: u64) -> Result<CpuView, Fault> {
    match fields_at(m, addr, FIELDS_READ as nat) {
        Ok(v) => Ok(context_state(v)),
        Err(f) => Err(f),
    }
}

/// Fields of which one faults give that fault.
proof fn lemma_fields_stop(m: MemView, addr: u64, k: nat, n: nat)
    requires
        k <= n,
        fields_at(m, addr, k) is Err,
    ensures
        fields_at(m, addr, n) == fields_at(m, addr, k),
    decreases n,
{
    if k < n {
        lemma_fields_stop(m, addr, k, (n - 1) as nat);
    }
}

/// Read a `CONTEXT` at `addr` into a fresh register file.
pub fn read_context(mem: &VirtualMemory, addr: u64) -> (r: Result<CpuState, Fault>)
    ensures
        match r {
            Ok(s) => context_at(mem@, addr) == Ok::<CpuView, Fault>(s@),
            Err(f) => context_at(mem@, addr) == Err::<CpuView, Fault>(f),
        },
{
    let mut v: Vec<u128> = Vec::new();
    let ghost mut got: Seq<nat> = Seq::empty();
    let mut k: u64 = 0;
    while k < FIELDS_READ
        invariant
            k <= FIELDS_READ,
            v.len() == k,
            got.len() == k,
            forall|i: int| 0 <= i < k ==> #[trigger] got[i] == v@[i],
            fields_at(mem@, addr, k as nat) == Ok::<Seq<nat>, Fault>(got),
        decreases FIELDS_READ - k,
    {
        let i: u64 = if k < 17 {
            k + 3
        } else if k == 17 {
            2
        } else {
            k + 2
        };
        assert(i == field_read(k as int));
        assert(fields_at(mem@, addr, (k + 1) as nat) == match mem@.read_le(
            ga(addr, field_offset(i as int)),
            field_size(i as int),
        ) {
            Err(f) => Err::<Seq<nat>, Fault>(f),
            Ok(x) => Ok(got.push(x)),
        });
        match mem.read_block(at(addr, offset_of_field(i)), size_of_field(i)) {
            Ok(d) => {
                let x: u128 = wide_uint_of(&d);
                v.push(x);
                proof {
                    got = got.push(x as nat);
                }
            },
            Err(f) => {
                proof {
                    lemma_fields_stop(mem@, addr, (k + 1) as nat, FIELDS_READ as nat);
                }
                return Err(f);
            },
        }
        k = k + 1;
    }
    let mut s = CpuState::new();
    let mut i: usize = 0;
    while i < 16
        invariant
            i <= 16,
            v.len() == 34,
            s.gpr@.len() == 16,
            s.xmm@.len() == 16,
            forall|k: int| 0 <= k < i ==> #[trigger] s.gpr@[k] == v@[k] as u64,
            forall|k: int| 0 <= k < i ==> #[trigger] s.xmm@[k] == v@[18 + k],
            s.ymm_high@ == CpuView::fresh().ymm_high,
            s.fs_base == 0,
            s.gs_base == 0,
        decreases 16 - i,
    {
        s.gpr[i] = v[i] as u64;
        s.xmm[i] = v[18 + i];
        i = i + 1;
    }
    s.rip = v[16] as u64;
    let eflags: u64 = v[17] as u64;
    s.rflags = (eflags & !FLAG_RESERVED_ONE) | FLAG_RESERVED_ONE;
    assert(s.gpr@ =~= context_state(got).gpr);
    assert(s.xmm@ =~= context_state(got).xmm);
    Ok(s)
}

// ---- laws -------------------------------------------------------------------

/// Whether every field that is read of a `CONTEXT` at `addr` can be read.
pub open spec fn context_readable(m: MemView, addr: u64) -> bool {
    forall|i: int|
        2 <= i < CONTEXT_FIELDS ==> m.can_read(
            ga(addr, #[trigger] field_offset(i)) as int,
            field_size(i) as int,
        )
}

/// Whether every field that is read of a `CONTEXT` at `addr` is the same in two memories.
pub open spec fn context_kept(m: MemView, later: MemView, addr: u64) -> bool {
    forall|i: int|
        2 <= i < CONTEXT_FIELDS ==> later.read(
            ga(addr, #[trigger] field_offset(i)),
            field_size(i),
        ) == m.read(ga(addr, field_offset(i)), field_size(i))
}

/// Two fields of a `CONTEXT` do not meet, wherever it stands.
proof fn lemma_fields_apart(addr: u64, c: CpuView, i: int, j: int)
    requires
        0 <= i < j < CONTEXT_FIELDS,
    ensures
        ({
            let b = context_blocks(addr, c);
            b[j].addr + b[j].data.len() <= b[i].addr || b[i].addr + b[i].data.len() <= b[j].addr
        }),
{
    lemma_le_bytes_len(field_value(c, i), field_size(i));
    lemma_le_bytes_len(field_value(c, j), field_size(j));
    assert(field_offset(i) + field_size(i) <= field_offset(j));
    assert(field_offset(j) + field_size(j) <= CONTEXT_SIZE);
}

/// A field that was written, and not written over since, holds its value.
proof fn lemma_field_kept(m: MemView, addr: u64, c: CpuView, later: MemView, i: int)
    requires
        context_written(m, addr, c).fault is None,
        context_readable(m, addr),
        context_kept(context_written(m, addr, c).mem, later, addr),
        2 <= i < CONTEXT_FIELDS,
    ensures
        later.read_le(ga(addr, field_offset(i)), field_size(i)) == Ok::<nat, Fault>(
            field_value(c, i) % pow256(field_size(i)),
        ),
{
    let b = context_blocks(addr, c);
    lemma_le_bytes_len(field_value(c, i), field_size(i));
    assert forall|j: int| i < j < b.len() implies (#[trigger] b[j]).addr + b[j].data.len()
        <= b[i].addr || b[i].addr + b[i].data.len() <= b[j].addr by {
        lemma_fields_apart(addr, c, i, j);
    }
    assert(b[i].addr == ga(addr, field_offset(i)));
    lemma_block_read_back(m, b, i);
    lemma_le_value_mod(field_value(c, i), field_size(i));
}

/// A register file that was written to a `CONTEXT`, wherever its fields lie, is read back
/// as long as nothing was written over it: the same integer, control and vector state; of
/// the flags, the low 32 bits with the reserved bit set.
pub proof fn lemma_context_round_trip(m: MemView, addr: u64, c: CpuView, later: MemView)
    requires
        context_written(m, addr, c).fault is None,
        context_readable(m, addr),
        context_kept(context_written(m, addr, c).mem, later, addr),
        c.gpr.len() == 16,
        c.xmm.len() == 16,
    ensures
        context_at(later, addr) == Ok::<CpuView, Fault>(
            (CpuView {
                gpr: c.gpr,
                rip: c.rip,
                rflags: (c.rflags & 0xFFFF_FFFF) | FLAG_RESERVED_ONE,
                xmm: c.xmm,
                ..CpuView::fresh()
            }),
        ),
{
    lemma_fields_read_back(m, addr, c, later, FIELDS_READ as nat);
    let v = fields_at(later, addr, FIELDS_READ as nat)->Ok_0;
    lemma_pow256();
    let f = c.rflags;
    assert((f % 0x1_0000_0000 & !0x2u64) | 0x2u64 == (f & 0xFFFF_FFFF) | 0x2u64) by (bit_vector);
    assert(v[17] == f as nat % pow256(4)) by {
        assert(v[17] == field_value(c, field_read(17)) % pow256(field_size(field_read(17))));
    }
    assert(v[17] as u64 == f % 0x1_0000_0000);
    assert forall|k: int| 0 <= k < 34 && k != 17 implies #[trigger] v[k] == field_value(
        c,
        field_read(k),
    ) by {
        assert(v[k] == field_value(c, field_read(k)) % pow256(field_size(field_read(k))));
        lemma_field_fits(c, field_read(k));
    }
    let s = context_state(v);
    assert(s.gpr =~= c.gpr) by {
        assert forall|i: int| 0 <= i < 16 implies #[trigger] s.gpr[i] == c.gpr[i] by {
            assert(v[i] == field_value(c, field_read(i)));
        }
    }
    assert(s.xmm =~= c.xmm) by {
        assert forall|i: int| 0 <= i < 16 implies #[trigger] s.xmm[i] == c.xmm[i] by {
            assert(v[18 + i] == field_value(c, field_read(18 + i)));
        }
    }
    assert(v[16] == c.rip) by {
        assert(v[16] == field_value(c, field_read(16)));
    }
}

/// The fields of the integer and vector registers and of the instruction pointer hold all
/// of them.
proof fn lemma_field_fits(c: CpuView, i: int)
    requires
        3 <= i < CONTEXT_FIELDS,
        c.gpr.len() == 16,
        c.xmm.len() == 16,
    ensures
        field_value(c, i) % pow256(field_size(i)) == field_value(c, i),
{
    lemma_pow256();
    lemma_pow256_16();
    let v = field_value(c, i);
    assert(v < pow256(field_size(i)));
    vstd::arithmetic::div_mod::lemma_small_mod(v, pow256(field_size(i)));
}

/// Where a `CONTEXT` holds what: the flags at 0x44, the integer registers by their numbers
/// from 0x78 on, the instruction pointer at 0xf8 and the vector registers from 0x1a0 on.
pub proof fn lemma_context_layout(m: MemView, addr: u64, c: CpuView, i: int)
    requires
        context_written(m, addr, c).fault is None,
        context_readable(m, addr),
        c.gpr.len() == 16,
        c.xmm.len() == 16,
        addr + 0x4d0 <= u64::MAX,
        0 <= i < 16,
    ensures
        ({
            let k = context_written(m, addr, c).mem;
            &&& k.r32((addr + 0x44) as u64) == Ok::<u32, Fault>(c.rflags as u32)
            &&& k.r64((addr + 0x78 + 8 * i) as u64) == Ok::<u64, Fault>(c.gpr[i])
            &&& k.r64((addr + 0xf8) as u64) == Ok::<u64, Fault>(c.rip)
            &&& k.read_le((addr + 0x1a0 + 16 * i) as u64, 16) == Ok::<nat, Fault>(
                c.xmm[i] as nat,
            )
        }),
{
    let k = context_written(m, addr, c).mem;
    lemma_pow256();
    lemma_field_kept(m, addr, c, k, 2);
    lemma_field_kept(m, addr, c, k, 3 + i);
    lemma_field_kept(m, addr, c, k, 19);
    lemma_field_kept(m, addr, c, k, 20 + i);
    lemma_field_fits(c, 3 + i);
    lemma_field_fits(c, 19);
    lemma_field_fits(c, 20 + i);
    let f = c.rflags;
    assert(f as u32 == f % 0x1_0000_0000) by (bit_vector);
}

/// The fields of a register file that was written are read back.
proof fn lemma_fields_read_back(m: MemView, addr: u64, c: CpuView, later: MemView, n: nat)
    requires
        context_written(m, addr, c).fault is None,
        context_readable(m, addr),
        context_kept(context_written(m, addr, c).mem, later, addr),
        n <= FIELDS_READ,
    ensures
        fields_at(later, addr, n) is Ok,
        fields_at(later, addr, n)->Ok_0.len() == n,
        forall|k: int|
            0 <= k < n ==> #[trigger] fields_at(later, addr, n)->Ok_0[k] == field_value(
                c,
                field_read(k),
            ) % pow256(field_size(field_read(k))),
    decreases n,
{
    if n > 0 {
        lemma_fields_read_back(m, addr, c, later, (n - 1) as nat);
        lemma_field_kept(m, addr, c, later, field_read(n - 1));
    }
}

/// A register file can be written to a `CONTEXT` that lies in one region, and every field
/// of it can be read.
pub proof fn lemma_context_fits(m: MemView, addr: u64, c: CpuView)
    requires
        m.wf(),
        addr + CONTEXT_SIZE <= u64::MAX,
        m.can_read(addr as int, CONTEXT_SIZE as int),
        m.can_write(addr as int, CONTEXT_SIZE as int),
    ensures
        context_written(m, addr, c).fault is None,
        context_readable(m, addr),
{
    let b = context_blocks(addr, c);
    assert forall|i: int| 0 <= i < b.len() implies m.can_write(
        (#[trigger] b[i]).addr as int,
        b[i].data.len() as int,
    ) by {
        lemma_le_bytes_len(field_value(c, i), field_size(i));
        lemma_sub_access(
            m,
            addr as int,
            CONTEXT_SIZE as int,
            addr + field_offset(i),
            field_size(i) as int,
        );
    }
    lemma_blocks_ok(m, b);
    assert forall|i: int| 2 <= i < CONTEXT_FIELDS implies m.can_read(
        ga(addr, #[trigger] field_offset(i)) as int,
        field_size(i) as int,
    ) by {
        lemma_sub_access(
            m,
            addr as int,
            CONTEXT_SIZE as int,
            addr + field_offset(i),
            field_size(i) as int,
        );
    }
}

} // verus!

//! Laws of the instruction set, proved once for every machine state: the
//! carry and borrow flags, the program-counter discipline, the XOR-draw
//! round trip and the register store/load round trip.

use vstd::prelude::*;
use crate::vm::VmView;
use crate::insn::Instr;
use crate::step::{spec_exec_instr, spec_store_regs};
use crate::draw::{spec_draw_fb, spec_draw_collision, sprite_covers, sprite_bit, pix_index};
use crate::draw::lemma_pix_index_in_range;
use crate::vm::{MEM_SIZE, FB_SIZE};

verus! {

/// Whether an instruction sets the program counter explicitly instead of
/// letting it advance: the jumps, the call and the return.
pub open spec fn sets_pc_explicitly(ins: Instr) -> bool {
    ||| ins matches Instr::Jp { .. }
    ||| ins matches Instr::Call { .. }
    ||| ins matches Instr::Ret
    ||| ins matches Instr::JpV0 { .. }
}

/// Whether a conditional-skip instruction takes its skip in state `pre`;
/// false for every other instruction.
pub open spec fn skip_taken(pre: VmView, ins: Instr) -> bool {
    match ins {
        Instr::SeByte { x, kk } => pre.v[x as int] == kk,
        Instr::SneByte { x, kk } => pre.v[x as int] != kk,
        Instr::SeReg { x, y } => pre.v[x as int] == pre.v[y as int],
        Instr::SneReg { x, y } => pre.v[x as int] != pre.v[y as int],
        Instr::Skp { x } => pre.keys[pre.v[x as int] as int],
        Instr::Sknp { x } => !pre.keys[pre.v[x as int] as int],
        _ => false,
    }
}

/// The register add sets VF to 1 exactly when the true sum exceeds 255,
/// and the destination to the sum wrapped to eight bits, for every pair of
/// register values. (VF itself as the destination keeps only the wrapped
/// sum, which is why the flag clause asks x != 15.)
pub proof fn lemma_add_carry(pre: VmView, x: u8, y: u8, rb: u8)
    requires
        pre.wf(),
        x < 15,
        y < 16,
    ensures
        spec_exec_instr(pre, Instr::AddReg { x, y }, rb) matches Ok(next)
            && next.v[x as int] == ((pre.v[x as int] + pre.v[y as int]) % 256) as u8
            && next.v[15] == (if pre.v[x as int] + pre.v[y as int] > 255 { 1u8 } else { 0u8 }),
{
}

/// The register subtract sets VF to 1 exactly when no borrow occurs, that
/// is when Vx >= Vy, and the destination to the difference wrapped to
/// eight bits, for every pair of register values.
pub proof fn lemma_sub_borrow(pre: VmView, x: u8, y: u8, rb: u8)
    requires
        pre.wf(),
        x < 15,
        y < 16,
    ensures
        spec_exec_instr(pre, Instr::SubReg { x, y }, rb) matches Ok(next)
            && next.v[x as int] == ((pre.v[x as int] - pre.v[y as int]) % 256) as u8
            && next.v[15] == (if pre.v[x as int] >= pre.v[y as int] { 1u8 } else { 0u8 }),
{
}

/// After any successful instruction that does not set the program counter
/// explicitly and does not enter the key wait, the program counter advances
/// by exactly 2 — or by 4 when a conditional skip is taken.
pub proof fn lemma_pc_advance(pre: VmView, ins: Instr, rb: u8)
    requires
        pre.wf(),
        ins.wf(),
        !sets_pc_explicitly(ins),
        !(ins matches Instr::LdKey { .. }),
    ensures
        spec_exec_instr(pre, ins, rb) matches Ok(next)
            ==> next.pc == (if skip_taken(pre, ins) { pre.pc + 4 } else { pre.pc + 2 }),
{
}

/// Drawing the same sprite at the same coordinates twice restores every
/// pixel, and the second draw reports a collision exactly when some set
/// sprite cell lands on a pixel that was clear before the first draw —
/// in particular whenever the first draw turned any pixel on.
pub proof fn lemma_draw_involution(fb: Seq<bool>, mem: Seq<u8>, i: int, vx: u8, vy: u8, n: int)
    requires
        fb.len() == FB_SIZE,
        0 <= n,
    ensures
        spec_draw_fb(spec_draw_fb(fb, mem, i, vx, vy, n), mem, i, vx, vy, n) == fb,
        spec_draw_collision(spec_draw_fb(fb, mem, i, vx, vy, n), mem, i, vx, vy, n)
            == (exists |cy: int, cx: int| 0 <= cy < n && 0 <= cx < 8
                && sprite_bit(mem[i + cy], cx) && !fb[pix_index(vx, vy, cx, cy)]),
{
    let d1 = spec_draw_fb(fb, mem, i, vx, vy, n);
    assert forall |cy: int, cx: int| 0 <= cy < n && 0 <= cx < 8 && sprite_bit(mem[i + cy], cx)
        implies #[trigger] d1[pix_index(vx, vy, cx, cy)] == !fb[pix_index(vx, vy, cx, cy)]
    by {
        lemma_pix_index_in_range(vx, vy, cx, cy);
        assert(sprite_covers(mem, i, vx, vy, n, pix_index(vx, vy, cx, cy)));
    }
    assert(spec_draw_fb(d1, mem, i, vx, vy, n) =~= fb);
    if spec_draw_collision(d1, mem, i, vx, vy, n) {
        let (wy, wx) = choose |wy: int, wx: int|
            0 <= wy && 0 <= wx < 8
            && (wy < n || (wy == n && wx < 0))
            && sprite_bit(mem[i + wy], wx)
            && d1[pix_index(vx, vy, wx, wy)];
        assert(0 <= wy < n && !fb[pix_index(vx, vy, wx, wy)]);
    }
    if exists |cy: int, cx: int| 0 <= cy < n && 0 <= cx < 8
        && sprite_bit(mem[i + cy], cx) && !fb[pix_index(vx, vy, cx, cy)] {
        let (wy, wx) = choose |wy: int, wx: int| 0 <= wy < n && 0 <= wx < 8
            && sprite_bit(mem[i + wy], wx) && !fb[pix_index(vx, vy, wx, wy)];
        assert(d1[pix_index(vx, vy, wx, wy)]);
        assert(spec_draw_collision(d1, mem, i, vx, vy, n));
    }
}

/// Storing V0..Vx to memory at I and loading them back reproduces the
/// registers exactly, and leaves memory as the store wrote it.
pub proof fn lemma_store_load_round_trip(pre: VmView, x: u8, rb: u8)
    requires
        pre.wf(),
        x < 16,
        pre.i + x < MEM_SIZE,
    ensures
        spec_exec_instr(pre, Instr::Store { x }, rb) matches Ok(mid)
            && (spec_exec_instr(mid, Instr::Load { x }, rb) matches Ok(out)
                && out.v == pre.v
                && out.mem == mid.mem),
{
    let mid = spec_exec_instr(pre, Instr::Store { x }, rb).unwrap();
    let out = spec_exec_instr(mid, Instr::Load { x }, rb).unwrap();
    assert(mid.mem == spec_store_regs(pre.mem, pre.i as int, pre.v, x as int));
    assert(out.v =~= pre.v);
}

} // verus!

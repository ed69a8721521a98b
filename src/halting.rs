use vstd::prelude::*;
use vstd::set_lib::{lemma_int_range, lemma_len_subset, lemma_map_size, set_int_range};
use crate::emulator::{halts, run, step, CpuState, MAX_STEPS};
use crate::error::EmulatorErr;

verus! {

/// Every field holds a value of its width.
pub open spec fn is_machine_state(s: CpuState) -> bool {
    s.a < 16 && s.b < 16 && s.pc < 16 && s.carry < 2 && s.input < 16 && s.output < 16
}

/// The state after `k` instructions; a step that fails leaves the state as it was.
pub open spec fn after(rom: Seq<u8>, s: CpuState, k: nat) -> CpuState
    decreases k,
{
    if k == 0 {
        s
    } else {
        match step(rom, s) {
            Ok(t) => after(rom, t, (k - 1) as nat),
            Err(_) => s,
        }
    }
}

/// Two states that agree on everything the machine reads; the output latch is only
/// ever written.
pub open spec fn same_registers(s1: CpuState, s2: CpuState) -> bool {
    s1.a == s2.a && s1.b == s2.b && s1.pc == s2.pc && s1.carry == s2.carry && s1.input == s2.input
}

/// The register file and input latch packed into one number below `MAX_STEPS * 16`.
spec fn key(s: CpuState) -> int {
    (s.a + 16 * s.b + 256 * s.pc + 4096 * s.carry) as int
}

/// The `k`-th instruction executes and does not leave the machine halted.
spec fn keeps_running(rom: Seq<u8>, s: CpuState, k: nat) -> bool {
    &&& step(rom, after(rom, s, (k - 1) as nat)) is Ok
    &&& !halts(rom, after(rom, s, k))
}

proof fn lemma_step_congruent(rom: Seq<u8>, s1: CpuState, s2: CpuState)
    requires
        same_registers(s1, s2),
    ensures
        step(rom, s1) is Ok <==> step(rom, s2) is Ok,
        step(rom, s1) is Ok ==> same_registers(step(rom, s1)->Ok_0, step(rom, s2)->Ok_0),
        halts(rom, s1) <==> halts(rom, s2),
{
}

proof fn lemma_step_in_range(rom: Seq<u8>, s: CpuState)
    requires
        is_machine_state(s),
        step(rom, s) is Ok,
    ensures
        is_machine_state(step(rom, s)->Ok_0),
        step(rom, s)->Ok_0.input == s.input,
{
}

proof fn lemma_after_in_range(rom: Seq<u8>, s: CpuState, k: nat)
    requires
        is_machine_state(s),
    ensures
        is_machine_state(after(rom, s, k)),
        after(rom, s, k).input == s.input,
    decreases k,
{
    if k > 0 {
        if step(rom, s) is Ok {
            lemma_step_in_range(rom, s);
            lemma_after_in_range(rom, step(rom, s)->Ok_0, (k - 1) as nat);
        }
    }
}

proof fn lemma_after_congruent(rom: Seq<u8>, s1: CpuState, s2: CpuState, k: nat)
    requires
        same_registers(s1, s2),
    ensures
        same_registers(after(rom, s1, k), after(rom, s2, k)),
    decreases k,
{
    lemma_step_congruent(rom, s1, s2);
    if k > 0 && step(rom, s1) is Ok {
        lemma_after_congruent(rom, step(rom, s1)->Ok_0, step(rom, s2)->Ok_0, (k - 1) as nat);
    }
}

proof fn lemma_after_after(rom: Seq<u8>, s: CpuState, i: nat, m: nat)
    ensures
        after(rom, s, i + m) == after(rom, after(rom, s, i), m),
    decreases i,
{
    if i > 0 {
        if step(rom, s) is Ok {
            lemma_after_after(rom, step(rom, s)->Ok_0, (i - 1) as nat, m);
            assert((i + m - 1) as nat == (i - 1) as nat + m);
        } else {
            assert(after(rom, s, i) == s);
            lemma_stuck(rom, s, m);
            lemma_stuck(rom, s, i + m);
        }
    }
}

proof fn lemma_stuck(rom: Seq<u8>, s: CpuState, k: nat)
    requires
        step(rom, s) is Err,
    ensures
        after(rom, s, k) == s,
{
}

proof fn lemma_one_more(rom: Seq<u8>, s: CpuState, k: nat)
    ensures
        step(rom, after(rom, s, k)) is Ok ==> after(rom, s, k + 1) == step(
            rom,
            after(rom, s, k),
        )->Ok_0,
{
    lemma_after_after(rom, s, k, 1);
    let u = after(rom, s, k);
    if step(rom, u) is Ok {
        assert(after(rom, step(rom, u)->Ok_0, 0) == step(rom, u)->Ok_0);
    }
}

/// A run stopped by the step bound executed every instruction without halting.
proof fn lemma_limit_means_running(rom: Seq<u8>, s: CpuState, fuel: nat, k: nat)
    requires
        run(rom, s, fuel) == Err::<CpuState, EmulatorErr>(EmulatorErr::StepLimitExceeded),
        1 <= k <= fuel,
    ensures
        keeps_running(rom, s, k),
    decreases fuel,
{
    let t = step(rom, s)->Ok_0;
    if k == 1 {
        assert(after(rom, s, 0) == s);
        assert(after(rom, t, 0) == t);
    } else {
        lemma_limit_means_running(rom, t, (fuel - 1) as nat, (k - 1) as nat);
        assert(after(rom, s, (k - 1) as nat) == after(rom, t, (k - 2) as nat));
    }
}

/// Conversely, a run whose every instruction executes without halting meets the bound.
proof fn lemma_running_means_limit(rom: Seq<u8>, s: CpuState, fuel: nat)
    requires
        forall|k: nat| 1 <= k <= fuel ==> #[trigger] keeps_running(rom, s, k),
    ensures
        run(rom, s, fuel) == Err::<CpuState, EmulatorErr>(EmulatorErr::StepLimitExceeded),
    decreases fuel,
{
    if fuel > 0 {
        assert(keeps_running(rom, s, 1));
        assert(after(rom, s, 0) == s);
        let t = step(rom, s)->Ok_0;
        assert(after(rom, t, 0) == t);
        assert forall|k: nat| 1 <= k <= (fuel - 1) as nat implies #[trigger] keeps_running(
            rom,
            t,
            k,
        ) by {
            assert(keeps_running(rom, s, k + 1));
            assert(after(rom, s, k) == after(rom, t, (k - 1) as nat));
            assert(after(rom, s, k + 1) == after(rom, t, k));
        }
        lemma_running_means_limit(rom, t, (fuel - 1) as nat);
    }
}

/// Among the first `MAX_STEPS + 1` states two agree on the registers.
proof fn lemma_repeat(rom: Seq<u8>, s: CpuState) -> (r: (nat, nat))
    requires
        is_machine_state(s),
    ensures
        r.0 < r.1 <= MAX_STEPS,
        same_registers(after(rom, s, r.0), after(rom, s, r.1)),
{
    let n = MAX_STEPS as int;
    let f = |k: int| key(after(rom, s, k as nat));
    let dom = set_int_range(0, n + 1);
    let range = set_int_range(0, n);
    if forall|i: nat, j: nat|
        i < j <= MAX_STEPS ==> !same_registers(#[trigger] after(rom, s, i), #[trigger] after(rom, s, j)) {
        assert forall|x: int, y: int| dom.contains(x) && dom.contains(y) && #[trigger] f(x) == #[trigger] f(y) implies x == y by {
            lemma_after_in_range(rom, s, x as nat);
            lemma_after_in_range(rom, s, y as nat);
            if x < y {
                assert(!same_registers(after(rom, s, x as nat), after(rom, s, y as nat)));
            } else if y < x {
                assert(!same_registers(after(rom, s, y as nat), after(rom, s, x as nat)));
            }
        }
        lemma_int_range(0, n + 1);
        lemma_int_range(0, n);
        lemma_map_size(dom, dom.map(f), f);
        assert forall|v: int| dom.map(f).contains(v) implies range.contains(v) by {
            let x = choose|x: int| dom.contains(x) && f(x) == v;
            lemma_after_in_range(rom, s, x as nat);
        }
        lemma_len_subset(dom.map(f), range);
        assert(false);
    }
    let (i, j) = choose|i: nat, j: nat|
        i < j <= MAX_STEPS && same_registers(#[trigger] after(rom, s, i), #[trigger] after(rom, s, j));
    (i, j)
}

/// Past a repeated register state, every state repeats one seen before the repetition.
proof fn lemma_fold(rom: Seq<u8>, s: CpuState, i: nat, j: nat, k: nat) -> (r: nat)
    requires
        i < j,
        same_registers(after(rom, s, i), after(rom, s, j)),
    ensures
        r < j,
        same_registers(after(rom, s, k), after(rom, s, r)),
    decreases k,
{
    if k < j {
        k
    } else {
        let m = (k - j) as nat;
        lemma_after_after(rom, s, j, m);
        lemma_after_after(rom, s, i, m);
        lemma_after_congruent(rom, after(rom, s, i), after(rom, s, j), m);
        lemma_fold(rom, s, i, j, i + m)
    }
}

/// A run that meets the step bound never halts, with any number of steps: the register
/// file has `MAX_STEPS` contents, so by then the machine has entered a cycle.
pub proof fn lemma_step_limit_is_final(rom: Seq<u8>, s: CpuState, fuel: nat)
    requires
        is_machine_state(s),
        run(rom, s, MAX_STEPS as nat) == Err::<CpuState, EmulatorErr>(EmulatorErr::StepLimitExceeded),
    ensures
        run(rom, s, fuel) == Err::<CpuState, EmulatorErr>(EmulatorErr::StepLimitExceeded),
{
    let (i, j) = lemma_repeat(rom, s);
    assert forall|k: nat| 1 <= k <= fuel implies #[trigger] keeps_running(rom, s, k) by {
        let r = lemma_fold(rom, s, i, j, (k - 1) as nat);
        lemma_limit_means_running(rom, s, MAX_STEPS as nat, r + 1);
        let u = after(rom, s, (k - 1) as nat);
        let v = after(rom, s, r);
        lemma_step_congruent(rom, u, v);
        lemma_one_more(rom, s, (k - 1) as nat);
        lemma_one_more(rom, s, r);
        lemma_step_congruent(rom, step(rom, u)->Ok_0, step(rom, v)->Ok_0);
    }
    lemma_running_means_limit(rom, s, fuel);
}

} // verus!

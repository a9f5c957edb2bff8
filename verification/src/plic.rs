use crate::config::NetMode;
use vstd::prelude::*;

verus! {

/// Base address of the platform-level interrupt controller.
pub const PLIC_BASE: usize = 0xc00_0000;

/// Number of priority bits the controller implements.
pub const PLIC_PRIORITY_BIT: usize = 3;

/// Number of interrupt contexts each hart owns (machine, supervisor, user).
pub const MODE_PER_HART: usize = 3;

/// A privilege mode that has a context on the controller.
pub open spec fn is_context_mode(mode: char) -> bool {
    mode == 'M' || mode == 'S' || mode == 'U'
}

/// Offset of a privilege mode's context within its hart's block of contexts.
pub open spec fn mode_offset(mode: char) -> int {
    if mode == 'M' {
        0
    } else if mode == 'S' {
        1
    } else {
        2
    }
}

/// The controller context of `hartid` in privilege mode `mode`.
pub open spec fn context_of(hartid: int, mode: char) -> int {
    hartid * 3 + mode_offset(mode)
}

/// Context number of `hartid` in `mode` ('M', 'S' or 'U').
pub fn get_context(hartid: usize, mode: char) -> (ctx: usize)
    requires
        is_context_mode(mode),
        hartid * 3 + 2 <= usize::MAX,
    ensures
        ctx == context_of(hartid as int, mode),
{
    let offset: usize = match mode {
        'M' => 0,
        'S' => 1,
        _ => 2,
    };
    hartid * MODE_PER_HART + offset
}

/// A priority level, or a threshold, of the interrupt controller.
#[derive(Clone, Copy, Debug, PartialEq, Eq)]
pub enum PlicPriority {
    /// Threshold that lets every interrupt through.
    Any,
    /// The lowest priority an enabled source can have.
    Lowest,
    /// Threshold that masks every interrupt.
    Never,
}

/// One programming step of the interrupt controller.
#[derive(Clone, Copy, Debug, PartialEq, Eq)]
pub enum PlicOp {
    SetPriority { irq: u16, priority: PlicPriority },
    ClearEnable { context: usize, word: usize },
    SetThreshold { context: usize, priority: PlicPriority },
    Enable { context: usize, irq: u16 },
    Claim { context: usize },
    Complete { context: usize, irq: u16 },
}

/// Number of interrupt sources the kernel gives a priority to.
pub const PLIC_SOURCE_COUNT: u16 = 6;

/// Global set-up: sources 1 to 6 at the lowest priority, in order.
pub open spec fn plic_init_plan() -> Seq<PlicOp> {
    Seq::new(6, |i: int| PlicOp::SetPriority { irq: (i + 1) as u16, priority: PlicPriority::Lowest })
}

/// Global set-up of the interrupt controller.
pub fn init() -> (ops: Vec<PlicOp>)
    ensures
        ops@ == plic_init_plan(),
{
    let mut ops: Vec<PlicOp> = Vec::new();
    let mut intr: u16 = 1;
    while intr <= PLIC_SOURCE_COUNT
        invariant
            1 <= intr <= PLIC_SOURCE_COUNT + 1,
            ops@ == plic_init_plan().take(intr - 1),
        decreases PLIC_SOURCE_COUNT + 1 - intr,
    {
        ops.push(PlicOp::SetPriority { irq: intr, priority: PlicPriority::Lowest });
        proof {
            assert(ops@ =~= plic_init_plan().take(intr as int));
        }
        intr = intr + 1;
    }
    assert(ops@ =~= plic_init_plan());
    ops
}

/// Number of interrupt lines a hart enables: the Ethernet lines 1 to 3,
/// and in asynchronous mode also the DMA lines 4 and 5.
pub open spec fn hart_irq_count(mode: NetMode) -> u16 {
    if mode == NetMode::Async {
        5
    } else {
        3
    }
}

/// Enabling line `irq` in `context` and draining it: enable, claim whatever
/// is pending, complete the line.
pub open spec fn enable_and_drain(context: usize, irq: u16) -> Seq<PlicOp> {
    seq![
        PlicOp::Enable { context, irq },
        PlicOp::Claim { context },
        PlicOp::Complete { context, irq },
    ]
}

/// Enabling and draining lines 1 to `n` in `context`, in order.
pub open spec fn enable_lines(context: usize, n: u16) -> Seq<PlicOp>
    decreases n,
{
    if n == 0 {
        Seq::empty()
    } else {
        enable_lines(context, (n - 1) as u16) + enable_and_drain(context, n)
    }
}

/// Per-hart set-up: the supervisor context is cleared, opened to every
/// priority and has its lines enabled and drained; the user context is
/// cleared; the machine context is closed.
pub open spec fn plic_hart_plan(hart_id: usize, mode: NetMode) -> Seq<PlicOp> {
    let s = context_of(hart_id as int, 'S') as usize;
    seq![
        PlicOp::ClearEnable { context: s, word: 0 },
        PlicOp::SetThreshold { context: s, priority: PlicPriority::Any },
    ] + enable_lines(s, hart_irq_count(mode)) + seq![
        PlicOp::ClearEnable { context: context_of(hart_id as int, 'U') as usize, word: 0 },
        PlicOp::SetThreshold {
            context: context_of(hart_id as int, 'M') as usize,
            priority: PlicPriority::Never,
        },
    ]
}

/// Per-hart set-up of the interrupt controller for `hart_id`.
pub fn init_hart(hart_id: usize, mode: NetMode) -> (ops: Vec<PlicOp>)
    requires
        hart_id * 3 + 2 <= usize::MAX,
    ensures
        ops@ == plic_hart_plan(hart_id, mode),
{
    let context = get_context(hart_id, 'S');
    let mut ops: Vec<PlicOp> = Vec::new();
    ops.push(PlicOp::ClearEnable { context, word: 0 });
    ops.push(PlicOp::SetThreshold { context, priority: PlicPriority::Any });
    let last: u16 = match mode {
        NetMode::Sync => 3,
        NetMode::Async => 5,
    };
    let ghost head = ops@;
    let mut irq: u16 = 1;
    while irq <= last
        invariant
            1 <= irq <= last + 1,
            last == hart_irq_count(mode),
            ops@ == head + enable_lines(context, (irq - 1) as u16),
        decreases last + 1 - irq,
    {
        ops.push(PlicOp::Enable { context, irq });
        ops.push(PlicOp::Claim { context });
        ops.push(PlicOp::Complete { context, irq });
        proof {
            assert(ops@ =~= head + enable_lines(context, irq));
        }
        irq = irq + 1;
    }
    ops.push(PlicOp::ClearEnable { context: get_context(hart_id, 'U'), word: 0 });
    ops.push(PlicOp::SetThreshold { context: get_context(hart_id, 'M'), priority: PlicPriority::Never });
    assert(ops@ =~= plic_hart_plan(hart_id, mode));
    ops
}

/// A claimed interrupt the kernel serves: the network handler runs for
/// `irq`, then `irq` is completed in `context`.
#[derive(Clone, Copy, Debug, PartialEq, Eq)]
pub struct ExternalIrq {
    pub context: usize,
    pub irq: u16,
}

/// Lines the external-interrupt handler serves: 2 to 5, all network.
pub open spec fn served_irq(irq: u16) -> bool {
    2 <= irq <= 5
}

/// The handling of an external interrupt on `hart_id` in `mode`, given what
/// claiming its context returned: a served line is dispatched to the
/// network handler and completed in that context; nothing pending means
/// nothing to do.
pub fn handle_external_interrupt(hart_id: usize, mode: char, claimed: Option<u16>) -> (r: Option<
    ExternalIrq,
>)
    requires
        is_context_mode(mode),
        hart_id * 3 + 2 <= usize::MAX,
        claimed matches Some(irq) ==> served_irq(irq),
    ensures
        r == (match claimed {
            Some(irq) => Some(ExternalIrq { context: context_of(hart_id as int, mode) as usize, irq }),
            None => None,
        }),
{
    let context = get_context(hart_id, mode);
    match claimed {
        Some(irq) => Some(ExternalIrq { context, irq }),
        None => None,
    }
}

/// Distinct (hart, mode) pairs have distinct contexts, and each hart's
/// contexts lie in its own block of three: machine, supervisor, user.
pub proof fn lemma_contexts_distinct(h1: int, m1: char, h2: int, m2: char)
    requires
        is_context_mode(m1),
        is_context_mode(m2),
        h1 >= 0,
        h2 >= 0,
    ensures
        context_of(h1, m1) == context_of(h2, m2) ==> h1 == h2 && m1 == m2,
        3 * h1 <= context_of(h1, m1) < 3 * h1 + 3,
        context_of(h1, 'M') == 3 * h1,
        context_of(h1, 'S') == 3 * h1 + 1,
        context_of(h1, 'U') == 3 * h1 + 2,
{
}

/// The context a programming step addresses, if any.
pub open spec fn op_context(op: PlicOp) -> Option<usize> {
    match op {
        PlicOp::SetPriority { .. } => None,
        PlicOp::ClearEnable { context, .. } => Some(context),
        PlicOp::SetThreshold { context, .. } => Some(context),
        PlicOp::Enable { context, .. } => Some(context),
        PlicOp::Claim { context } => Some(context),
        PlicOp::Complete { context, .. } => Some(context),
    }
}

/// Whether a programming step addresses one of the contexts of `hart_id`.
pub open spec fn addresses_hart(op: PlicOp, hart_id: int) -> bool {
    match op_context(op) {
        Some(c) => 3 * hart_id <= c < 3 * hart_id + 3,
        None => false,
    }
}

/// Enabling lines 1 to `n` takes three steps per line, each addressing
/// `context`, and line `irq` is enabled, claimed and completed at steps
/// `3 * (irq - 1)` to `3 * irq - 1`.
pub proof fn lemma_enable_lines(context: usize, n: u16)
    ensures
        enable_lines(context, n).len() == 3 * n,
        forall|k: int|
            0 <= k < 3 * n ==> op_context(#[trigger] enable_lines(context, n)[k]) == Some(context),
        forall|irq: u16|
            1 <= irq <= n ==> enable_lines(context, n).subrange(3 * (irq - 1), 3 * irq)
                == #[trigger] enable_and_drain(context, irq),
    decreases n,
{
    if n > 0 {
        let prev = enable_lines(context, (n - 1) as u16);
        lemma_enable_lines(context, (n - 1) as u16);
        let all = enable_lines(context, n);
        assert(all == prev + enable_and_drain(context, n));
        assert forall|k: int| 0 <= k < 3 * n implies op_context(#[trigger] all[k]) == Some(context) by {
            if k < 3 * (n - 1) {
                assert(all[k] == prev[k]);
            }
        }
        assert forall|irq: u16| 1 <= irq <= n implies all.subrange(3 * (irq - 1), 3 * irq)
            == #[trigger] enable_and_drain(context, irq) by {
            if irq < n {
                assert(all.subrange(3 * (irq - 1), 3 * irq) =~= prev.subrange(3 * (irq - 1), 3 * irq));
            } else {
                assert(all.subrange(3 * (irq - 1), 3 * irq) =~= enable_and_drain(context, n));
            }
        }
    }
}

/// Per-hart set-up programs only that hart's own contexts, and it enables,
/// claims and completes every line the mode uses, one after the other, in
/// the supervisor context, after opening that context's threshold.
pub proof fn lemma_hart_plan_stays_in_hart(hart_id: usize, mode: NetMode)
    requires
        hart_id * 3 + 2 <= usize::MAX,
    ensures
        plic_hart_plan(hart_id, mode).len() == 4 + 3 * hart_irq_count(mode),
        forall|k: int|
            0 <= k < plic_hart_plan(hart_id, mode).len() ==> addresses_hart(
                #[trigger] plic_hart_plan(hart_id, mode)[k],
                hart_id as int,
            ),
        forall|irq: u16|
            1 <= irq <= hart_irq_count(mode) ==> plic_hart_plan(hart_id, mode).subrange(
                2 + 3 * (irq - 1),
                2 + 3 * irq,
            ) == #[trigger] enable_and_drain(context_of(hart_id as int, 'S') as usize, irq),
{
    let s = context_of(hart_id as int, 'S') as usize;
    let n = hart_irq_count(mode);
    lemma_enable_lines(s, n);
    let plan = plic_hart_plan(hart_id, mode);
    let lines = enable_lines(s, n);
    assert forall|k: int| 0 <= k < plan.len() implies addresses_hart(#[trigger] plan[k], hart_id as int) by {
        if 2 <= k < 2 + 3 * n {
            assert(plan[k] == lines[k - 2]);
        }
    }
    assert forall|irq: u16| 1 <= irq <= n implies plan.subrange(2 + 3 * (irq - 1), 2 + 3 * irq)
        == #[trigger] enable_and_drain(s, irq) by {
        assert(plan.subrange(2 + 3 * (irq - 1), 2 + 3 * irq) =~= lines.subrange(
            3 * (irq - 1),
            3 * irq,
        ));
    }
}

/// The three steps a per-hart plan spends on line `irq`.
pub open spec fn line_steps(plan: Seq<PlicOp>, irq: u16) -> Seq<PlicOp> {
    plan.subrange(2 + 3 * (irq - 1), 2 + 3 * irq)
}

/// Whatever the mode, per-hart set-up of hart `h` first clears the
/// enables of context 3h + 1 (supervisor) and opens its threshold to every
/// priority, and ends by clearing the enables of context 3h + 2 (user) and
/// closing context 3h (machine) to every interrupt; in between it enables,
/// claims and completes lines 1 to 3 (lines 1 to 5 in asynchronous mode)
/// in the supervisor context, so the two modes differ only in the DMA
/// lines.
pub proof fn lemma_hart_plan_frame(h: usize, mode: NetMode)
    requires
        h * 3 + 2 <= usize::MAX,
    ensures
        ({
            let plan = plic_hart_plan(h, mode);
            &&& plan.len() >= 4
            &&& plan[0] == PlicOp::ClearEnable { context: (3 * h + 1) as usize, word: 0 }
            &&& plan[1] == PlicOp::SetThreshold {
                context: (3 * h + 1) as usize,
                priority: PlicPriority::Any,
            }
            &&& plan[plan.len() - 2] == PlicOp::ClearEnable { context: (3 * h + 2) as usize, word: 0 }
            &&& plan[plan.len() - 1] == PlicOp::SetThreshold {
                context: (3 * h) as usize,
                priority: PlicPriority::Never,
            }
        }),
        plic_hart_plan(h, NetMode::Sync).len() == 13,
        plic_hart_plan(h, NetMode::Async).len() == 19,
        forall|irq: u16|
            1 <= irq <= (if mode == NetMode::Async { 5u16 } else { 3u16 }) ==> #[trigger] line_steps(
                plic_hart_plan(h, mode),
                irq,
            ) == seq![
                PlicOp::Enable { context: (3 * h + 1) as usize, irq },
                PlicOp::Claim { context: (3 * h + 1) as usize },
                PlicOp::Complete { context: (3 * h + 1) as usize, irq },
            ],
        plic_hart_plan(h, NetMode::Sync).take(2) == plic_hart_plan(h, NetMode::Async).take(2),
        plic_hart_plan(h, NetMode::Sync).skip(plic_hart_plan(h, NetMode::Sync).len() - 2)
            == plic_hart_plan(h, NetMode::Async).skip(plic_hart_plan(h, NetMode::Async).len() - 2),
{
    lemma_hart_plan_stays_in_hart(h, NetMode::Sync);
    lemma_hart_plan_stays_in_hart(h, NetMode::Async);
    let s = plic_hart_plan(h, NetMode::Sync);
    let a = plic_hart_plan(h, NetMode::Async);
    lemma_hart_plan_stays_in_hart(h, mode);
    let ctx = context_of(h as int, 'S') as usize;
    assert(ctx == (3 * h + 1) as usize);
    assert forall|irq: u16| 1 <= irq <= (if mode == NetMode::Async { 5u16 } else { 3u16 }) implies #[trigger] line_steps(
        plic_hart_plan(h, mode),
        irq,
    ) == seq![
        PlicOp::Enable { context: (3 * h + 1) as usize, irq },
        PlicOp::Claim { context: (3 * h + 1) as usize },
        PlicOp::Complete { context: (3 * h + 1) as usize, irq },
    ] by {
        assert(plic_hart_plan(h, mode).subrange(2 + 3 * (irq - 1), 2 + 3 * irq) == enable_and_drain(ctx, irq));
    }
    assert(s.take(2) =~= a.take(2));
    assert(s.skip(s.len() - 2) =~= a.skip(a.len() - 2));
}

} // verus!

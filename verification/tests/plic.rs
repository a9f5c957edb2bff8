use axi_net::config::NetMode;
use axi_net::plic::{
    get_context, handle_external_interrupt, init, init_hart, ExternalIrq, PlicOp, PlicPriority,
};

#[test]
fn contexts_per_mode() {
    assert_eq!(get_context(0, 'M'), 0);
    assert_eq!(get_context(0, 'S'), 1);
    assert_eq!(get_context(0, 'U'), 2);
    assert_eq!(get_context(2, 'M'), 6);
    assert_eq!(get_context(2, 'S'), 7);
    assert_eq!(get_context(2, 'U'), 8);
}

#[test]
fn contexts_are_distinct() {
    let mut seen = Vec::new();
    for hart in 0..4 {
        for mode in ['M', 'S', 'U'] {
            let c = get_context(hart, mode);
            assert!(!seen.contains(&c));
            seen.push(c);
        }
    }
}

#[test]
fn global_init_sets_six_sources_lowest() {
    let ops = init();
    assert_eq!(ops.len(), 6);
    for (i, op) in ops.iter().enumerate() {
        assert_eq!(*op, PlicOp::SetPriority { irq: (i + 1) as u16, priority: PlicPriority::Lowest });
    }
}

#[test]
fn hart_init_sync() {
    let ops = init_hart(1, NetMode::Sync);
    let s = 4;
    let mut expected = vec![
        PlicOp::ClearEnable { context: s, word: 0 },
        PlicOp::SetThreshold { context: s, priority: PlicPriority::Any },
    ];
    for irq in 1..=3u16 {
        expected.push(PlicOp::Enable { context: s, irq });
        expected.push(PlicOp::Claim { context: s });
        expected.push(PlicOp::Complete { context: s, irq });
    }
    expected.push(PlicOp::ClearEnable { context: 5, word: 0 });
    expected.push(PlicOp::SetThreshold { context: 3, priority: PlicPriority::Never });
    assert_eq!(ops, expected);
}

#[test]
fn hart_init_async_enables_dma_lines() {
    let ops = init_hart(0, NetMode::Async);
    assert_eq!(ops.len(), 4 + 15);
    assert_eq!(ops[2 + 12], PlicOp::Enable { context: 1, irq: 5 });
    assert_eq!(ops[2 + 14], PlicOp::Complete { context: 1, irq: 5 });
    assert_eq!(ops[18], PlicOp::SetThreshold { context: 0, priority: PlicPriority::Never });
}

#[test]
fn external_interrupt_dispatch() {
    assert_eq!(
        handle_external_interrupt(0, 'S', Some(3)),
        Some(ExternalIrq { context: 1, irq: 3 })
    );
    assert_eq!(
        handle_external_interrupt(3, 'S', Some(5)),
        Some(ExternalIrq { context: 10, irq: 5 })
    );
    assert_eq!(handle_external_interrupt(0, 'S', None), None);
}

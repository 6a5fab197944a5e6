//! Tests for trace lowering: inlining behind Enter/Leave markers,
//! alpha-renaming, guard synthesis and boundary trimming.

use ykcore::errors::InvalidTraceError;
use ykcore::sir::{Sir, SirLoc, SirTrace};
use ykcore::tir::{Guard, GuardKind, TirOp, TirTrace};
use ykcore::types::{
    BasicBlock, Body, CallOperand, Constant, Local, LocalDecl, Operand, Place, Rvalue, SerU128,
    Statement, Terminator, Ty, Types, UnsignedIntTy,
};

const CRATE: u64 = 1;
const TY_U8: (u64, u32) = (CRATE, 0);

fn test_types() -> Types {
    Types {
        crate_hash: CRATE,
        types: vec![Ty::UnsignedInt(UnsignedIntTy::U8)],
        thread_tracers: vec![],
    }
}

fn place(l: u32) -> Place {
    Place { local: Local(l), projection: vec![] }
}

fn sd(l: u32) -> Statement {
    Statement::StorageDead(Local(l))
}

fn assign_false(l: u32) -> Statement {
    Statement::Assign(
        place(l),
        Rvalue::Use(Operand::Constant(Constant::Bool(false))),
    )
}

fn assign_use(d: u32, s: u32) -> Statement {
    Statement::Assign(place(d), Rvalue::Use(Operand::Place(place(s))))
}

/// The fixed instruction shape at a trace's stop call site: three locals
/// die, a flag is cleared, one more assignment runs, then the stop routine
/// is entered.
fn tail_block(ret_local: u32, resume: u32) -> BasicBlock {
    BasicBlock::new(
        vec![sd(2), sd(3), sd(4), assign_false(5), assign_use(6, 7)],
        Terminator::Call {
            operand: CallOperand::Fn("stop_tracing".to_string()),
            args: vec![],
            destination: Some((place(ret_local), resume)),
        },
    )
}

/// The fixed shape at the trace's start: one leading storage-dead marker.
fn head_block(next: u32) -> BasicBlock {
    BasicBlock::new(vec![sd(8)], Terminator::Goto(next))
}

fn body(symbol: &str, blocks: Vec<BasicBlock>, nlocals: usize) -> Body {
    Body {
        symbol_name: symbol.to_string(),
        blocks,
        flags: 0,
        trace_inputs_local: Some(Local(1)),
        local_decls: (0..nlocals).map(|_| LocalDecl { ty: TY_U8 }).collect(),
        offsets: (0..nlocals).map(|i| 8 * i).collect(),
        layout: (8 * nlocals, 8),
    }
}

fn stop_tracing_body() -> Body {
    body(
        "stop_tracing",
        vec![BasicBlock::new(vec![], Terminator::Return)],
        1,
    )
}

fn loc(sym: &str, bb: u32) -> SirLoc {
    SirLoc::new(sym.to_string(), bb)
}

// Some work to trace.
fn work(x: usize, y: usize) -> usize {
    let mut res = 0;
    while res < y {
        res += x;
    }
    res
}

fn work_sir() -> Sir {
    let mut sir = Sir::new();
    assert!(sir.add_types(test_types()));
    let w = body(
        "work",
        vec![
            head_block(1),
            BasicBlock::new(
                vec![assign_use(2, 3)],
                Terminator::SwitchInt {
                    discr: place(4),
                    values: vec![SerU128::new(0)],
                    target_bbs: vec![2],
                    otherwise_bb: 1,
                },
            ),
            tail_block(6, 3),
        ],
        9,
    );
    assert!(sir.add_body(w));
    assert!(sir.add_body(stop_tracing_body()));
    sir
}

#[test]
fn nonempty_tir_trace() {
    let res = work(3, 13);
    let sir = work_sir();
    let trace = SirTrace::new(vec![
        loc("work", 0),
        loc("work", 1),
        loc("work", 1),
        loc("work", 1),
        loc("work", 2),
    ]);
    let tir_trace = TirTrace::new(&sir, &trace).unwrap();
    assert_eq!(res, 15);
    assert!(tir_trace.len() > 0);
}

#[test]
fn loop_guards_match_taken_branches() {
    // Each loop-condition check contributes one guard for the branch the
    // trace actually took, so the trace grows with the iteration count.
    let sir = work_sir();
    let mut locs = vec![loc("work", 0)];
    for _ in 0..3 {
        locs.push(loc("work", 1));
    }
    locs.push(loc("work", 2));
    let trace = SirTrace::new(locs);
    let tir_trace = TirTrace::new(&sir, &trace).unwrap();
    // Three visits of the loop block: an assignment and a guard each.
    assert_eq!(tir_trace.len(), 6);
    // The first two checks stayed in the loop: the fallback edge excludes
    // every listed case value. The last one left it on the listed value.
    let other = TirOp::Guard(Guard {
        val: place(4),
        kind: GuardKind::OtherInteger(vec![0]),
    });
    let taken = TirOp::Guard(Guard { val: place(4), kind: GuardKind::Integer(0) });
    assert_eq!(*tir_trace.op(1), other);
    assert_eq!(*tir_trace.op(3), other);
    assert_eq!(*tir_trace.op(5), taken);
    assert_eq!(*tir_trace.inputs(), Some(Local(1)));

    // Stopping after more iterations lowers to a strictly longer trace.
    let mut longer = vec![loc("work", 0)];
    for _ in 0..5 {
        longer.push(loc("work", 1));
    }
    longer.push(loc("work", 2));
    let more = TirTrace::new(&sir, &SirTrace::new(longer)).unwrap();
    assert!(tir_trace.len() < more.len());
    assert_eq!(more.len(), 10);
}

fn switch_sir() -> Sir {
    let mut sir = Sir::new();
    assert!(sir.add_types(test_types()));
    let sw = body(
        "sw",
        vec![
            head_block(1),
            BasicBlock::new(
                vec![],
                Terminator::SwitchInt {
                    discr: place(4),
                    values: vec![SerU128::new(5), SerU128::new(7)],
                    target_bbs: vec![2, 3],
                    otherwise_bb: 4,
                },
            ),
            tail_block(6, 5),
            tail_block(6, 5),
            tail_block(6, 5),
        ],
        9,
    );
    assert!(sir.add_body(sw));
    assert!(sir.add_body(stop_tracing_body()));
    sir
}

#[test]
fn guard_fidelity_taken_case() {
    // A trace that proceeds to a listed target guards on that case's
    // exact value.
    let sir = switch_sir();
    let trace = SirTrace::new(vec![loc("sw", 0), loc("sw", 1), loc("sw", 3)]);
    let tir_trace = TirTrace::new(&sir, &trace).unwrap();
    assert_eq!(tir_trace.len(), 1);
    let expected = TirOp::Guard(Guard { val: place(4), kind: GuardKind::Integer(7) });
    assert_eq!(*tir_trace.op(0), expected);
}

#[test]
fn guard_fidelity_otherwise_edge() {
    // A trace that takes the fallback edge must exclude every listed
    // value, not merely assert the fallback target.
    let sir = switch_sir();
    let trace = SirTrace::new(vec![loc("sw", 0), loc("sw", 1), loc("sw", 4)]);
    let tir_trace = TirTrace::new(&sir, &trace).unwrap();
    assert_eq!(tir_trace.len(), 1);
    let expected = TirOp::Guard(Guard {
        val: place(4),
        kind: GuardKind::OtherInteger(vec![5, 7]),
    });
    assert_eq!(*tir_trace.op(0), expected);
}

#[test]
fn assert_terminator_guards_on_expected() {
    let mut sir = Sir::new();
    assert!(sir.add_types(test_types()));
    let b = body(
        "asserting",
        vec![
            head_block(1),
            BasicBlock::new(
                vec![],
                Terminator::Assert { cond: place(3), expected: true, target_bb: 2 },
            ),
            tail_block(6, 3),
        ],
        9,
    );
    assert!(sir.add_body(b));
    assert!(sir.add_body(stop_tracing_body()));
    let trace = SirTrace::new(vec![
        loc("asserting", 0),
        loc("asserting", 1),
        loc("asserting", 2),
    ]);
    let tir_trace = TirTrace::new(&sir, &trace).unwrap();
    assert_eq!(tir_trace.len(), 1);
    let expected = TirOp::Guard(Guard { val: place(3), kind: GuardKind::Boolean(true) });
    assert_eq!(*tir_trace.op(0), expected);
}

#[test]
fn inlined_call_renames_locals() {
    // A call with available SIR appears inlined behind Enter/Leave: the
    // callee's locals are offset by the accumulator at entry (9 here, the
    // caller's local count), and its local 0 resolves to the caller's
    // destination place, never to a renamed local 0.
    let mut sir = Sir::new();
    assert!(sir.add_types(test_types()));
    let outer = body(
        "main_b",
        vec![
            head_block(1),
            BasicBlock::new(
                vec![],
                Terminator::Call {
                    operand: CallOperand::Fn("inner".to_string()),
                    args: vec![Operand::Place(place(2))],
                    destination: Some((place(3), 2)),
                },
            ),
            tail_block(6, 3),
        ],
        9,
    );
    assert!(sir.add_body(outer));
    let inner = body(
        "inner",
        vec![BasicBlock::new(
            vec![assign_use(0, 1), sd(2)],
            Terminator::Return,
        )],
        3,
    );
    assert!(sir.add_body(inner));
    assert!(sir.add_body(stop_tracing_body()));
    let trace = SirTrace::new(vec![
        loc("main_b", 0),
        loc("main_b", 1),
        loc("inner", 0),
        loc("main_b", 2),
    ]);
    let tir_trace = TirTrace::new(&sir, &trace).unwrap();
    assert_eq!(tir_trace.len(), 4);
    assert_eq!(
        *tir_trace.op(0),
        TirOp::Statement(Statement::Enter(
            CallOperand::Fn("inner".to_string()),
            vec![Operand::Place(place(2))],
            Some(place(3)),
            9,
        ))
    );
    // Local 0 became the caller's destination, local 1 the contiguous
    // renamed index 9 + 1.
    assert_eq!(*tir_trace.op(1), TirOp::Statement(assign_use(3, 10)));
    assert_eq!(
        *tir_trace.op(2),
        TirOp::Statement(Statement::StorageDead(Local(11)))
    );
    assert_eq!(*tir_trace.op(3), TirOp::Statement(Statement::Leave));
    // The callee's argument slot got a declaration under its renamed
    // index.
    assert!(tir_trace.local_decls.contains_key(&10));
}

#[test]
fn unknown_callee_becomes_native_call() {
    // A called symbol without SIR cannot be inlined: the trace carries a
    // native call statement instead of an Enter marker.
    let mut sir = Sir::new();
    assert!(sir.add_types(test_types()));
    let outer = body(
        "caller_b",
        vec![
            head_block(1),
            BasicBlock::new(
                vec![],
                Terminator::Call {
                    operand: CallOperand::Fn("native_fn".to_string()),
                    args: vec![],
                    destination: Some((place(5), 2)),
                },
            ),
            tail_block(6, 3),
        ],
        9,
    );
    assert!(sir.add_body(outer));
    assert!(sir.add_body(stop_tracing_body()));
    let trace = SirTrace::new(vec![
        loc("caller_b", 0),
        loc("caller_b", 1),
        loc("caller_b", 2),
    ]);
    let tir_trace = TirTrace::new(&sir, &trace).unwrap();
    assert_eq!(tir_trace.len(), 1);
    assert_eq!(
        *tir_trace.op(0),
        TirOp::Statement(Statement::Call(
            CallOperand::Fn("native_fn".to_string()),
            vec![],
            Some(place(5)),
        ))
    );
}

#[test]
fn no_sir_for_symbol_is_reported() {
    // The one recoverable lowering error: a traced location in a symbol
    // for which no SIR is available.
    let sir = Sir::new();
    let trace = SirTrace::new(vec![loc("nothere", 0)]);
    match TirTrace::new(&sir, &trace) {
        Err(InvalidTraceError::NoSir(s)) => assert_eq!(s, "nothere"),
        _ => panic!("expected a missing-SIR error"),
    }
}

#[test]
fn test_in_bounds_trace_indices() {
    // Accessing locations 0 through len - 1 of a recorded trace works.
    let trace = SirTrace::new(vec![loc("work", 0), loc("work", 1), loc("work", 2)]);
    let mut i = 0;
    while i < trace.raw_len() {
        let l = trace.raw_loc(i);
        assert_eq!(l.symbol_name, "work");
        i += 1;
    }
}

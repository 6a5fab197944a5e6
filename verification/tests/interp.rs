//! Tests for the SIR interpreter: direct and indirect stores, references,
//! tuple projections and call/return, each run against caller-provided
//! bytes reached through the trace-inputs pointer.

use ykcore::sir::Sir;
use ykcore::types::{
    BasicBlock, Body, CallOperand, Constant, ConstantInt, Fields, IPlace, Local, LocalDecl,
    Operand, Place, Ptr, SizeAndAlign, Statement, Terminator, TupleTy, Ty, Types, UnsignedInt,
};
use ykcore::interp::SIRInterpreter;

const CRATE: u64 = 1;
const TY_U8: (u64, u32) = (CRATE, 0);
const TY_REF: (u64, u32) = (CRATE, 1);
const TY_TUP3: (u64, u32) = (CRATE, 2);
const TY_TUP2: (u64, u32) = (CRATE, 3);

/// The type table every interpreter test uses: a byte, a reference, and
/// two small tuples of bytes.
fn test_types() -> Types {
    Types {
        crate_hash: CRATE,
        types: vec![
            Ty::UnsignedInt(ykcore::types::UnsignedIntTy::U8),
            Ty::Ref(TY_U8),
            Ty::Tuple(TupleTy {
                fields: Fields {
                    offsets: vec![0, 1, 2],
                    tys: vec![TY_U8, TY_U8, TY_U8],
                },
                size_align: SizeAndAlign { align: 1, size: 3 },
            }),
            Ty::Tuple(TupleTy {
                fields: Fields { offsets: vec![0, 1], tys: vec![TY_U8, TY_U8] },
                size_align: SizeAndAlign { align: 8, size: 2 },
            }),
        ],
        thread_tracers: vec![],
    }
}

fn decls(tys: &[(u64, u32)]) -> Vec<LocalDecl> {
    tys.iter().map(|t| LocalDecl { ty: *t }).collect()
}

/// A body whose locals each get an 8-byte slot, which every type in these
/// tests fits.
fn body(
    symbol: &str,
    blocks: Vec<BasicBlock>,
    local_tys: &[(u64, u32)],
) -> Body {
    let offsets: Vec<usize> = (0..local_tys.len()).map(|i| 8 * i).collect();
    let size = 8 * local_tys.len();
    Body {
        symbol_name: symbol.to_string(),
        blocks,
        flags: 0,
        trace_inputs_local: Some(Local(1)),
        local_decls: decls(local_tys),
        offsets,
        layout: (size, 8),
    }
}

fn val(l: u32, off: u32, ty: (u64, u32)) -> IPlace {
    IPlace::Val { local: Local(l), off, ty }
}

fn ind(l: u32, ptr_off: u32, off: u32, ty: (u64, u32)) -> IPlace {
    IPlace::Indirect { ptr: Ptr { local: Local(l), off: ptr_off }, off, ty }
}

fn const_u8(v: u8) -> IPlace {
    IPlace::Const {
        val: Constant::Int(ConstantInt::UnsignedInt(UnsignedInt::U8(v))),
        ty: TY_U8,
    }
}

fn interp(sir: &Sir, fname: &str, tio: Vec<u8>) -> Vec<u8> {
    let b = sir.body(&fname.to_string()).unwrap();
    let mut si = SIRInterpreter::new(b);
    si.set_trace_inputs(tio);
    si.interpret(sir, b);
    si.trace_inputs()
}

#[test]
fn simple() {
    // fn simple(io: &mut IO(u8, u8)) { let a = 3; io.1 = a; }
    let mut sir = Sir::new();
    assert!(sir.add_types(test_types()));
    let b = body(
        "simple",
        vec![BasicBlock::new(
            vec![
                Statement::Store(val(2, 0, TY_U8), const_u8(3)),
                Statement::Store(ind(1, 0, 1, TY_U8), val(2, 0, TY_U8)),
            ],
            Terminator::Return,
        )],
        &[TY_U8, TY_REF, TY_U8],
    );
    assert!(sir.add_body(b));
    let tio = interp(&sir, "simple", vec![0, 0]);
    assert_eq!(tio[1], 3);
}

#[test]
fn tuple() {
    // fn func_tuple(io: &mut IO((u8, u8, u8))) {
    //     let a = io.0; let b = a.2; (io.0).1 = b;
    // }
    let mut sir = Sir::new();
    assert!(sir.add_types(test_types()));
    let b = body(
        "func_tuple",
        vec![BasicBlock::new(
            vec![
                Statement::Store(val(2, 0, TY_TUP3), ind(1, 0, 0, TY_TUP3)),
                Statement::Store(val(3, 0, TY_U8), val(2, 2, TY_U8)),
                Statement::Store(ind(1, 0, 1, TY_U8), val(3, 0, TY_U8)),
            ],
            Terminator::Return,
        )],
        &[TY_U8, TY_REF, TY_TUP3, TY_U8],
    );
    assert!(sir.add_body(b));
    let tio = interp(&sir, "func_tuple", vec![1, 2, 3]);
    assert_eq!(tio, vec![1, 3, 3]);
}

#[test]
fn reference() {
    // fn func_ref(io: &mut IO(u8, u8)) { let a = 5u8; let b = &a; io.1 = *b; }
    let mut sir = Sir::new();
    assert!(sir.add_types(test_types()));
    let b = body(
        "func_ref",
        vec![BasicBlock::new(
            vec![
                Statement::Store(val(2, 0, TY_U8), const_u8(5)),
                Statement::MkRef(val(3, 0, TY_REF), val(2, 0, TY_U8)),
                Statement::Store(ind(1, 0, 1, TY_U8), ind(3, 0, 0, TY_U8)),
            ],
            Terminator::Return,
        )],
        &[TY_U8, TY_REF, TY_U8, TY_REF],
    );
    assert!(sir.add_body(b));
    let tio = interp(&sir, "func_ref", vec![5, 0]);
    assert_eq!(tio[1], 5);
}

#[test]
fn tupleref() {
    // fn func_tupleref(io: &mut IO((u8, u8))) {
    //     let a = io.0; (io.0).1 = 5; let b = &a; (io.0).0 = b.1;
    // }
    let mut sir = Sir::new();
    assert!(sir.add_types(test_types()));
    let b = body(
        "func_tupleref",
        vec![BasicBlock::new(
            vec![
                Statement::Store(val(2, 0, TY_TUP2), ind(1, 0, 0, TY_TUP2)),
                Statement::Store(ind(1, 0, 1, TY_U8), const_u8(5)),
                Statement::MkRef(val(3, 0, TY_REF), val(2, 0, TY_TUP2)),
                Statement::Store(ind(1, 0, 0, TY_U8), ind(3, 0, 1, TY_U8)),
            ],
            Terminator::Return,
        )],
        &[TY_U8, TY_REF, TY_TUP2, TY_REF],
    );
    assert!(sir.add_body(b));
    let tio = interp(&sir, "func_tupleref", vec![0, 3]);
    assert_eq!(tio, vec![3, 5]);
}

#[test]
fn doubleref() {
    // fn func_doubleref(io: &mut IO((u8, u8))) { let a = &io.0; (io.0).0 = a.1; }
    let mut sir = Sir::new();
    assert!(sir.add_types(test_types()));
    let b = body(
        "func_doubleref",
        vec![BasicBlock::new(
            vec![
                Statement::MkRef(val(2, 0, TY_REF), ind(1, 0, 0, TY_TUP2)),
                Statement::Store(ind(1, 0, 0, TY_U8), ind(2, 0, 1, TY_U8)),
            ],
            Terminator::Return,
        )],
        &[TY_U8, TY_REF, TY_REF],
    );
    assert!(sir.add_body(b));
    let tio = interp(&sir, "func_doubleref", vec![0, 3]);
    assert_eq!(tio, vec![3, 3]);
}

#[test]
fn call() {
    // fn foo(i: u8) -> u8 { i }
    // fn func_call(io: &mut IO(u8, u8)) { let a = foo(5); io.0 = a; }
    let mut sir = Sir::new();
    assert!(sir.add_types(test_types()));
    let foo = body(
        "foo",
        vec![BasicBlock::new(
            vec![Statement::Store(val(0, 0, TY_U8), val(1, 0, TY_U8))],
            Terminator::Return,
        )],
        &[TY_U8, TY_U8],
    );
    assert!(sir.add_body(foo));
    let caller = body(
        "func_call",
        vec![
            BasicBlock::new(
                vec![],
                Terminator::Call {
                    operand: CallOperand::Fn("foo".to_string()),
                    args: vec![Operand::Constant(Constant::Int(
                        ConstantInt::UnsignedInt(UnsignedInt::U8(5)),
                    ))],
                    destination: Some((
                        Place { local: Local(2), projection: vec![] },
                        1,
                    )),
                },
            ),
            BasicBlock::new(
                vec![Statement::Store(ind(1, 0, 0, TY_U8), val(2, 0, TY_U8))],
                Terminator::Return,
            ),
        ],
        &[TY_U8, TY_REF, TY_U8],
    );
    assert!(sir.add_body(caller));
    let tio = interp(&sir, "func_call", vec![0, 0]);
    assert_eq!(tio[0], 5);
}

#[test]
fn call_with_local_argument() {
    // A call whose argument is a bare local of the caller: the callee must
    // see the caller's value, and its result must land in the caller's
    // destination.
    let mut sir = Sir::new();
    assert!(sir.add_types(test_types()));
    let id = body(
        "ident",
        vec![BasicBlock::new(
            vec![Statement::Store(val(0, 0, TY_U8), val(1, 0, TY_U8))],
            Terminator::Return,
        )],
        &[TY_U8, TY_U8],
    );
    assert!(sir.add_body(id));
    let caller = body(
        "caller",
        vec![
            BasicBlock::new(
                vec![Statement::Store(val(2, 0, TY_U8), const_u8(42))],
                Terminator::Call {
                    operand: CallOperand::Fn("ident".to_string()),
                    args: vec![Operand::Place(Place {
                        local: Local(2),
                        projection: vec![],
                    })],
                    destination: Some((
                        Place { local: Local(3), projection: vec![] },
                        1,
                    )),
                },
            ),
            BasicBlock::new(
                vec![Statement::Store(ind(1, 0, 1, TY_U8), val(3, 0, TY_U8))],
                Terminator::Return,
            ),
        ],
        &[TY_U8, TY_REF, TY_U8, TY_U8],
    );
    assert!(sir.add_body(caller));
    let tio = interp(&sir, "caller", vec![0, 0]);
    assert_eq!(tio, vec![0, 42]);
}

#[test]
fn layout_gives_each_local_a_disjoint_slot() {
    let mut sir = Sir::new();
    assert!(sir.add_types(test_types()));
    let ds = decls(&[TY_U8, TY_REF, TY_TUP3, TY_U8]);
    let (offsets, size, align) = ykcore::interp::layout_locals(&sir, &ds).unwrap();
    assert_eq!(offsets, vec![0, 8, 16, 19]);
    assert_eq!(size, 24);
    assert_eq!(align, 8);
}

#[test]
fn layout_rejects_unresolvable_types() {
    let sir = Sir::new();
    let ds = decls(&[(9, 0)]);
    assert!(ykcore::interp::layout_locals(&sir, &ds).is_none());
}

#[test]
fn interpret_with_computed_layout() {
    // A body laid out by the library itself behaves like one laid out by
    // hand: the computed offsets drive the same store.
    let mut sir = Sir::new();
    assert!(sir.add_types(test_types()));
    let ds = decls(&[TY_U8, TY_REF, TY_U8]);
    let (offsets, size, align) = ykcore::interp::layout_locals(&sir, &ds).unwrap();
    let b = Body {
        symbol_name: "computed".to_string(),
        blocks: vec![BasicBlock::new(
            vec![Statement::Store(ind(1, 0, 1, TY_U8), const_u8(3))],
            Terminator::Return,
        )],
        flags: 0,
        trace_inputs_local: Some(Local(1)),
        local_decls: ds,
        offsets,
        layout: (size, align),
    };
    assert!(sir.add_body(b));
    let tio = interp(&sir, "computed", vec![0, 0]);
    assert_eq!(tio, vec![0, 3]);
}

#[test]
fn trace_debug_body_is_skipped() {
    // A body flagged as a tracing debug marker is not executed at all.
    let mut sir = Sir::new();
    assert!(sir.add_types(test_types()));
    let mut b = body(
        "dbg",
        vec![BasicBlock::new(
            vec![Statement::Store(ind(1, 0, 0, TY_U8), const_u8(9))],
            Terminator::Return,
        )],
        &[TY_U8, TY_REF],
    );
    b.flags = ykcore::bodyflags::TRACE_DEBUG;
    assert!(sir.add_body(b));
    let tio = interp(&sir, "dbg", vec![7]);
    assert_eq!(tio, vec![7]);
}

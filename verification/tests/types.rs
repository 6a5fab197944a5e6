//! Tests for the IR data model: 128-bit constants, casts, sizes and the
//! locals a statement touches.

use ykcore::types::{
    BasicBlock, Constant, ConstantInt, Fields, Local, Operand, Place, Rvalue, SerI128, SerU128,
    SignedInt, SignedIntTy, SizeAndAlign, Statement, StructTy, Terminator, TupleTy, Ty,
    UnsignedInt, UnsignedIntTy,
};

#[test]
fn seru128_round_trip() {
    let val: u128 = u128::MAX - 427819;
    assert_eq!(SerU128::new(val).val(), val);
}

#[test]
fn seri128_round_trip() {
    let val = i128::MIN + 77;
    assert_eq!(SerI128::new(val).val(), val);
}

#[test]
fn const_u8_from_bits() {
    let v = 233;
    let cst = ConstantInt::u8_from_bits(v as u128);
    assert_eq!(cst, ConstantInt::UnsignedInt(UnsignedInt::U8(v)));
}

#[test]
fn const_i32_from_bits() {
    let v = -42i32;
    let cst = ConstantInt::i32_from_bits(v as u128);
    assert_eq!(cst, ConstantInt::SignedInt(SignedInt::I32(v)));
}

#[test]
fn const_u64_from_bits() {
    let v = u64::MAX;
    let cst = ConstantInt::u64_from_bits(v as u128);
    assert_eq!(cst, ConstantInt::UnsignedInt(UnsignedInt::U64(v)));
}

#[test]
fn const_i128_from_bits() {
    let v = -100001i128;
    let cst = ConstantInt::i128_from_bits(v as u128);
    match &cst {
        ConstantInt::SignedInt(SignedInt::I128(seri128)) => assert_eq!(seri128.val(), v),
        _ => panic!(),
    }
}

#[test]
fn primitive_sizes_and_aligns() {
    assert_eq!(Ty::UnsignedInt(UnsignedIntTy::U8).size(), 1);
    assert_eq!(Ty::UnsignedInt(UnsignedIntTy::U16).size(), 2);
    assert_eq!(Ty::UnsignedInt(UnsignedIntTy::U32).size(), 4);
    assert_eq!(Ty::UnsignedInt(UnsignedIntTy::U64).size(), 8);
    assert_eq!(Ty::UnsignedInt(UnsignedIntTy::Usize).size(), 8);
    assert_eq!(Ty::UnsignedInt(UnsignedIntTy::U128).size(), 16);
    assert_eq!(Ty::SignedInt(SignedIntTy::I8).size(), 1);
    assert_eq!(Ty::SignedInt(SignedIntTy::Isize).align(), 8);
    assert_eq!(Ty::Bool.size(), 1);
    assert_eq!(Ty::Bool.align(), 1);
    assert_eq!(Ty::Ref((0, 0)).size(), 8);
    assert_eq!(Ty::Ref((0, 0)).align(), 8);
}

#[test]
fn aggregate_sizes_from_recorded_layout() {
    let tup = Ty::Tuple(TupleTy {
        fields: Fields { offsets: vec![0, 1, 2], tys: vec![(1, 0), (1, 0), (1, 0)] },
        size_align: SizeAndAlign { align: 1, size: 3 },
    });
    assert_eq!(tup.size(), 3);
    assert_eq!(tup.align(), 1);
    let st = Ty::Struct(StructTy {
        fields: Fields { offsets: vec![0, 8], tys: vec![(1, 1), (1, 0)] },
        size_align: SizeAndAlign { align: 8, size: 16 },
    });
    assert_eq!(st.size(), 16);
    assert_eq!(st.align(), 8);
}

#[test]
fn i64_cast_sign_extends_and_truncates() {
    let minus_one = ConstantInt::SignedInt(SignedInt::I8(-1));
    assert_eq!(minus_one.i64_cast(), -1i64);
    let big = ConstantInt::UnsignedInt(UnsignedInt::U64(u64::MAX));
    assert_eq!(big.i64_cast(), -1i64);
    let small = ConstantInt::UnsignedInt(UnsignedInt::U16(513));
    assert_eq!(small.i64_cast(), 513i64);
    assert_eq!(Constant::Bool(true).i64_cast(), 1i64);
    assert_eq!(Constant::Bool(false).i64_cast(), 0i64);
    assert_eq!(Constant::Int(minus_one).i64_cast(), -1i64);
}

#[test]
fn bool_constant_conversion() {
    assert_eq!(
        ConstantInt::from(true),
        ConstantInt::UnsignedInt(UnsignedInt::Usize(1))
    );
    assert_eq!(
        ConstantInt::from(false),
        ConstantInt::UnsignedInt(UnsignedInt::Usize(0))
    );
}

fn place(l: u32) -> Place {
    Place { local: Local(l), projection: vec![] }
}

#[test]
fn assign_locals_are_reported_in_order() {
    let st = Statement::Assign(
        place(7),
        Rvalue::BinaryOp(
            ykcore::types::BinOp::Add,
            Operand::Place(place(3)),
            Operand::Place(place(4)),
        ),
    );
    assert_eq!(st.maybe_defined_locals(), vec![Local(7)]);
    assert_eq!(st.used_locals(), vec![Local(3), Local(4), Local(7)]);
    assert_eq!(
        st.referenced_locals(),
        vec![Local(7), Local(3), Local(4), Local(7)]
    );
}

#[test]
fn enter_defines_renamed_argument_slots() {
    let st = Statement::Enter(
        ykcore::types::CallOperand::Fn("callee".to_string()),
        vec![Operand::Place(place(2)), Operand::Constant(Constant::Bool(true))],
        Some(place(3)),
        10,
    );
    // Renamed argument slots skip the callee's return slot.
    assert_eq!(st.maybe_defined_locals(), vec![Local(11), Local(12)]);
    // Enter itself uses nothing; the inlined statements do instead.
    assert_eq!(st.used_locals(), vec![]);
}

#[test]
fn call_statement_uses_arguments() {
    let st = Statement::Call(
        ykcore::types::CallOperand::Unknown,
        vec![Operand::Place(place(5)), Operand::Place(place(6))],
        Some(place(2)),
    );
    assert_eq!(st.maybe_defined_locals(), vec![Local(2)]);
    assert_eq!(st.used_locals(), vec![Local(5), Local(6)]);
}

#[test]
fn rvalue_ref_uses_place() {
    let rv = Rvalue::Ref(place(9));
    let mut out: Vec<Local> = vec![Local(1)];
    rv.push_used_locals(&mut out);
    assert_eq!(out, vec![Local(1), Local(9)]);
}

#[test]
fn call_operand_symbol() {
    let f = ykcore::types::CallOperand::Fn("a_symbol".to_string());
    assert_eq!(f.symbol(), Some("a_symbol"));
    assert_eq!(ykcore::types::CallOperand::Unknown.symbol(), None);
}

#[test]
fn basic_block_new_keeps_parts() {
    let bb = BasicBlock::new(vec![Statement::Nop], Terminator::Return);
    assert_eq!(bb.stmts, vec![Statement::Nop]);
    assert_eq!(bb.term, Terminator::Return);
}

#[test]
fn more_from_bits_widths() {
    assert_eq!(
        ConstantInt::u16_from_bits(65535),
        ConstantInt::UnsignedInt(UnsignedInt::U16(65535))
    );
    assert_eq!(
        ConstantInt::usize_from_bits(12345),
        ConstantInt::UnsignedInt(UnsignedInt::Usize(12345))
    );
    assert_eq!(
        ConstantInt::isize_from_bits((-7isize) as u128),
        ConstantInt::SignedInt(SignedInt::Isize(-7))
    );
    match ConstantInt::u128_from_bits(u128::MAX) {
        ConstantInt::UnsignedInt(UnsignedInt::U128(v)) => assert_eq!(v.val(), u128::MAX),
        _ => panic!(),
    }
}

#[test]
fn body_flag_bits_are_distinct() {
    assert_eq!(ykcore::bodyflags::TRACE_HEAD, 1);
    assert_eq!(ykcore::bodyflags::TRACE_TAIL, 2);
    assert_eq!(ykcore::bodyflags::DO_NOT_TRACE, 4);
    assert_eq!(ykcore::bodyflags::TRACE_DEBUG, 8);
}

#[test]
fn trace_debug_is_a_marker_only() {
    // Recognised by the IR-producing compiler; at runtime it does nothing.
    ykcore::trace_debug("a message");
}

#[test]
fn conversions_from_locals() {
    let p = Place::from(Local(4));
    assert_eq!(p.local, Local(4));
    assert!(p.projection.is_empty());
    match Operand::from(Local(4)) {
        Operand::Place(q) => assert_eq!(q, p),
        Operand::Constant(_) => panic!(),
    }
    match Rvalue::from(Local(4)) {
        Rvalue::Use(Operand::Place(q)) => assert_eq!(q, p),
        _ => panic!(),
    }
    match Operand::from(p) {
        Operand::Place(q) => assert_eq!(q.local, Local(4)),
        Operand::Constant(_) => panic!(),
    }
}

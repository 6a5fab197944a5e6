//! Conceptually this module takes an ordered collection of SIR block
//! locations and converts it into a Tracing IR (TIR) trace using the SIR in
//! the body registry.

use vstd::prelude::*;
use vstd::string::StrSliceExecFns;

use crate::errors::InvalidTraceError;
use crate::sir::{Sir, SirLoc, SirTrace};
use crate::types::{
    Body, CallOperand, CallOperandView, Constant, ConstantView, Local, LocalDecl, Operand,
    OperandView, Place, PlaceView, Rvalue, RvalueView, SerU128, Statement, StatementView,
    Terminator,
};
use std::collections::HashMap;

verus! {

/// A guard states the assumptions from its position in a trace onward.
#[derive(PartialEq, Eq, Debug)]
pub enum GuardKind {
    /// The value must be equal to an integer constant.
    Integer(u128),
    /// The value must not be a member of the specified collection of
    /// integers. This is necessary due to the "otherwise" semantics of the
    /// `SwitchInt` terminator in SIR.
    OtherInteger(Vec<u128>),
    /// The value must equal a Boolean constant.
    Boolean(bool),
}

/// Mathematical image of a `GuardKind`.
pub enum GuardKindView {
    Integer(u128),
    OtherInteger(Seq<u128>),
    Boolean(bool),
}

impl View for GuardKind {
    type V = GuardKindView;

    open spec fn view(&self) -> GuardKindView {
        match self {
            GuardKind::Integer(v) => GuardKindView::Integer(*v),
            GuardKind::OtherInteger(vs) => GuardKindView::OtherInteger(vs@),
            GuardKind::Boolean(b) => GuardKindView::Boolean(*b),
        }
    }
}

impl DeepView for GuardKind {
    type V = GuardKindView;

    open spec fn deep_view(&self) -> GuardKindView {
        self.view()
    }
}

/// A guard: a place to check and the requirement upon it for the recorded
/// path to remain valid.
#[derive(PartialEq, Eq, Debug)]
pub struct Guard {
    /// The value to be checked if the guard is to pass.
    pub val: Place,
    /// The requirement upon `val` for the guard to pass.
    pub kind: GuardKind,
}

/// Mathematical image of a `Guard`.
pub struct GuardView {
    pub val: PlaceView,
    pub kind: GuardKindView,
}

impl View for Guard {
    type V = GuardView;

    open spec fn view(&self) -> GuardView {
        GuardView { val: self.val@, kind: self.kind@ }
    }
}

impl DeepView for Guard {
    type V = GuardView;

    open spec fn deep_view(&self) -> GuardView {
        self.view()
    }
}

/// A TIR operation. A collection of these makes a TIR trace.
#[derive(PartialEq, Eq, Debug)]
pub enum TirOp {
    Statement(Statement),
    Guard(Guard),
}

/// Mathematical image of a `TirOp`.
pub enum TirOpView {
    Statement(StatementView),
    Guard(GuardView),
}

impl View for TirOp {
    type V = TirOpView;

    open spec fn view(&self) -> TirOpView {
        match self {
            TirOp::Statement(st) => TirOpView::Statement(st@),
            TirOp::Guard(gd) => TirOpView::Guard(gd@),
        }
    }
}

impl DeepView for TirOp {
    type V = TirOpView;

    open spec fn deep_view(&self) -> TirOpView {
        self.view()
    }
}

/// Mathematical state of the variable renamer: the stack of offsets of the
/// currently open inlined calls, the current offset, the accumulator of all
/// locals consumed so far, the stack of destination places standing in for
/// the callees' local 0, and the declarations of every local referenced so
/// far, keyed by renamed index.
pub struct RenView {
    pub stack: Seq<u32>,
    pub offset: u32,
    pub acc: Option<u32>,
    pub returns: Seq<PlaceView>,
    pub used: Map<u32, LocalDecl>,
}

/// Renaming a local adds the current offset to its index and records its
/// declaration; this is defined when the sum fits and the local has a
/// declaration in the body.
pub open spec fn rn_local_ok(r: RenView, l: Local, b: Body) -> bool {
    l.0 + r.offset <= u32::MAX && (l.0 as int) < b.local_decls@.len()
}

pub open spec fn rn_local(r: RenView, l: Local, b: Body) -> (RenView, Local) {
    let renamed = Local((l.0 + r.offset) as u32);
    (
        RenView { used: r.used.insert(renamed.0, b.local_decls@[l.0 as int]), ..r },
        renamed,
    )
}

/// Renaming a place: local 0 is replaced whole by the destination place of
/// the innermost open inlined call; any other local is renamed by offset,
/// keeping the projections.
pub open spec fn rn_place_ok(r: RenView, p: Place, b: Body) -> bool {
    if p.local == (Local(0u32)) {
        r.returns.len() > 0
    } else {
        rn_local_ok(r, p.local, b)
    }
}

pub open spec fn rn_place(r: RenView, p: Place, b: Body) -> (RenView, PlaceView) {
    if p.local == (Local(0u32)) {
        (r, r.returns.last())
    } else {
        let (r2, l2) = rn_local(r, p.local, b);
        (r2, PlaceView { local: l2, projection: p.projection.deep_view() })
    }
}

pub open spec fn rn_operand_ok(r: RenView, o: Operand, b: Body) -> bool {
    match o {
        Operand::Place(p) => rn_place_ok(r, p, b),
        Operand::Constant(_) => true,
    }
}

pub open spec fn rn_operand(r: RenView, o: Operand, b: Body) -> (RenView, OperandView) {
    match o {
        Operand::Place(p) => {
            let (r2, p2) = rn_place(r, p, b);
            (r2, OperandView::Place(p2))
        },
        Operand::Constant(c) => (r, OperandView::Constant(c@)),
    }
}

pub open spec fn rn_rvalue_ok(r: RenView, rv: Rvalue, b: Body) -> bool {
    match rv {
        Rvalue::Use(o) => rn_operand_ok(r, o, b),
        Rvalue::BinaryOp(_, o1, o2) => rn_operand_ok(r, o1, b) && rn_operand_ok(
            rn_operand(r, o1, b).0,
            o2,
            b,
        ),
        Rvalue::CheckedBinaryOp(_, o1, o2) => rn_operand_ok(r, o1, b) && rn_operand_ok(
            rn_operand(r, o1, b).0,
            o2,
            b,
        ),
        Rvalue::Ref(p) => rn_place_ok(r, p, b),
        Rvalue::Unimplemented(_) => true,
    }
}

pub open spec fn rn_rvalue(r: RenView, rv: Rvalue, b: Body) -> (RenView, RvalueView) {
    match rv {
        Rvalue::Use(o) => {
            let (r2, o2) = rn_operand(r, o, b);
            (r2, RvalueView::Use(o2))
        },
        Rvalue::BinaryOp(binop, o1, o2) => {
            let (ra, oa) = rn_operand(r, o1, b);
            let (rb, ob) = rn_operand(ra, o2, b);
            (rb, RvalueView::BinaryOp(binop, oa, ob))
        },
        Rvalue::CheckedBinaryOp(binop, o1, o2) => {
            let (ra, oa) = rn_operand(r, o1, b);
            let (rb, ob) = rn_operand(ra, o2, b);
            (rb, RvalueView::CheckedBinaryOp(binop, oa, ob))
        },
        Rvalue::Ref(p) => {
            let (r2, p2) = rn_place(r, p, b);
            (r2, RvalueView::Ref(p2))
        },
        Rvalue::Unimplemented(s) => (r, RvalueView::Unimplemented(s@)),
    }
}

/// Renaming the arguments of a call, left to right, from position `i` on.
pub open spec fn rn_args_ok(r: RenView, args: Seq<Operand>, i: int, b: Body) -> bool
    decreases args.len() - i,
{
    if i < 0 || i >= args.len() {
        true
    } else {
        rn_operand_ok(r, args[i], b) && rn_args_ok(rn_operand(r, args[i], b).0, args, i + 1, b)
    }
}

pub open spec fn rn_args(r: RenView, args: Seq<Operand>, i: int, b: Body) -> (
    RenView,
    Seq<OperandView>,
)
    decreases args.len() - i,
{
    if i < 0 || i >= args.len() {
        (r, seq![])
    } else {
        let (r1, o) = rn_operand(r, args[i], b);
        let (r2, rest) = rn_args(r1, args, i + 1, b);
        (r2, seq![o] + rest)
    }
}

/// Entering an inlined call: the offset becomes the accumulator, the old
/// accumulator is pushed for restoration on leave, the accumulator advances
/// by the callee's local count, and the caller's destination place is pushed
/// to stand in for the callee's local 0.
pub open spec fn rn_enter_ok(r: RenView, num_locals: int) -> bool {
    r.acc is Some && r.acc->0 + num_locals <= u32::MAX
}

pub open spec fn rn_enter(r: RenView, num_locals: int, dest: PlaceView) -> RenView {
    RenView {
        stack: r.stack.push(r.acc->0),
        offset: r.acc->0,
        acc: Some((r.acc->0 + num_locals) as u32),
        returns: r.returns.push(dest),
        used: r.used,
    }
}

/// Leaving an inlined call: pop the offset and destination stacks and
/// restore the previous offset. Defined only while some enclosing offset
/// remains; an unbalanced leave is a fatal internal-consistency failure.
pub open spec fn rn_leave_ok(r: RenView) -> bool {
    r.stack.len() >= 2
}

pub open spec fn rn_leave(r: RenView) -> RenView {
    RenView {
        stack: r.stack.drop_last(),
        offset: r.stack[r.stack.len() - 2],
        acc: r.acc,
        returns: if r.returns.len() > 0 {
            r.returns.drop_last()
        } else {
            r.returns
        },
        used: r.used,
    }
}

/// Initialising the accumulator (and thus the first offset) to the
/// outermost body's local count; only the first initialisation takes.
pub open spec fn rn_init_acc(r: RenView, num_locals: u32) -> RenView {
    if r.acc is None {
        RenView { acc: Some(num_locals), ..r }
    } else {
        r
    }
}

/// Recording the declarations of an inlined callee's argument slots
/// (renamed indices `offset + 1 ..= offset + nargs`), which are implicitly
/// live on entry and so never seen through a storage marker.
pub open spec fn rn_enter_decls(r: RenView, i: int, nargs: int, cb: Body) -> RenView
    decreases nargs - i + 1,
{
    if i < 1 || i > nargs {
        r
    } else {
        let r2 = RenView {
            used: r.used.insert((r.offset + i) as u32, cb.local_decls@[i]),
            ..r
        };
        rn_enter_decls(r2, i + 1, nargs, cb)
    }
}

pub open spec fn rn_enter_decls_ok(r: RenView, nargs: int, cb: Body) -> bool {
    nargs + 1 <= cb.local_decls@.len() && r.offset + nargs <= u32::MAX
}

/// Alpha-renames the `Local`s of inlined calls by adding an offset to each,
/// so that a trace's straight-line statements never confuse the locals of
/// different activations.
pub struct VarRenamer {
    /// Stores the offset before entering an inlined call, so that the
    /// correct offset can be restored again after leaving that call.
    stack: Vec<u32>,
    /// Current offset used to rename variables.
    offset: u32,
    /// Accumulator keeping track of total number of variables used. Needed
    /// to use different offsets for consecutive inlined function calls.
    acc: Option<u32>,
    /// Stores the return variables of inlined function calls. Used to
    /// replace the callee's local 0 during renaming.
    returns: Vec<Place>,
    /// The local declarations actually referenced by the trace so far,
    /// keyed by renamed index.
    used_decls: HashMap<u32, LocalDecl>,
}

impl View for VarRenamer {
    type V = RenView;

    closed spec fn view(&self) -> RenView {
        RenView {
            stack: self.stack@,
            offset: self.offset,
            acc: self.acc,
            returns: self.returns.deep_view(),
            used: self.used_decls@,
        }
    }
}

impl VarRenamer {
    fn new() -> (r: Self)
        ensures
            r@ == (RenView {
                stack: seq![0u32],
                offset: 0u32,
                acc: None,
                returns: Seq::empty(),
                used: Map::empty(),
            }),
    {
        let r = VarRenamer {
            stack: vec![0],
            offset: 0,
            acc: None,
            returns: Vec::new(),
            used_decls: HashMap::new(),
        };
        proof {
            assert(r.stack@ =~= seq![0u32]);
            assert(r.returns.deep_view() =~= Seq::<PlaceView>::empty());
            assert(r.used_decls@ =~= Map::<u32, LocalDecl>::empty());
        }
        r
    }

    /// Register a used local declaration.
    fn used_decl(&mut self, l: Local, decl: LocalDecl)
        ensures
            final(self)@ == (RenView { used: old(self)@.used.insert(l.0, decl), ..old(self)@ }),
    {
        self.used_decls.insert(l.0, decl);
    }

    /// Finalises the renamer, returning the local decls for the trace.
    fn done(self) -> (r: HashMap<u32, LocalDecl>)
        ensures
            r@ == self@.used,
    {
        self.used_decls
    }

    fn offset(&self) -> (r: u32)
        ensures
            r == self@.offset,
    {
        self.offset
    }

    fn init_acc(&mut self, num_locals: usize)
        requires
            num_locals <= u32::MAX,
        ensures
            final(self)@ == rn_init_acc(old(self)@, num_locals as u32),
    {
        if self.acc.is_none() {
            self.acc = Some(num_locals as u32);
        }
    }

    fn enter(&mut self, num_locals: usize, dest: Place)
        requires
            rn_enter_ok(old(self)@, num_locals as int),
        ensures
            final(self)@ == rn_enter(old(self)@, num_locals as int, dest@),
    {
        // When entering an inlined function call set the offset to the
        // current accumulator. Then increment the accumulator by the number
        // of locals in the callee. Also push the offset onto the stack, so
        // that it can be restored once the inlined call is left again.
        let acc = match &self.acc {
            Some(v) => *v,
            None => unreached(),
        };
        self.offset = acc;
        self.stack.push(acc);
        self.acc = Some(acc + (num_locals as u32));
        self.returns.push(dest);
        proof {
            assert(self.returns.deep_view() =~= old(self).returns.deep_view().push(dest@));
        }
    }

    fn leave(&mut self)
        requires
            rn_leave_ok(old(self)@),
        ensures
            final(self)@ == rn_leave(old(self)@),
    {
        // When leaving an inlined function call, pop the previous offset
        // from the stack, reverting the offset to what it was before the
        // call was entered. Popping with no enclosing offset left would be
        // an unbalanced leave: a fatal internal-consistency failure.
        self.stack.pop();
        let had_return = self.returns.len() > 0;
        if had_return {
            self.returns.pop();
        }
        if self.stack.len() > 0 {
            self.offset = self.stack[self.stack.len() - 1];
        } else {
            proof {
                assert(false);
            }
        }
        proof {
            assert(self.stack@ =~= old(self)@.stack.drop_last());
            if old(self)@.returns.len() > 0 {
                assert(self.returns.deep_view() =~= old(self)@.returns.drop_last());
            } else {
                assert(self.returns.deep_view() =~= old(self)@.returns);
            }
        }
    }

    fn rename_local(&mut self, local: &Local, body: &Body) -> (r: Local)
        requires
            rn_local_ok(old(self)@, *local, *body),
        ensures
            final(self)@ == rn_local(old(self)@, *local, *body).0,
            r == rn_local(old(self)@, *local, *body).1,
    {
        let renamed = Local(local.0 + self.offset);
        let decl = self.body_decl(body, local.0);
        self.used_decl(renamed, decl);
        renamed
    }

    /// Fetch a local's declaration out of a body.
    fn body_decl(&self, body: &Body, idx: u32) -> (r: LocalDecl)
        requires
            (idx as int) < body.local_decls@.len(),
        ensures
            r == body.local_decls@[idx as int],
    {
        body.local_decls[idx as usize]
    }

    fn rename_place(&mut self, place: &Place, body: &Body) -> (r: Place)
        requires
            rn_place_ok(old(self)@, *place, *body),
        ensures
            final(self)@ == rn_place(old(self)@, *place, *body).0,
            r@ == rn_place(old(self)@, *place, *body).1,
    {
        if place.local.0 == 0 {
            // Replace the default return variable of the callee with the
            // variable in the outer context where the return value will end
            // up after leaving the call. This saves an instruction when the
            // trace is compiled.
            if self.returns.len() > 0 {
                self.returns[self.returns.len() - 1].clone()
            } else {
                unreached()
            }
        } else {
            let local = self.rename_local(&place.local, body);
            Place { local, projection: place.projection.clone() }
        }
    }

    fn rename_operand(&mut self, operand: &Operand, body: &Body) -> (r: Operand)
        requires
            rn_operand_ok(old(self)@, *operand, *body),
        ensures
            final(self)@ == rn_operand(old(self)@, *operand, *body).0,
            r@ == rn_operand(old(self)@, *operand, *body).1,
    {
        match operand {
            Operand::Place(p) => Operand::Place(self.rename_place(p, body)),
            Operand::Constant(c) => Operand::Constant(c.clone()),
        }
    }

    fn rename_rvalue(&mut self, rvalue: &Rvalue, body: &Body) -> (r: Rvalue)
        requires
            rn_rvalue_ok(old(self)@, *rvalue, *body),
        ensures
            final(self)@ == rn_rvalue(old(self)@, *rvalue, *body).0,
            r@ == rn_rvalue(old(self)@, *rvalue, *body).1,
    {
        match rvalue {
            Rvalue::Use(op) => {
                let newop = self.rename_operand(op, body);
                Rvalue::Use(newop)
            },
            Rvalue::BinaryOp(binop, op1, op2) => {
                let newop1 = self.rename_operand(op1, body);
                let newop2 = self.rename_operand(op2, body);
                Rvalue::BinaryOp(*binop, newop1, newop2)
            },
            Rvalue::CheckedBinaryOp(binop, op1, op2) => {
                let newop1 = self.rename_operand(op1, body);
                let newop2 = self.rename_operand(op2, body);
                Rvalue::CheckedBinaryOp(*binop, newop1, newop2)
            },
            Rvalue::Ref(place) => {
                let newplace = self.rename_place(place, body);
                Rvalue::Ref(newplace)
            },
            Rvalue::Unimplemented(s) => Rvalue::Unimplemented(s.clone()),
        }
    }

    fn rename_args(&mut self, args: &Vec<Operand>, body: &Body) -> (r: Vec<Operand>)
        requires
            rn_args_ok(old(self)@, args@, 0, *body),
        ensures
            final(self)@ == rn_args(old(self)@, args@, 0, *body).0,
            r.deep_view() == rn_args(old(self)@, args@, 0, *body).1,
            r@.len() == args@.len(),
    {
        let ghost goal = rn_args(old(self)@, args@, 0, *body);
        let mut out: Vec<Operand> = Vec::new();
        let n = args.len();
        let mut i: usize = 0;
        while i < n
            invariant
                i <= n,
                n == args@.len(),
                out@.len() == i,
                rn_args_ok(self@, args@, i as int, *body),
                goal == ({
                    let (rf, rest) = rn_args(self@, args@, i as int, *body);
                    (rf, out.deep_view() + rest)
                }),
                goal == rn_args(old(self)@, args@, 0, *body),
            decreases n - i,
        {
            let newop = self.rename_operand(&args[i], body);
            out.push(newop);
            i = i + 1;
            proof {
                let (rf, rest) = rn_args(self@, args@, i as int, *body);
                assert(out.deep_view() + rest =~= goal.1);
            }
        }
        proof {
            assert(out.deep_view() + Seq::<OperandView>::empty() =~= out.deep_view());
        }
        out
    }
}

/// Lowering one SIR statement: clone it with every contained local renamed.
/// The TIR-only statements (`Enter`, `Leave`, `Call`) and the resolved-place
/// statements of interpreter bodies (`Store`, `MkRef`) cannot appear in a
/// SIR block, so meeting one is fatal.
pub open spec fn low_stmt_ok(r: RenView, s: Statement, b: Body) -> bool {
    match s {
        Statement::StorageDead(l) => rn_local_ok(r, l, b),
        Statement::Assign(p, rv) => rn_place_ok(r, p, b) && rn_rvalue_ok(
            rn_place(r, p, b).0,
            rv,
            b,
        ),
        Statement::Nop => true,
        Statement::Unimplemented(_) => true,
        _ => false,
    }
}

pub open spec fn low_stmt(r: RenView, s: Statement, b: Body) -> (RenView, TirOpView) {
    match s {
        Statement::StorageDead(l) => {
            let (r2, l2) = rn_local(r, l, b);
            (r2, TirOpView::Statement(StatementView::StorageDead(l2)))
        },
        Statement::Assign(p, rv) => {
            let (r2, p2) = rn_place(r, p, b);
            let (r3, rv2) = rn_rvalue(r2, rv, b);
            (r3, TirOpView::Statement(StatementView::Assign(p2, rv2)))
        },
        Statement::Nop => (r, TirOpView::Statement(StatementView::Nop)),
        Statement::Unimplemented(s0) => (r, TirOpView::Statement(StatementView::Unimplemented(s0@))),
        _ => (r, TirOpView::Statement(StatementView::Nop)),
    }
}

/// Lowering the statements of a block in order, from position `i` on.
pub open spec fn low_stmts_ok(r: RenView, stmts: Seq<Statement>, i: int, b: Body) -> bool
    decreases stmts.len() - i,
{
    if i < 0 || i >= stmts.len() {
        true
    } else {
        low_stmt_ok(r, stmts[i], b) && low_stmts_ok(low_stmt(r, stmts[i], b).0, stmts, i + 1, b)
    }
}

pub open spec fn low_stmts(r: RenView, stmts: Seq<Statement>, i: int, b: Body) -> (
    RenView,
    Seq<TirOpView>,
)
    decreases stmts.len() - i,
{
    if i < 0 || i >= stmts.len() {
        (r, seq![])
    } else {
        let (r1, op) = low_stmt(r, stmts[i], b);
        let (r2, rest) = low_stmts(r1, stmts, i + 1, b);
        (r2, seq![op] + rest)
    }
}

/// Lowering a block's terminator. A call first renames the destination,
/// then the arguments; a callee with known SIR is inlined behind an `Enter`
/// marker (opening a renaming scope and registering the callee's implicitly
/// live argument slots), one without becomes a native `Call` statement. A
/// return closes the innermost renaming scope behind a `Leave` marker.
pub open spec fn low_term_ok(r: RenView, t: Terminator, b: Body, sirm: Map<Seq<char>, Body>) -> bool {
    match t {
        Terminator::Call { operand, args, destination } => match (operand, destination) {
            (CallOperand::Fn(sym), Some(dst)) => {
                &&& rn_place_ok(r, dst.0, b)
                &&& {
                    let (r1, ret) = rn_place(r, dst.0, b);
                    &&& rn_args_ok(r1, args@, 0, b)
                    &&& {
                        let (r2, newargs) = rn_args(r1, args@, 0, b);
                        sirm.contains_key(sym@) ==> {
                            let cb = sirm[sym@];
                            &&& rn_enter_ok(r2, cb.local_decls@.len() as int)
                            &&& rn_enter_decls_ok(
                                rn_enter(r2, cb.local_decls@.len() as int, ret),
                                args@.len() as int,
                                cb,
                            )
                        }
                    }
                }
            },
            _ => false,
        },
        Terminator::Return => rn_leave_ok(r),
        _ => true,
    }
}

pub open spec fn low_term(r: RenView, t: Terminator, b: Body, sirm: Map<Seq<char>, Body>) -> (
    RenView,
    Seq<TirOpView>,
) {
    match t {
        Terminator::Call { operand, args, destination } => match (operand, destination) {
            (CallOperand::Fn(sym), Some(dst)) => {
                let (r1, ret) = rn_place(r, dst.0, b);
                let (r2, newargs) = rn_args(r1, args@, 0, b);
                if sirm.contains_key(sym@) {
                    let cb = sirm[sym@];
                    let r3 = rn_enter(r2, cb.local_decls@.len() as int, ret);
                    let r4 = rn_enter_decls(r3, 1, args@.len() as int, cb);
                    (
                        r4,
                        seq![
                            TirOpView::Statement(
                                StatementView::Enter(
                                    CallOperandView::Fn(sym@),
                                    newargs,
                                    Some(ret),
                                    r3.offset,
                                ),
                            ),
                        ],
                    )
                } else {
                    (
                        r2,
                        seq![
                            TirOpView::Statement(
                                StatementView::Call(CallOperandView::Fn(sym@), newargs, Some(ret)),
                            ),
                        ],
                    )
                }
            },
            _ => (r, seq![]),
        },
        Terminator::Return => (rn_leave(r), seq![TirOpView::Statement(StatementView::Leave)]),
        _ => (r, seq![]),
    }
}

/// The position of the first occurrence of `x` in `s`, or -1.
pub open spec fn first_pos(s: Seq<u32>, x: u32) -> int
    decreases s.len(),
{
    if s.len() == 0 {
        -1
    } else if s[0] == x {
        0
    } else {
        let p = first_pos(s.subrange(1, s.len() as int), x);
        if p == -1 {
            -1
        } else {
            p + 1
        }
    }
}

pub proof fn lemma_first_pos(s: Seq<u32>, x: u32)
    ensures
        first_pos(s, x) == -1 ==> forall|j: int| 0 <= j < s.len() ==> s[j] != x,
        first_pos(s, x) != -1 ==> 0 <= first_pos(s, x) < s.len() && s[first_pos(s, x)] == x
            && forall|j: int| 0 <= j < first_pos(s, x) ==> s[j] != x,
    decreases s.len(),
{
    if s.len() > 0 && s[0] != x {
        let rest = s.subrange(1, s.len() as int);
        lemma_first_pos(rest, x);
        assert(forall|j: int| 0 <= j < rest.len() ==> rest[j] == s[j + 1]);
        if first_pos(s, x) != -1 {
            let p = first_pos(rest, x);
            assert(first_pos(s, x) == p + 1);
            assert forall|j: int| 0 <= j < first_pos(s, x) implies s[j] != x by {
                if j > 0 {
                    assert(rest[j - 1] != x);
                    assert(rest[j - 1] == s[j]);
                }
            }
        } else {
            assert forall|j: int| 0 <= j < s.len() implies s[j] != x by {
                if j > 0 {
                    assert(rest[j - 1] != x);
                    assert(rest[j - 1] == s[j]);
                }
            }
        }
    }
}

/// Deriving a guard from a terminator, given the block the trace moves to
/// next. A switch peeks at the next location to learn which edge was taken:
/// a listed value yields an `Integer` guard on it, the fallback edge an
/// `OtherInteger` guard excluding every listed value. An assertion yields a
/// `Boolean` guard. Tracing code the compiler marked unreachable, or a
/// trace that ends mid-switch, is fatal.
pub open spec fn low_guard_ok(t: Terminator, next: Option<u32>) -> bool {
    match t {
        Terminator::Unreachable => false,
        Terminator::SwitchInt { discr, values, target_bbs, otherwise_bb } => {
            &&& next is Some
            &&& {
                let p = first_pos(target_bbs@, next->0);
                p == -1 || p < values@.len()
            }
        },
        _ => true,
    }
}

pub open spec fn low_guard(t: Terminator, next: Option<u32>) -> Seq<TirOpView> {
    match t {
        Terminator::SwitchInt { discr, values, target_bbs, otherwise_bb } => {
            let p = first_pos(target_bbs@, next->0);
            if p >= 0 {
                seq![
                    TirOpView::Guard(
                        GuardView {
                            val: discr@,
                            kind: GuardKindView::Integer(values@[p].spec_val()),
                        },
                    ),
                ]
            } else {
                seq![
                    TirOpView::Guard(
                        GuardView {
                            val: discr@,
                            kind: GuardKindView::OtherInteger(
                                values@.map_values(|v: SerU128| v.spec_val()),
                            ),
                        },
                    ),
                ]
            }
        },
        Terminator::Assert { cond, expected, target_bb } => seq![
            TirOpView::Guard(GuardView { val: cond@, kind: GuardKindView::Boolean(expected) }),
        ],
        _ => seq![],
    }
}

/// The full lowering state while walking the location sequence.
pub struct LowerState {
    pub ops: Seq<TirOpView>,
    pub rnm: RenView,
    pub tio: Option<Local>,
}

/// The outcome of lowering: a finished state, the one recoverable error (a
/// location whose symbol has no SIR), or a fatal internal-consistency
/// failure that the lowering must not survive.
pub enum LowerResult {
    Done(LowerState),
    NoSir(Seq<char>),
    Fatal,
}

/// A fresh renamer: offset 0 for the outermost frame, accumulator not yet
/// initialised, no open scopes, nothing referenced.
pub open spec fn rn_new() -> RenView {
    RenView {
        stack: seq![0u32],
        offset: 0u32,
        acc: None,
        returns: Seq::empty(),
        used: Map::empty(),
    }
}

pub open spec fn lower_init() -> LowerState {
    LowerState { ops: Seq::empty(), rnm: rn_new(), tio: None }
}

/// Lowering the locations from position `i` on: look the symbol's body up
/// (no body is the one recoverable error), adopt its trace-inputs local,
/// initialise the accumulator on first use, then lower the block's
/// statements, its terminator and its guard, in that order.
pub open spec fn low_from(
    sirm: Map<Seq<char>, Body>,
    locs: Seq<SirLoc>,
    i: int,
    st: LowerState,
) -> LowerResult
    decreases locs.len() - i,
{
    if i < 0 || i >= locs.len() {
        LowerResult::Done(st)
    } else {
        let loc = locs[i];
        if !sirm.contains_key(loc.symbol_name@) {
            LowerResult::NoSir(loc.symbol_name@)
        } else {
            let b = sirm[loc.symbol_name@];
            let tio = b.trace_inputs_local;
            if b.local_decls@.len() > u32::MAX {
                LowerResult::Fatal
            } else {
                let r0 = rn_init_acc(st.rnm, b.local_decls@.len() as u32);
                if loc.bb_idx as int >= b.blocks@.len() {
                    LowerResult::Fatal
                } else {
                    let blk = b.blocks@[loc.bb_idx as int];
                    if !low_stmts_ok(r0, blk.stmts@, 0, b) {
                        LowerResult::Fatal
                    } else {
                        let (r1, ops1) = low_stmts(r0, blk.stmts@, 0, b);
                        if !low_term_ok(r1, blk.term, b, sirm) {
                            LowerResult::Fatal
                        } else {
                            let (r2, ops2) = low_term(r1, blk.term, b, sirm);
                            let next = if i + 1 < locs.len() {
                                Some(locs[i + 1].bb_idx)
                            } else {
                                None
                            };
                            if !low_guard_ok(blk.term, next) {
                                LowerResult::Fatal
                            } else {
                                let ops3 = low_guard(blk.term, next);
                                low_from(
                                    sirm,
                                    locs,
                                    i + 1,
                                    LowerState { ops: st.ops + ops1 + ops2 + ops3, rnm: r2, tio },
                                )
                            }
                        }
                    }
                }
            }
        }
    }
}

/// Whether one character sequence occurs inside another.
pub open spec fn contains_seq(hay: Seq<char>, needle: Seq<char>) -> bool {
    exists|k: int|
        0 <= k && k + needle.len() <= hay.len() && #[trigger] hay.subrange(k, k + needle.len())
            == needle
}

/// The raw location sequence includes the bookkeeping instructions of the
/// calls that start and stop trace collection; they must not appear in the
/// delivered trace. The tail must end with an `Enter` of the trace-stop
/// routine, preceded by one assignment, one assignment of the constant
/// false, and three storage-dead markers; the head must start with one
/// storage-dead marker. Anything else is fatal. This check is brittle by
/// construction: it assumes the fixed instruction shape emitted at the
/// trace start/stop call sites.
pub open spec fn trim_ok(ops: Seq<TirOpView>) -> bool {
    &&& ops.len() >= 7
    &&& ops[ops.len() - 1] matches TirOpView::Statement(
        StatementView::Enter(CallOperandView::Fn(s), _, _, _),
    ) && contains_seq(s, "stop_tracing"@)
    &&& ops[ops.len() - 2] matches TirOpView::Statement(StatementView::Assign(_, _))
    &&& ops[ops.len() - 3] matches TirOpView::Statement(
        StatementView::Assign(
            _,
            RvalueView::Use(OperandView::Constant(ConstantView::Bool(false))),
        ),
    )
    &&& ops[ops.len() - 4] matches TirOpView::Statement(StatementView::StorageDead(_))
    &&& ops[ops.len() - 5] matches TirOpView::Statement(StatementView::StorageDead(_))
    &&& ops[ops.len() - 6] matches TirOpView::Statement(StatementView::StorageDead(_))
    &&& ops[0] matches TirOpView::Statement(StatementView::StorageDead(_))
}

/// The operations that remain once the boundary bookkeeping is trimmed:
/// six operations off the tail, one off the head.
pub open spec fn trimmed(ops: Seq<TirOpView>) -> Seq<TirOpView> {
    ops.subrange(1, ops.len() - 6)
}

/// The whole lowering: walk every location, then trim the boundary.
pub open spec fn lower(sirm: Map<Seq<char>, Body>, locs: Seq<SirLoc>) -> LowerResult {
    match low_from(sirm, locs, 0, lower_init()) {
        LowerResult::Done(st) => if trim_ok(st.ops) {
            LowerResult::Done(LowerState { ops: trimmed(st.ops), rnm: st.rnm, tio: st.tio })
        } else {
            LowerResult::Fatal
        },
        r => r,
    }
}

/// Whether one string occurs inside another, comparing by character.
fn str_contains(hay: &str, needle: &str) -> (r: bool)
    ensures
        r == contains_seq(hay@, needle@),
{
    let hlen = hay.unicode_len();
    let nlen = needle.unicode_len();
    if nlen > hlen {
        proof {
            if contains_seq(hay@, needle@) {
                let k = choose|k: int|
                    0 <= k && k + needle@.len() <= hay@.len() && #[trigger] hay@.subrange(
                        k,
                        k + needle@.len(),
                    ) == needle@;
                assert(false);
            }
        }
        return false;
    }
    let mut k: usize = 0;
    while k <= hlen - nlen
        invariant
            nlen <= hlen,
            hlen == hay@.len(),
            nlen == needle@.len(),
            k <= hlen - nlen + 1,
            forall|kk: int|
                0 <= kk < k ==> #[trigger] hay@.subrange(kk, kk + needle@.len()) != needle@,
        decreases hlen - nlen + 1 - k,
    {
        let mut j: usize = 0;
        let mut matched = true;
        while j < nlen
            invariant
                j <= nlen,
                k + nlen <= hlen,
                hlen == hay@.len(),
                nlen == needle@.len(),
                matched ==> forall|jj: int| 0 <= jj < j ==> hay@[k + jj] == needle@[jj],
                !matched ==> exists|jj: int|
                    0 <= jj < needle@.len() && hay@[k + jj] != needle@[jj],
            decreases nlen - j,
        {
            if hay.get_char(k + j) != needle.get_char(j) {
                matched = false;
            }
            j = j + 1;
        }
        if matched {
            proof {
                assert(hay@.subrange(k as int, k + needle@.len()) =~= needle@);
            }
            return true;
        }
        k = k + 1;
        proof {
            let jj = choose|jj: int| 0 <= jj < needle@.len() && hay@[k - 1 + jj] != needle@[jj];
            assert(hay@.subrange(k - 1, k - 1 + needle@.len())[jj] != needle@[jj]);
        }
    }
    proof {
        if contains_seq(hay@, needle@) {
            let kk = choose|kk: int|
                0 <= kk && kk + needle@.len() <= hay@.len() && #[trigger] hay@.subrange(
                    kk,
                    kk + needle@.len(),
                ) == needle@;
            assert(false);
        }
    }
    false
}

/// The position of the first occurrence of a block index among a switch's
/// outgoing edges.
fn position_of(v: &Vec<u32>, x: u32) -> (r: Option<usize>)
    ensures
        match r {
            Some(p) => first_pos(v@, x) == p as int,
            None => first_pos(v@, x) == -1,
        },
{
    let n = v.len();
    let mut i: usize = 0;
    while i < n
        invariant
            i <= n,
            n == v@.len(),
            forall|j: int| 0 <= j < i ==> v@[j] != x,
        decreases n - i,
    {
        if v[i] == x {
            proof {
                lemma_first_pos(v@, x);
            }
            return Some(i);
        }
        i = i + 1;
    }
    proof {
        lemma_first_pos(v@, x);
    }
    None
}

/// The raw values of a switch's case list.
fn ser_vals(values: &Vec<SerU128>) -> (r: Vec<u128>)
    ensures
        r@ == values@.map_values(|v: SerU128| v.spec_val()),
{
    let mut out: Vec<u128> = Vec::new();
    let n = values.len();
    let mut i: usize = 0;
    while i < n
        invariant
            i <= n,
            n == values@.len(),
            out@ == values@.take(i as int).map_values(|v: SerU128| v.spec_val()),
        decreases n - i,
    {
        out.push(values[i].val());
        i = i + 1;
        proof {
            assert(values@.take(i as int).drop_last() =~= values@.take(i - 1));
            assert(out@ =~= values@.take(i as int).map_values(|v: SerU128| v.spec_val()));
        }
    }
    proof {
        assert(values@.take(n as int) =~= values@);
    }
    out
}

/// A TIR trace is conceptually a straight-line path through the SIR with
/// guarded speculation: every call with available SIR appears inlined
/// between `Enter` and `Leave` markers, and every point where execution
/// could diverge from the recorded path carries a guard.
#[derive(Debug)]
pub struct TirTrace {
    ops: Vec<TirOp>,
    trace_inputs_local: Option<Local>,
    /// Maps each local variable referenced by the trace (by renamed index)
    /// to its declaration, including type.
    pub local_decls: HashMap<u32, LocalDecl>,
}

impl TirTrace {
    /// The operations of the trace, in order.
    pub closed spec fn spec_ops(&self) -> Seq<TirOpView> {
        self.ops.deep_view()
    }

    /// The trace-inputs local the trace reports.
    pub closed spec fn spec_inputs(&self) -> Option<Local> {
        self.trace_inputs_local
    }

    /// The declarations of the locals the trace references, keyed by
    /// renamed index.
    pub closed spec fn spec_local_decls(&self) -> Map<u32, LocalDecl> {
        self.local_decls@
    }

    /// Return the TIR operation at index `idx` in the trace.
    /// The index must not be out of bounds.
    pub fn op(&self, idx: usize) -> (r: &TirOp)
        requires
            idx < self.spec_ops().len(),
        ensures
            r@ == self.spec_ops()[idx as int],
    {
        &self.ops[idx]
    }

    pub fn inputs(&self) -> (r: &Option<Local>)
        ensures
            *r == self.spec_inputs(),
    {
        &self.trace_inputs_local
    }

    /// Return the length of the trace measured in operations.
    pub fn len(&self) -> (r: usize)
        ensures
            r == self.spec_ops().len(),
    {
        self.ops.len()
    }

    /// Create a TirTrace from a SIR trace, trimming remnants of the code
    /// which starts/stops the tracer. Returns the lowered trace, or an
    /// error naming the symbol if one is met for which no SIR is
    /// available; any other divergence from the expected shape of a trace
    /// is fatal, which the caller's obligations rule out.
    pub fn new(sir: &Sir, trace: &SirTrace) -> (res: Result<Self, InvalidTraceError>)
        requires
            sir.wf(),
            !(lower(sir.bodies_map(), trace.spec_locs()) is Fatal),
        ensures
            match res {
                Ok(t) => lower(sir.bodies_map(), trace.spec_locs()) matches LowerResult::Done(st)
                    && t.spec_ops() == st.ops && t.spec_inputs() == st.tio
                    && t.spec_local_decls() == st.rnm.used,
                Err(e) => lower(sir.bodies_map(), trace.spec_locs()) matches LowerResult::NoSir(
                    sym,
                ) && (e matches InvalidTraceError::NoSir(s) && s@ == sym),
            },
    {
        let ghost sirm = sir.bodies_map();
        let ghost locs = trace.spec_locs();
        let ghost full = low_from(sirm, locs, 0, lower_init());

        let mut ops: Vec<TirOp> = Vec::new();
        let mut rnm = VarRenamer::new();
        let mut trace_inputs_local: Option<Local> = None;

        proof {
            assert(ops.deep_view() =~= lower_init().ops);
            assert(!(full is Fatal));
        }

        let n = trace.raw_len();
        let mut i: usize = 0;
        while i < n
            invariant
                i <= n,
                n == locs.len(),
                sir.wf(),
                sirm == sir.bodies_map(),
                locs == trace.spec_locs(),
                full == low_from(sirm, locs, 0, lower_init()),
                !(full is Fatal),
                full == low_from(
                    sirm,
                    locs,
                    i as int,
                    (LowerState {
                        ops: ops.deep_view(),
                        rnm: rnm@,
                        tio: trace_inputs_local,
                    }),
                ),
            decreases n - i,
        {
            let ghost st_in = LowerState {
                ops: ops.deep_view(),
                rnm: rnm@,
                tio: trace_inputs_local,
            };
            let loc = trace.raw_loc(i);
            let body = match sir.body(&loc.symbol_name) {
                Some(b) => b,
                None => {
                    proof {
                        assert(full == LowerResult::NoSir(loc.symbol_name@));
                    }
                    return Err(InvalidTraceError::no_sir(loc.symbol_name.as_str()));
                },
            };
            proof {
                assert(*body == sirm[loc.symbol_name@]);
                if body.local_decls@.len() > u32::MAX {
                    assert(low_from(sirm, locs, i as int, st_in) is Fatal);
                    assert(false);
                }
            }

            // Store trace inputs local and forward it to the TIR trace.
            trace_inputs_local = body.trace_inputs_local;

            // Initialise the renamer's accumulator (and thus also the first
            // offset) to the trace's outermost number of locals.
            rnm.init_acc(body.local_decls.len());
            let ghost r0 = rnm@;
            proof {
                if loc.bb_idx as int >= body.blocks@.len() {
                    assert(low_from(sirm, locs, i as int, st_in) is Fatal);
                    assert(false);
                }
                if !low_stmts_ok(r0, body.blocks@[loc.bb_idx as int].stmts@, 0, *body) {
                    assert(low_from(sirm, locs, i as int, st_in) is Fatal);
                    assert(false);
                }
            }
            let bb = loc.bb_idx as usize;
            let block = &body.blocks[bb];

            // Clone every statement of the block with its locals renamed by
            // the current offset and append it to the trace.
            let ghost sg = low_stmts(r0, block.stmts@, 0, *body);
            let ghost ops0 = ops.deep_view();
            let stmts_n = block.stmts.len();
            let mut j: usize = 0;
            while j < stmts_n
                invariant
                    j <= stmts_n,
                    stmts_n == block.stmts@.len(),
                    low_stmts_ok(rnm@, block.stmts@, j as int, *body),
                    sg.0 == low_stmts(rnm@, block.stmts@, j as int, *body).0,
                    sg.1 == ops.deep_view().skip(ops0.len() as int) + low_stmts(
                        rnm@,
                        block.stmts@,
                        j as int,
                        *body,
                    ).1,
                    ops0.len() <= ops.deep_view().len(),
                    ops.deep_view().take(ops0.len() as int) == ops0,
                decreases stmts_n - j,
            {
                let ghost r_in = rnm@;
                let ghost skip_in = ops.deep_view().skip(ops0.len() as int);
                let stmt = &block.stmts[j];
                match stmt {
                    Statement::StorageDead(local) => {
                        let renamed = rnm.rename_local(local, body);
                        ops.push(TirOp::Statement(Statement::StorageDead(renamed)));
                    },
                    Statement::Assign(place, rvalue) => {
                        let newplace = rnm.rename_place(place, body);
                        let newrvalue = rnm.rename_rvalue(rvalue, body);
                        ops.push(TirOp::Statement(Statement::Assign(newplace, newrvalue)));
                    },
                    Statement::Nop => {
                        ops.push(TirOp::Statement(Statement::Nop));
                    },
                    Statement::Unimplemented(msg) => {
                        ops.push(TirOp::Statement(Statement::Unimplemented(msg.clone())));
                    },
                    // The remaining statement kinds are specific to TIR or
                    // to interpreter bodies and cannot appear in SIR.
                    _ => unreached(),
                }
                j = j + 1;
                proof {
                    let (r1, op) = low_stmt(r_in, block.stmts@[j - 1], *body);
                    assert(ops.deep_view().skip(ops0.len() as int) =~= skip_in + seq![op]);
                    let (rf, rest) = low_stmts(rnm@, block.stmts@, j as int, *body);
                    assert(skip_in + (seq![op] + rest) =~= (skip_in + seq![op]) + rest);
                    assert(ops.deep_view().take(ops0.len() as int) =~= ops0);
                }
            }

            let ghost r1v = rnm@;
            proof {
                assert(r1v == sg.0);
                assert(ops.deep_view() =~= ops0 + sg.1);
                if !low_term_ok(r1v, block.term, *body, sirm) {
                    assert(low_from(sirm, locs, i as int, st_in) is Fatal);
                    assert(false);
                }
            }
            let ghost tg = low_term(r1v, block.term, *body, sirm);

            match &block.term {
                Terminator::Call { operand, args, destination } => {
                    // Rename the return value. A call always has a
                    // destination in the traces this lowering accepts.
                    let dest_place = match destination {
                        Some(d) => &d.0,
                        None => unreached(),
                    };
                    let ret_val = rnm.rename_place(dest_place, body);
                    match operand {
                        CallOperand::Fn(sym) => {
                            // Rename all locals within the arguments.
                            let newargs = rnm.rename_args(args, body);
                            match sir.body(sym) {
                                Some(callbody) => {
                                    // The callee has SIR, so it will appear
                                    // inlined in the trace; only emit an
                                    // Enter marker, opening a renaming
                                    // scope whose offset equals the number
                                    // of locals consumed so far.
                                    rnm.enter(callbody.local_decls.len(), ret_val.clone());
                                    let ghost r3v = rnm@;
                                    let entoff = rnm.offset();
                                    // The callee's arguments are implicitly
                                    // live on entry, so their renamed slots
                                    // get declarations here.
                                    let nargs = newargs.len();
                                    proof {
                                        assert(rn_enter_decls_ok(r3v, nargs as int, *callbody));
                                    }
                                    let mut k: usize = 0;
                                    while k < nargs
                                        invariant
                                            k <= nargs,
                                            nargs + 1 <= callbody.local_decls@.len(),
                                            r3v.offset + nargs <= u32::MAX,
                                            rnm@.offset == r3v.offset,
                                            rn_enter_decls(r3v, 1, nargs as int, *callbody)
                                                == rn_enter_decls(
                                                rnm@,
                                                k + 1 as int,
                                                nargs as int,
                                                *callbody,
                                            ),
                                        decreases nargs - k,
                                    {
                                        // Skipping the return local.
                                        let lidx = k + 1;
                                        let decl = callbody.local_decls[lidx];
                                        rnm.used_decl(Local(rnm.offset() + (lidx as u32)), decl);
                                        k = k + 1;
                                    }
                                    ops.push(
                                        TirOp::Statement(
                                            Statement::Enter(
                                                CallOperand::Fn(sym.clone()),
                                                newargs,
                                                Some(ret_val),
                                                entoff,
                                            ),
                                        ),
                                    );
                                },
                                None => {
                                    // A symbol without SIR cannot appear
                                    // inlined: emit a native call instead.
                                    ops.push(
                                        TirOp::Statement(
                                            Statement::Call(
                                                CallOperand::Fn(sym.clone()),
                                                newargs,
                                                Some(ret_val),
                                            ),
                                        ),
                                    );
                                },
                            }
                        },
                        // An unknown callee cannot be lowered.
                        CallOperand::Unknown => unreached(),
                    }
                },
                Terminator::Return => {
                    // Leaving an inlined call: restore the renaming scope
                    // of the caller.
                    rnm.leave();
                    ops.push(TirOp::Statement(Statement::Leave));
                },
                _ => {},
            }

            proof {
                assert(rnm@ == tg.0);
                assert(ops.deep_view() =~= ops0 + sg.1 + tg.1);
            }

            // Convert the block terminator to a guard if necessary.
            let ghost nxt: Option<u32> = if i + 1 < locs.len() {
                Some(locs[i + 1].bb_idx)
            } else {
                None
            };
            proof {
                if !low_guard_ok(block.term, nxt) {
                    assert(low_from(sirm, locs, i as int, st_in) is Fatal);
                    assert(false);
                }
            }
            let ghost gv = low_guard(block.term, nxt);
            match &block.term {
                Terminator::SwitchInt { discr, values, target_bbs, otherwise_bb } => {
                    // Peek at the next block in the trace to see which
                    // outgoing edge was taken and infer which value to
                    // guard upon. A trace cannot end on a switch.
                    proof {
                        assert(i + 1 < n);
                    }
                    let next_blk = trace.raw_loc(i + 1).bb_idx;
                    match position_of(target_bbs, next_blk) {
                        Some(idx) => {
                            proof {
                                assert((idx as int) < values@.len());
                            }
                            ops.push(
                                TirOp::Guard(
                                    Guard {
                                        val: discr.clone(),
                                        kind: GuardKind::Integer(values[idx].val()),
                                    },
                                ),
                            );
                        },
                        None => {
                            // The otherwise edge was taken: the guard must
                            // exclude every listed value.
                            let vals = ser_vals(values);
                            ops.push(
                                TirOp::Guard(
                                    Guard { val: discr.clone(), kind: GuardKind::OtherInteger(vals) },
                                ),
                            );
                        },
                    }
                },
                Terminator::Assert { cond, expected, .. } => {
                    ops.push(
                        TirOp::Guard(
                            Guard { val: cond.clone(), kind: GuardKind::Boolean(*expected) },
                        ),
                    );
                },
                // A trace must never actually execute code the compiler
                // marked unreachable.
                Terminator::Unreachable => unreached(),
                _ => {},
            }

            i = i + 1;
            proof {
                assert(ops.deep_view() =~= st_in.ops + sg.1 + tg.1 + gv);
                assert(st_in.ops + sg.1 + tg.1 + gv =~= ((st_in.ops + sg.1) + tg.1) + gv);
                assert(full == low_from(
                    sirm,
                    locs,
                    i as int,
                    (LowerState {
                        ops: ops.deep_view(),
                        rnm: rnm@,
                        tio: trace_inputs_local,
                    }),
                ));
            }
        }

        let ghost endst = LowerState { ops: ops.deep_view(), rnm: rnm@, tio: trace_inputs_local };
        proof {
            assert(full == LowerResult::Done(endst));
            if !trim_ok(endst.ops) {
                assert(lower(sirm, locs) is Fatal);
                assert(false);
            }
        }
        let ghost pre_ops = ops.deep_view();

        // Remove the remnants of the calls that started and stopped the
        // tracer at the ends of the trace. To be sure nothing important is
        // removed, check that these instructions have their expected shape.
        match ops.pop() {
            Some(TirOp::Statement(Statement::Enter(CallOperand::Fn(s), _, _, _))) => {
                if !str_contains(s.as_str(), "stop_tracing") {
                    unreached()
                }
            },
            _ => unreached(),
        }
        match ops.pop() {
            Some(TirOp::Statement(Statement::Assign(_, _))) => {},
            _ => unreached(),
        }
        match ops.pop() {
            Some(
                TirOp::Statement(
                    Statement::Assign(
                        _,
                        Rvalue::Use(Operand::Constant(Constant::Bool(false))),
                    ),
                ),
            ) => {},
            _ => unreached(),
        }
        match ops.pop() {
            Some(TirOp::Statement(Statement::StorageDead(_))) => {},
            _ => unreached(),
        }
        match ops.pop() {
            Some(TirOp::Statement(Statement::StorageDead(_))) => {},
            _ => unreached(),
        }
        match ops.pop() {
            Some(TirOp::Statement(Statement::StorageDead(_))) => {},
            _ => unreached(),
        }
        let head = ops.remove(0);
        match head {
            TirOp::Statement(Statement::StorageDead(_)) => {},
            _ => unreached(),
        }
        proof {
            assert(ops.deep_view() =~= trimmed(pre_ops));
        }

        let local_decls = rnm.done();
        Ok(TirTrace { ops, trace_inputs_local, local_decls })
    }
}

/// The renamer states reachable while lowering a trace: the current
/// offset is the top of the scope stack, no open scope's offset is above
/// the accumulator, and until the accumulator is first initialised only
/// the outermost scope, at offset 0, is open.
pub open spec fn rn_inv(r: RenView) -> bool {
    &&& r.stack.len() >= 1
    &&& r.offset == r.stack.last()
    &&& (r.acc matches Some(a) ==> forall|i: int| 0 <= i < r.stack.len() ==> r.stack[i] <= a)
    &&& (r.acc is None ==> r.stack == seq![0u32])
}

/// Renaming arguments touches only the table of used declarations; the
/// scope stack, offset and accumulator stay as they were.
proof fn lemma_rn_args_scaffold(r: RenView, args: Seq<Operand>, i: int, b: Body)
    ensures
        ({
            let r2 = rn_args(r, args, i, b).0;
            r2.stack == r.stack && r2.offset == r.offset && r2.acc == r.acc && r2.returns
                == r.returns
        }),
    decreases args.len() - i,
{
    if 0 <= i < args.len() {
        lemma_rn_args_scaffold(rn_operand(r, args[i], b).0, args, i + 1, b);
    }
}

/// Lowering a block's statements touches only the table of used
/// declarations.
proof fn lemma_low_stmts_scaffold(r: RenView, stmts: Seq<Statement>, i: int, b: Body)
    ensures
        ({
            let r2 = low_stmts(r, stmts, i, b).0;
            r2.stack == r.stack && r2.offset == r.offset && r2.acc == r.acc && r2.returns
                == r.returns
        }),
    decreases stmts.len() - i,
{
    if 0 <= i < stmts.len() {
        lemma_low_stmts_scaffold(low_stmt(r, stmts[i], b).0, stmts, i + 1, b);
    }
}

/// Registering an inlined callee's argument declarations touches only the
/// table of used declarations.
proof fn lemma_enter_decls_scaffold(r: RenView, i: int, nargs: int, cb: Body)
    ensures
        ({
            let r2 = rn_enter_decls(r, i, nargs, cb);
            r2.stack == r.stack && r2.offset == r.offset && r2.acc == r.acc && r2.returns
                == r.returns
        }),
    decreases nargs - i + 1,
{
    if 1 <= i <= nargs {
        let r2 = RenView {
            used: r.used.insert((r.offset + i) as u32, cb.local_decls@[i]),
            ..r
        };
        lemma_enter_decls_scaffold(r2, i + 1, nargs, cb);
    }
}

/// Lowering a terminator keeps the renamer's scope stack well formed:
/// entering an inlined call opens a scope at the accumulator, leaving one
/// restores the enclosing scope.
proof fn lemma_low_term_preserves_inv(r: RenView, t: Terminator, b: Body, sirm: Map<Seq<char>, Body>)
    requires
        rn_inv(r),
        low_term_ok(r, t, b, sirm),
    ensures
        rn_inv(low_term(r, t, b, sirm).0),
{
    match t {
        Terminator::Call { operand, args, destination } => match (operand, destination) {
            (CallOperand::Fn(sym), Some(dst)) => {
                let (r1, ret) = rn_place(r, dst.0, b);
                let (r2, newargs) = rn_args(r1, args@, 0, b);
                lemma_rn_args_scaffold(r1, args@, 0, b);
                if sirm.contains_key(sym@) {
                    let cb = sirm[sym@];
                    let r3 = rn_enter(r2, cb.local_decls@.len() as int, ret);
                    lemma_enter_decls_scaffold(r3, 1, args@.len() as int, cb);
                    assert(r3.stack.last() == r3.offset);
                }
            },
            _ => {},
        },
        Terminator::Return => {
            let r2 = rn_leave(r);
            assert(r2.stack.last() == r.stack[r.stack.len() - 2]);
        },
        _ => {},
    }
}

/// For any trace: the renamer's scope stack stays well formed through the
/// whole lowering. Together with the entry lemmas below this carries the
/// alpha-renaming guarantee to every inlined call a trace opens: each new
/// scope starts at the accumulator, at or above the offset of every scope
/// still open.
pub proof fn lemma_lowering_preserves_renamer_inv(
    sirm: Map<Seq<char>, Body>,
    locs: Seq<SirLoc>,
    i: int,
    st: LowerState,
)
    requires
        rn_inv(st.rnm),
        low_from(sirm, locs, i, st) matches LowerResult::Done(fin),
    ensures
        low_from(sirm, locs, i, st) matches LowerResult::Done(fin) && rn_inv(fin.rnm),
    decreases locs.len() - i,
{
    if 0 <= i < locs.len() {
        let loc = locs[i];
        let b = sirm[loc.symbol_name@];
        let r0 = rn_init_acc(st.rnm, b.local_decls@.len() as u32);
        assert(rn_inv(r0));
        let blk = b.blocks@[loc.bb_idx as int];
        let (r1, ops1) = low_stmts(r0, blk.stmts@, 0, b);
        lemma_low_stmts_scaffold(r0, blk.stmts@, 0, b);
        let (r2, ops2) = low_term(r1, blk.term, b, sirm);
        lemma_low_term_preserves_inv(r1, blk.term, b, sirm);
        let nxt = if i + 1 < locs.len() {
            Some(locs[i + 1].bb_idx)
        } else {
            None
        };
        let ops3 = low_guard(blk.term, nxt);
        lemma_lowering_preserves_renamer_inv(
            sirm,
            locs,
            i + 1,
            LowerState { ops: st.ops + ops1 + ops2 + ops3, rnm: r2, tio: b.trace_inputs_local },
        );
    }
}

/// In any reachable renamer state, a freshly entered scope starts at or
/// above the offset of every scope still open.
pub proof fn lemma_entered_scope_above_open_scopes(
    r: RenView,
    n: int,
    dest: PlaceView,
    i: int,
)
    requires
        rn_inv(r),
        rn_enter_ok(r, n),
        0 <= i < r.stack.len(),
    ensures
        rn_enter(r, n, dest).offset >= r.stack[i],
{
}

/// Alpha-renaming keeps frames contiguous: when a call is inlined, the
/// renaming scope it opens starts exactly at the accumulator at the time of
/// entry, so the callee's live locals (indices `1..n`, local 0 being
/// substituted away) rename to the contiguous range
/// `acc + 1 .. acc + n`.
pub proof fn lemma_renamed_frame_contiguous(r: RenView, n: int, dest: PlaceView, l: Local, b: Body)
    requires
        rn_enter_ok(r, n),
        1 <= l.0 < n,
        rn_local_ok(rn_enter(r, n, dest), l, b),
    ensures
        rn_enter(r, n, dest).offset == r.acc->0,
        rn_local(rn_enter(r, n, dest), l, b).1.0 == r.acc->0 + l.0,
        r.acc->0 < rn_local(rn_enter(r, n, dest), l, b).1.0 < r.acc->0 + n,
{
}

/// Alpha-renaming is injective across frames: a live local of the outer
/// frame (one of the `n_outer` locals below the accumulator) and a live
/// local of a freshly entered inlined frame never rename to the same
/// index.
pub proof fn lemma_renaming_injective(
    r: RenView,
    n_outer: int,
    n_inner: int,
    dest: PlaceView,
    la: Local,
    lb: Local,
    b: Body,
)
    requires
        rn_enter_ok(r, n_inner),
        // every local of the outer frame was consumed by the accumulator
        // before the inner call was entered
        r.offset + n_outer <= r.acc->0,
        0 <= la.0 < n_outer,
        1 <= lb.0 < n_inner,
        rn_local_ok(r, la, b),
        rn_local_ok(rn_enter(r, n_inner, dest), lb, b),
    ensures
        rn_local(r, la, b).1 != rn_local(rn_enter(r, n_inner, dest), lb, b).1,
{
}

/// Local 0 of an inlined callee resolves, after renaming, to the caller's
/// destination place exactly, never to a fresh renamed local 0: entering a
/// call pushes the destination, and renaming a place rooted at local 0
/// returns the innermost pushed destination whole.
pub proof fn lemma_local0_substitution(r: RenView, n: int, dest: PlaceView, p: Place, b: Body)
    requires
        rn_enter_ok(r, n),
        p.local == (Local(0u32)),
    ensures
        rn_place_ok(rn_enter(r, n, dest), p, b),
        rn_place(rn_enter(r, n, dest), p, b).1 == dest,
{
}

/// Guard fidelity for a switch: a trace that proceeds to a listed target
/// block yields an `Integer` guard on the first matching case's value; one
/// that proceeds to any other block takes the fallback edge and yields an
/// `OtherInteger` guard excluding every listed value, not merely an
/// assertion of the fallback target.
pub proof fn lemma_guard_fidelity(t: Terminator, next_bb: u32)
    requires
        t matches Terminator::SwitchInt { .. },
        low_guard_ok(t, Some(next_bb)),
    ensures
        t matches Terminator::SwitchInt { discr, values, target_bbs, otherwise_bb } ==> {
            let p = first_pos(target_bbs@, next_bb);
            &&& (exists|k: int| 0 <= k < target_bbs@.len() && target_bbs@[k] == next_bb) ==> (0
                <= p < target_bbs@.len() && target_bbs@[p] == next_bb && low_guard(
                t,
                Some(next_bb),
            ) == seq![
                TirOpView::Guard(
                    (GuardView {
                        val: discr@,
                        kind: GuardKindView::Integer(values@[p].spec_val()),
                    }),
                ),
            ])
            &&& !(exists|k: int| 0 <= k < target_bbs@.len() && target_bbs@[k] == next_bb)
                ==> low_guard(t, Some(next_bb)) == seq![
                TirOpView::Guard(
                    (GuardView {
                        val: discr@,
                        kind: GuardKindView::OtherInteger(
                            values@.map_values(|v: SerU128| v.spec_val()),
                        ),
                    }),
                ),
            ]
        },
{
    match t {
        Terminator::SwitchInt { discr, values, target_bbs, otherwise_bb } => {
            lemma_first_pos(target_bbs@, next_bb);
        },
        _ => {},
    }
}

/// Boundary trimming removes exactly the documented operations: one off
/// the head and six off the tail, leaving the rest untouched and in
/// order.
pub proof fn lemma_boundary_trimming(ops: Seq<TirOpView>)
    requires
        trim_ok(ops),
    ensures
        trimmed(ops).len() == ops.len() - 7,
        forall|j: int| 0 <= j < ops.len() - 7 ==> trimmed(ops)[j] == ops[j + 1],
{
}

/// A lowered trace whose head or tail does not match the documented
/// start/stop bookkeeping shape fails fatally rather than being delivered
/// trimmed.
pub proof fn lemma_trimming_shape_checked(sirm: Map<Seq<char>, Body>, locs: Seq<SirLoc>)
    requires
        low_from(sirm, locs, 0, lower_init()) matches LowerResult::Done(st) && !trim_ok(st.ops),
    ensures
        lower(sirm, locs) is Fatal,
{
}

} // verus!

//! A reference interpreter that executes SIR bodies directly against
//! byte-addressed stack frames.
//!
//! All frames live in one byte arena owned by the interpreter; a frame is a
//! contiguous region of it, laid out exactly as the body's precomputed
//! offset table says. A pointer value is the 64-bit little-endian arena
//! address of what it refers to, so indirect places chase pointers by
//! decoding the slot and adding byte offsets, as the address-resolution
//! rules demand.

use vstd::prelude::*;

use crate::bodyflags;
use crate::sir::Sir;
use crate::types::{Body, CallOperand, Constant, ConstantInt, IPlace, Local, LocalDecl, Operand, Place, Statement, Terminator, Ty, UnsignedInt};

verus! {

/// 256 to the `n`: the number of values `n` bytes can hold.
pub open spec fn pow256(n: nat) -> nat
    decreases n,
{
    if n == 0 {
        1
    } else {
        256 * pow256((n - 1) as nat)
    }
}

/// The value of a little-endian byte sequence.
pub open spec fn le_to_nat(b: Seq<u8>) -> nat
    decreases b.len(),
{
    if b.len() == 0 {
        0nat
    } else {
        (b[0] + 256 * le_to_nat(b.drop_first())) as nat
    }
}

/// The `n`-byte little-endian image of a value.
pub open spec fn le_of_nat(v: nat, n: nat) -> Seq<u8>
    decreases n,
{
    if n == 0 {
        Seq::empty()
    } else {
        seq![(v % 256) as u8] + le_of_nat(v / 256, (n - 1) as nat)
    }
}

/// A little-endian image holds a value below the byte count's capacity.
pub proof fn lemma_le_to_nat_bound(b: Seq<u8>)
    ensures
        le_to_nat(b) < pow256(b.len()),
    decreases b.len(),
{
    if b.len() > 0 {
        lemma_le_to_nat_bound(b.drop_first());
    }
}

/// Encoding a value little-endian and decoding it again gives the value
/// back, for every value the byte count can hold.
pub proof fn lemma_le_round_trip(v: nat, n: nat)
    requires
        v < pow256(n),
    ensures
        le_of_nat(v, n).len() == n,
        le_to_nat(le_of_nat(v, n)) == v,
    decreases n,
{
    if n > 0 {
        lemma_le_round_trip(v / 256, (n - 1) as nat);
        assert(le_of_nat(v, n).drop_first() =~= le_of_nat(v / 256, (n - 1) as nat));
    }
}

/// `mem` with `bytes` written at address `a`; everything else untouched.
pub open spec fn splice(mem: Seq<u8>, a: int, bytes: Seq<u8>) -> Seq<u8> {
    Seq::new(
        mem.len(),
        |i: int|
            if a <= i < a + bytes.len() {
                bytes[i - a]
            } else {
                mem[i]
            },
    )
}

/// Writing bytes and reading the same range back yields them unchanged,
/// and no byte outside the range moves.
pub proof fn lemma_store_round_trip(mem: Seq<u8>, a: int, bytes: Seq<u8>)
    requires
        0 <= a,
        a + bytes.len() <= mem.len(),
    ensures
        splice(mem, a, bytes).subrange(a, a + bytes.len()) == bytes,
        forall|i: int|
            0 <= i < mem.len() && !(a <= i < a + bytes.len()) ==> splice(mem, a, bytes)[i]
                == mem[i],
{
    assert(splice(mem, a, bytes).subrange(a, a + bytes.len()) =~= bytes);
}

/// Mathematical image of a stack frame: where its locals begin in the
/// arena, how many bytes it spans, and each local's offset within it.
pub struct FrameView {
    pub base: usize,
    pub size: usize,
    pub offsets: Seq<usize>,
}

/// A local's slot is inside the frame's offset table and its address fits
/// the machine.
pub open spec fn local_slot_ok(f: FrameView, l: Local) -> bool {
    (l.0 as int) < f.offsets.len() && f.base + f.offsets[l.0 as int] <= usize::MAX
}

/// The arena address of a local's slot.
pub open spec fn local_slot(f: FrameView, l: Local) -> int {
    f.base + f.offsets[l.0 as int]
}

/// The pointer value stored in the 8-byte slot at address `a`.
pub open spec fn le64_at(mem: Seq<u8>, a: int) -> nat {
    le_to_nat(mem.subrange(a, a + 8))
}

/// Whether a resolved place can be turned into an arena address: a direct
/// place needs its local's slot, an indirect one additionally reads a
/// pointer out of its base slot, and a constant has no address.
pub open spec fn resolve_ok(f: FrameView, mem: Seq<u8>, p: IPlace) -> bool {
    match p {
        IPlace::Val { local, off, .. } => local_slot_ok(f, local) && local_slot(f, local) + off
            <= usize::MAX,
        IPlace::Indirect { ptr, off, .. } => local_slot_ok(f, ptr.local) && local_slot(
            f,
            ptr.local,
        ) + ptr.off + 8 <= mem.len() && le64_at(mem, local_slot(f, ptr.local) + ptr.off) + off
            <= usize::MAX,
        IPlace::Const { .. } => false,
    }
}

/// The arena address a place resolves to: one pointer dereference at most,
/// followed by the declared byte offsets.
pub open spec fn resolve(f: FrameView, mem: Seq<u8>, p: IPlace) -> int {
    match p {
        IPlace::Val { local, off, .. } => local_slot(f, local) + off,
        IPlace::Indirect { ptr, off, .. } => le64_at(mem, local_slot(f, ptr.local) + ptr.off)
            + off,
        IPlace::Const { .. } => 0,
    }
}

/// The constants the interpreter can materialize: one-byte unsigned
/// integers. Everything else is a coverage gap and fatal.
pub open spec fn write_const_ok(c: Constant) -> bool {
    c matches Constant::Int(ConstantInt::UnsignedInt(UnsignedInt::U8(_)))
}

/// The byte image of a supported constant.
pub open spec fn const_byte(c: Constant) -> u8 {
    match c {
        Constant::Int(ci) => match ci {
            ConstantInt::UnsignedInt(ui) => match ui {
                UnsignedInt::U8(v) => v,
                _ => 0u8,
            },
            _ => 0u8,
        },
        _ => 0u8,
    }
}

/// A stack frame for writing and reading locals: one contiguous region of
/// the interpreter's arena plus the owning body's offset table.
#[derive(Debug)]
pub struct StackFrame {
    /// Where this frame's locals begin in the arena.
    base: usize,
    /// The offset of each local into the frame.
    offsets: Vec<usize>,
    /// The size and alignment of the frame's region, as the body's layout
    /// gave them.
    layout: (usize, usize),
}

impl View for StackFrame {
    type V = FrameView;

    closed spec fn view(&self) -> FrameView {
        FrameView { base: self.base, size: self.layout.0, offsets: self.offsets@ }
    }
}

impl StackFrame {
    /// The alignment the frame's region was laid out with.
    pub closed spec fn spec_align(&self) -> usize {
        self.layout.1
    }

    fn new(base: usize, offsets: Vec<usize>, layout: (usize, usize)) -> (r: Self)
        ensures
            r@ == (FrameView { base, size: layout.0, offsets: offsets@ }),
            r.spec_align() == layout.1,
    {
        StackFrame { base, offsets, layout }
    }

    /// Given a source and a destination address, copy `size` bytes from one
    /// to the other within the arena. Overlapping ranges behave as if the
    /// source were read in full first.
    pub fn write_val(&self, mem: &mut Vec<u8>, dst: usize, src: usize, size: usize)
        requires
            src + size <= old(mem)@.len(),
            dst + size <= old(mem)@.len(),
        ensures
            final(mem)@ == splice(old(mem)@, dst as int, old(mem)@.subrange(src as int, src + size)),
    {
        let ghost mem0 = mem@;
        let memn = mem.len();
        let mut buf: Vec<u8> = Vec::new();
        let mut i: usize = 0;
        while i < size
            invariant
                i <= size,
                memn == mem@.len(),
                src + size <= memn,
                dst + size <= memn,
                mem@ == mem0,
                buf@ == mem0.subrange(src as int, src + i),
            decreases size - i,
        {
            buf.push(mem[src + i]);
            i = i + 1;
            proof {
                assert(buf@ =~= mem0.subrange(src as int, src + i));
            }
        }
        let mut j: usize = 0;
        while j < size
            invariant
                j <= size,
                memn == mem@.len(),
                dst + size <= memn,
                src + size <= mem0.len(),
                mem0.len() == memn,
                buf@ == mem0.subrange(src as int, src + size),
                forall|k: int|
                    0 <= k < mem@.len() ==> mem@[k] == (if dst <= k < dst + j {
                        mem0.subrange(src as int, src + size)[k - dst]
                    } else {
                        mem0[k]
                    }),
            decreases size - j,
        {
            let b = buf[j];
            mem.set(dst + j, b);
            j = j + 1;
        }
        proof {
            assert(mem@ =~= splice(mem0, dst as int, mem0.subrange(src as int, src + size)));
        }
    }

    /// Write a constant to the address `dest`. Only one-byte unsigned
    /// constants have a materialization so far; anything else is a
    /// coverage gap the caller must rule out.
    pub fn write_const(&self, mem: &mut Vec<u8>, dest: usize, constant: &Constant)
        requires
            write_const_ok(*constant),
            dest < old(mem)@.len(),
        ensures
            final(mem)@ == splice(old(mem)@, dest as int, seq![const_byte(*constant)]),
    {
        match constant {
            Constant::Int(ci) => match ci {
                ConstantInt::UnsignedInt(ui) => match ui {
                    UnsignedInt::U8(v) => {
                        mem.set(dest, *v);
                        proof {
                            assert(mem@ =~= splice(
                                old(mem)@,
                                dest as int,
                                seq![const_byte(*constant)],
                            ));
                        }
                    },
                    _ => unreached(),
                },
                ConstantInt::SignedInt(_) => unreached(),
            },
            _ => unreached(),
        }
    }

    /// Get the arena address of a local's slot.
    fn local_ptr(&self, local: &Local) -> (r: usize)
        requires
            local_slot_ok(self@, *local),
        ensures
            r == local_slot(self@, *local),
    {
        let offset = self.offsets[local.0 as usize];
        self.base + offset
    }

    /// Get the arena address for an `IPlace`, while applying all offsets:
    /// a direct place stands at its local's slot, an indirect one at the
    /// pointer read from its base slot. Constants have no address.
    fn iplace_to_ptr(&self, mem: &Vec<u8>, place: &IPlace) -> (r: usize)
        requires
            resolve_ok(self@, mem@, *place),
        ensures
            r == resolve(self@, mem@, *place),
    {
        match place {
            IPlace::Val { local, off, .. } => {
                let base = self.local_ptr(local);
                base + (*off as usize)
            },
            IPlace::Indirect { ptr, off, .. } => {
                let mlen = mem.len();
                proof {
                    assert(local_slot(self@, ptr.local) + ptr.off + 8 <= mlen);
                }
                let slot = self.local_ptr(&ptr.local) + (ptr.off as usize);
                let p = read_le64(mem, slot);
                proof {
                    lemma_le_to_nat_bound(mem@.subrange(slot as int, slot + 8));
                    assert(le64_at(mem@, slot as int) + *off <= usize::MAX);
                }
                (p as usize) + (*off as usize)
            },
            IPlace::Const { .. } => unreached(),
        }
    }
}

/// Read the 8-byte little-endian pointer value stored at address `a`.
fn read_le64(mem: &Vec<u8>, a: usize) -> (r: u64)
    requires
        a + 8 <= mem@.len(),
    ensures
        r == le64_at(mem@, a as int),
{
    let mut r: u64 = 0;
    let n = mem.len();
    let mut i: usize = 8;
    while i > 0
        invariant
            i <= 8,
            n == mem@.len(),
            a + 8 <= n,
            r == le_to_nat(mem@.subrange(a + i, a + 8)),
            r < pow256((8 - i) as nat),
        decreases i,
    {
        proof {
            lemma_le_to_nat_bound(mem@.subrange(a + i, a + 8));
            assert(pow256(8) == 256 * pow256(7));
            assert(pow256((8 - i) as nat) <= pow256(7)) by {
                lemma_pow256_increases((8 - i) as nat, 7);
            };
            assert(pow256(8) == 0x10000000000000000) by {
                reveal_with_fuel(pow256, 9);
            };
        }
        i = i - 1;
        let b = mem[a + i];
        r = r * 256 + (b as u64);
        proof {
            assert(mem@.subrange(a + i, a + 8).drop_first() =~= mem@.subrange(a + i + 1, a + 8));
        }
    }
    proof {
        assert(mem@.subrange(a as int, a + 8) =~= mem@.subrange(a + 0, a + 8));
    }
    r
}

/// `pow256` grows with its exponent.
proof fn lemma_pow256_increases(m: nat, n: nat)
    requires
        m <= n,
    ensures
        pow256(m) <= pow256(n),
    decreases n,
{
    if m < n && n > 0 {
        lemma_pow256_increases(m, (n - 1) as nat);
    }
}

impl DeepView for StackFrame {
    type V = FrameView;

    closed spec fn deep_view(&self) -> FrameView {
        self.view()
    }
}

/// Read `size` bytes starting at address `a`.
fn read_bytes(mem: &Vec<u8>, a: usize, size: usize) -> (r: Vec<u8>)
    requires
        a + size <= mem@.len(),
    ensures
        r@ == mem@.subrange(a as int, a + size),
{
    let mut buf: Vec<u8> = Vec::new();
    let n = mem.len();
    let mut i: usize = 0;
    while i < size
        invariant
            i <= size,
            n == mem@.len(),
            a + size <= n,
            buf@ == mem@.subrange(a as int, a + i),
        decreases size - i,
    {
        buf.push(mem[a + i]);
        i = i + 1;
        proof {
            assert(buf@ =~= mem@.subrange(a as int, a + i));
        }
    }
    buf
}

/// Write the bytes of `buf` at address `a`.
fn write_bytes(mem: &mut Vec<u8>, a: usize, buf: &Vec<u8>)
    requires
        a + buf@.len() <= old(mem)@.len(),
    ensures
        final(mem)@ == splice(old(mem)@, a as int, buf@),
{
    let ghost mem0 = mem@;
    let memn = mem.len();
    let size = buf.len();
    let mut j: usize = 0;
    while j < size
        invariant
            j <= size,
            memn == mem@.len(),
            size == buf@.len(),
            a + size <= memn,
            forall|k: int|
                0 <= k < mem@.len() ==> mem@[k] == (if a <= k < a + j {
                    buf@[k - a]
                } else {
                    mem0[k]
                }),
        decreases size - j,
    {
        let b = buf[j];
        mem.set(a + j, b);
        j = j + 1;
    }
    proof {
        assert(mem@ =~= splice(mem0, a as int, buf@));
    }
}

/// Write the 8-byte little-endian image of a pointer value at address `a`.
fn write_le64(mem: &mut Vec<u8>, a: usize, v: u64)
    requires
        a + 8 <= old(mem)@.len(),
    ensures
        final(mem)@ == splice(old(mem)@, a as int, le_of_nat(v as nat, 8)),
{
    let mut buf: Vec<u8> = Vec::new();
    let mut cur: u64 = v;
    let mut i: usize = 0;
    while i < 8
        invariant
            i <= 8,
            buf@.len() == i,
            le_of_nat(v as nat, 8) == buf@ + le_of_nat(cur as nat, (8 - i) as nat),
        decreases 8 - i,
    {
        let b = (cur & 0xff) as u8;
        proof {
            assert(cur & 0xff == cur % 256) by (bit_vector);
            assert(cur >> 8 == cur / 256) by (bit_vector);
            assert(le_of_nat(cur as nat, (8 - i) as nat) == seq![(cur as nat % 256) as u8]
                + le_of_nat(cur as nat / 256, (8 - i - 1) as nat));
        }
        buf.push(b);
        cur = cur >> 8;
        i = i + 1;
        proof {
            assert(buf@ + le_of_nat(cur as nat, (8 - i) as nat) =~= le_of_nat(v as nat, 8));
        }
    }
    proof {
        assert(buf@ + le_of_nat(cur as nat, 0) =~= buf@);
        assert(buf@ =~= le_of_nat(v as nat, 8));
    }
    write_bytes(mem, a, &buf);
}

/// What a `Store` statement needs: both places resolve, the source's type
/// is known so its byte count is, and both ranges lie inside the arena. A
/// constant source instead needs a supported materialization.
pub open spec fn store_ok(sir: Sir, f: FrameView, mem: Seq<u8>, dest: IPlace, src: IPlace) -> bool {
    match src {
        IPlace::Const { val, .. } => resolve_ok(f, mem, dest) && write_const_ok(val) && resolve(
            f,
            mem,
            dest,
        ) + 1 <= mem.len(),
        _ => {
            &&& resolve_ok(f, mem, src)
            &&& resolve_ok(f, mem, dest)
            &&& sir.ty_known(src.spec_ty())
            &&& sir.spec_ty(src.spec_ty()).layout_known()
            &&& sir.spec_ty(src.spec_ty()).spec_size() <= usize::MAX
            &&& resolve(f, mem, src) + sir.spec_ty(src.spec_ty()).spec_size() <= mem.len()
            &&& resolve(f, mem, dest) + sir.spec_ty(src.spec_ty()).spec_size() <= mem.len()
        },
    }
}

/// The arena after a `Store`: the source's bytes (or the constant's image)
/// written at the destination's address.
pub open spec fn store_eff(sir: Sir, f: FrameView, mem: Seq<u8>, dest: IPlace, src: IPlace) -> Seq<
    u8,
> {
    match src {
        IPlace::Const { val, .. } => splice(mem, resolve(f, mem, dest), seq![const_byte(val)]),
        _ => splice(
            mem,
            resolve(f, mem, dest),
            mem.subrange(
                resolve(f, mem, src),
                resolve(f, mem, src) + sir.spec_ty(src.spec_ty()).spec_size(),
            ),
        ),
    }
}

/// What a `MkRef` statement needs: both places resolve and the 8-byte
/// pointer slot lies inside the arena.
pub open spec fn mkref_ok(f: FrameView, mem: Seq<u8>, dest: IPlace, src: IPlace) -> bool {
    &&& resolve_ok(f, mem, src)
    &&& resolve_ok(f, mem, dest)
    &&& resolve(f, mem, dest) + 8 <= mem.len()
}

/// The arena after a `MkRef`: the source's address written at the
/// destination as a little-endian pointer.
pub open spec fn mkref_eff(f: FrameView, mem: Seq<u8>, dest: IPlace, src: IPlace) -> Seq<u8> {
    splice(mem, resolve(f, mem, dest), le_of_nat(resolve(f, mem, src) as nat, 8))
}

/// One statement of an interpreter body: `Store`, `MkRef` or `Nop`. Every
/// other statement kind is a coverage gap, not a recoverable runtime
/// condition.
pub open spec fn stmt_ok(sir: Sir, f: FrameView, mem: Seq<u8>, s: Statement) -> bool {
    match s {
        Statement::Store(dest, src) => store_ok(sir, f, mem, dest, src),
        Statement::MkRef(dest, src) => mkref_ok(f, mem, dest, src),
        Statement::Nop => true,
        _ => false,
    }
}

pub open spec fn stmt_eff(sir: Sir, f: FrameView, mem: Seq<u8>, s: Statement) -> Seq<u8> {
    match s {
        Statement::Store(dest, src) => store_eff(sir, f, mem, dest, src),
        Statement::MkRef(dest, src) => mkref_eff(f, mem, dest, src),
        _ => mem,
    }
}

/// A block's statements in order, from position `i` on.
pub open spec fn stmts_ok(sir: Sir, f: FrameView, mem: Seq<u8>, stmts: Seq<Statement>, i: int) -> bool
    decreases stmts.len() - i,
{
    if i < 0 || i >= stmts.len() {
        true
    } else {
        stmt_ok(sir, f, mem, stmts[i]) && stmts_ok(
            sir,
            f,
            stmt_eff(sir, f, mem, stmts[i]),
            stmts,
            i + 1,
        )
    }
}

pub open spec fn stmts_eff(sir: Sir, f: FrameView, mem: Seq<u8>, stmts: Seq<Statement>, i: int) -> Seq<
    u8,
>
    decreases stmts.len() - i,
{
    if i < 0 || i >= stmts.len() {
        mem
    } else {
        stmts_eff(sir, f, stmt_eff(sir, f, mem, stmts[i]), stmts, i + 1)
    }
}

impl StackFrame {
    /// Stores one `IPlace` into another: a direct or indirect source is
    /// byte-copied at the source type's size, a constant is materialized
    /// directly.
    fn store(&self, mem: &mut Vec<u8>, sir: &Sir, dest: &IPlace, src: &IPlace)
        requires
            sir.wf(),
            store_ok(*sir, self@, old(mem)@, *dest, *src),
        ensures
            final(mem)@ == store_eff(*sir, self@, old(mem)@, *dest, *src),
    {
        match src {
            IPlace::Val { .. } | IPlace::Indirect { .. } => {
                let src_ptr = self.iplace_to_ptr(mem, src);
                let dst_ptr = self.iplace_to_ptr(mem, dest);
                let size = sir.ty(&src.ty()).size() as usize;
                self.write_val(mem, dst_ptr, src_ptr, size);
            },
            IPlace::Const { val, .. } => {
                let dst_ptr = self.iplace_to_ptr(mem, dest);
                self.write_const(mem, dst_ptr, val);
            },
        }
    }
}

/// What copying one call argument needs: the callee's slot for positional
/// local `idx + 1` exists, and the argument either materializes (a
/// constant) or resolves in the caller's frame with its size known and
/// both ranges inside the arena.
pub open spec fn copy_arg_ok(
    sir: Sir,
    callee: FrameView,
    caller: FrameView,
    mem: Seq<u8>,
    idx: int,
    arg: IPlace,
) -> bool {
    &&& idx + 1 <= u32::MAX
    &&& local_slot_ok(callee, Local((idx + 1) as u32))
    &&& match arg {
        IPlace::Const { val, .. } => write_const_ok(val) && local_slot(
            callee,
            Local((idx + 1) as u32),
        ) + 1 <= mem.len(),
        _ => {
            &&& resolve_ok(caller, mem, arg)
            &&& sir.ty_known(arg.spec_ty())
            &&& sir.spec_ty(arg.spec_ty()).layout_known()
            &&& sir.spec_ty(arg.spec_ty()).spec_size() <= usize::MAX
            &&& resolve(caller, mem, arg) + sir.spec_ty(arg.spec_ty()).spec_size() <= mem.len()
            &&& local_slot(callee, Local((idx + 1) as u32)) + sir.spec_ty(
                arg.spec_ty(),
            ).spec_size() <= mem.len()
        },
    }
}

pub open spec fn copy_arg_eff(
    sir: Sir,
    callee: FrameView,
    caller: FrameView,
    mem: Seq<u8>,
    idx: int,
    arg: IPlace,
) -> Seq<u8> {
    match arg {
        IPlace::Const { val, .. } => splice(
            mem,
            local_slot(callee, Local((idx + 1) as u32)),
            seq![const_byte(val)],
        ),
        _ => splice(
            mem,
            local_slot(callee, Local((idx + 1) as u32)),
            mem.subrange(
                resolve(caller, mem, arg),
                resolve(caller, mem, arg) + sir.spec_ty(arg.spec_ty()).spec_size(),
            ),
        ),
    }
}

/// Copying a call's arguments in positional order, from position `i` on.
pub open spec fn copy_args_ok(
    sir: Sir,
    callee: FrameView,
    caller: FrameView,
    mem: Seq<u8>,
    args: Seq<IPlace>,
    i: int,
) -> bool
    decreases args.len() - i,
{
    if i < 0 || i >= args.len() {
        true
    } else {
        copy_arg_ok(sir, callee, caller, mem, i, args[i]) && copy_args_ok(
            sir,
            callee,
            caller,
            copy_arg_eff(sir, callee, caller, mem, i, args[i]),
            args,
            i + 1,
        )
    }
}

pub open spec fn copy_args_eff(
    sir: Sir,
    callee: FrameView,
    caller: FrameView,
    mem: Seq<u8>,
    args: Seq<IPlace>,
    i: int,
) -> Seq<u8>
    decreases args.len() - i,
{
    if i < 0 || i >= args.len() {
        mem
    } else {
        copy_args_eff(
            sir,
            callee,
            caller,
            copy_arg_eff(sir, callee, caller, mem, i, args[i]),
            args,
            i + 1,
        )
    }
}

impl StackFrame {
    /// Copy the call arguments into this (callee) frame's positional
    /// locals `1..=N`, reading from the caller's frame: constants are
    /// materialized directly, everything else is byte-copied at the source
    /// type's size.
    pub fn copy_args(&self, mem: &mut Vec<u8>, sir: &Sir, args: &Vec<IPlace>, frame: &StackFrame)
        requires
            sir.wf(),
            copy_args_ok(*sir, self@, frame@, old(mem)@, args@, 0),
        ensures
            final(mem)@ == copy_args_eff(*sir, self@, frame@, old(mem)@, args@, 0),
    {
        let ghost goal = copy_args_eff(*sir, self@, frame@, old(mem)@, args@, 0);
        let n = args.len();
        let mut i: usize = 0;
        while i < n
            invariant
                i <= n,
                n == args@.len(),
                sir.wf(),
                copy_args_ok(*sir, self@, frame@, mem@, args@, i as int),
                goal == copy_args_eff(*sir, self@, frame@, mem@, args@, i as int),
            decreases n - i,
        {
            let arg = &args[i];
            let dst = self.local_ptr(&Local((i as u32) + 1));
            match arg {
                IPlace::Val { .. } | IPlace::Indirect { .. } => {
                    let src = frame.iplace_to_ptr(mem, arg);
                    let size = sir.ty(&arg.ty()).size() as usize;
                    self.write_val(mem, dst, src, size);
                },
                IPlace::Const { val, .. } => {
                    self.write_const(mem, dst, val);
                },
            }
            i = i + 1;
        }
    }
}

/// The padding that takes `len` up to the next multiple of `align`.
pub open spec fn pad_to(len: int, align: int) -> int {
    (align - (len % align)) % align
}

/// The base address of a frame allocated at the end of an arena of `len`
/// bytes, aligned as the body asks.
pub open spec fn frame_base(len: int, align: int) -> int {
    len + pad_to(len, align)
}

/// The frame a body gets when its activation record is allocated at the
/// end of the arena.
pub open spec fn new_frame_view(memlen: int, b: Body) -> FrameView {
    FrameView {
        base: frame_base(memlen, b.layout.1 as int) as usize,
        size: b.layout.0,
        offsets: b.offsets@,
    }
}

/// The arena grown by the padding and the body's activation record, all
/// zeroed.
pub open spec fn grow_for(mem: Seq<u8>, b: Body) -> Seq<u8> {
    mem + Seq::new(
        (frame_base(mem.len() as int, b.layout.1 as int) + b.layout.0 - mem.len()) as nat,
        |i: int| 0u8,
    )
}

/// What allocating a frame for a body needs: a nonzero alignment and an
/// activation record that still fits the machine's address space.
pub open spec fn alloc_ok(memlen: int, b: Body) -> bool {
    b.layout.1 >= 1 && frame_base(memlen, b.layout.1 as int) + b.layout.0 <= usize::MAX
}

/// What copying one call argument operand needs: the operand is either a
/// supported constant or a bare local (a place without projections) of the
/// caller, whose declared type gives the byte count to copy.
pub open spec fn copy_operand_ok(
    sir: Sir,
    caller_body: Body,
    callee: FrameView,
    caller: FrameView,
    mem: Seq<u8>,
    idx: int,
    o: Operand,
) -> bool {
    &&& idx + 1 <= u32::MAX
    &&& local_slot_ok(callee, Local((idx + 1) as u32))
    &&& match o {
        Operand::Constant(c) => write_const_ok(c) && local_slot(callee, Local((idx + 1) as u32))
            + 1 <= mem.len(),
        Operand::Place(p) => {
            &&& p.projection@.len() == 0
            &&& (p.local.0 as int) < caller_body.local_decls@.len()
            &&& local_slot_ok(caller, p.local)
            &&& {
                let ty = caller_body.local_decls@[p.local.0 as int].ty;
                &&& sir.ty_known(ty)
                &&& sir.spec_ty(ty).layout_known()
                &&& sir.spec_ty(ty).spec_size() <= usize::MAX
                &&& local_slot(caller, p.local) + sir.spec_ty(ty).spec_size() <= mem.len()
                &&& local_slot(callee, Local((idx + 1) as u32)) + sir.spec_ty(ty).spec_size()
                    <= mem.len()
            }
        },
    }
}

pub open spec fn copy_operand_eff(
    sir: Sir,
    caller_body: Body,
    callee: FrameView,
    caller: FrameView,
    mem: Seq<u8>,
    idx: int,
    o: Operand,
) -> Seq<u8> {
    match o {
        Operand::Constant(c) => splice(
            mem,
            local_slot(callee, Local((idx + 1) as u32)),
            seq![const_byte(c)],
        ),
        Operand::Place(p) => {
            let size = sir.spec_ty(caller_body.local_decls@[p.local.0 as int].ty).spec_size();
            splice(
                mem,
                local_slot(callee, Local((idx + 1) as u32)),
                mem.subrange(local_slot(caller, p.local), local_slot(caller, p.local) + size),
            )
        },
    }
}

pub open spec fn copy_operands_ok(
    sir: Sir,
    caller_body: Body,
    callee: FrameView,
    caller: FrameView,
    mem: Seq<u8>,
    args: Seq<Operand>,
    i: int,
) -> bool
    decreases args.len() - i,
{
    if i < 0 || i >= args.len() {
        true
    } else {
        copy_operand_ok(sir, caller_body, callee, caller, mem, i, args[i]) && copy_operands_ok(
            sir,
            caller_body,
            callee,
            caller,
            copy_operand_eff(sir, caller_body, callee, caller, mem, i, args[i]),
            args,
            i + 1,
        )
    }
}

pub open spec fn copy_operands_eff(
    sir: Sir,
    caller_body: Body,
    callee: FrameView,
    caller: FrameView,
    mem: Seq<u8>,
    args: Seq<Operand>,
    i: int,
) -> Seq<u8>
    decreases args.len() - i,
{
    if i < 0 || i >= args.len() {
        mem
    } else {
        copy_operands_eff(
            sir,
            caller_body,
            callee,
            caller,
            copy_operand_eff(sir, caller_body, callee, caller, mem, i, args[i]),
            args,
            i + 1,
        )
    }
}

/// The running state of laying out an activation record: the offsets
/// handed out so far, the byte the next local would start at (before
/// alignment), and the strictest alignment seen.
pub struct LayoutAcc {
    pub offsets: Seq<usize>,
    pub end: usize,
    pub align: usize,
}

pub open spec fn layout_init() -> LayoutAcc {
    LayoutAcc { offsets: Seq::empty(), end: 0usize, align: 1usize }
}

/// What giving the next local a slot needs: its type resolves, has a
/// usable layout, and the aligned offset and new end still fit the
/// machine.
pub open spec fn layout_step_ok(sir: Sir, acc: LayoutAcc, d: LocalDecl) -> bool {
    &&& sir.ty_known(d.ty)
    &&& sir.spec_ty(d.ty).layout_known()
    &&& sir.spec_ty(d.ty).spec_align() >= 1
    &&& sir.spec_ty(d.ty).spec_align() <= usize::MAX
    &&& sir.spec_ty(d.ty).spec_size() <= usize::MAX
    &&& frame_base(acc.end as int, sir.spec_ty(d.ty).spec_align() as int) <= usize::MAX
    &&& frame_base(acc.end as int, sir.spec_ty(d.ty).spec_align() as int) + sir.spec_ty(
        d.ty,
    ).spec_size() <= usize::MAX
}

pub open spec fn layout_step(sir: Sir, acc: LayoutAcc, d: LocalDecl) -> LayoutAcc {
    let a = sir.spec_ty(d.ty).spec_align() as usize;
    let off = frame_base(acc.end as int, a as int);
    LayoutAcc {
        offsets: acc.offsets.push(off as usize),
        end: (off + sir.spec_ty(d.ty).spec_size()) as usize,
        align: if a > acc.align {
            a
        } else {
            acc.align
        },
    }
}

/// Laying the locals out in declaration order, from position `i` on.
pub open spec fn layout_from_ok(sir: Sir, decls: Seq<LocalDecl>, i: int, acc: LayoutAcc) -> bool
    decreases decls.len() - i,
{
    if i < 0 || i >= decls.len() {
        true
    } else {
        layout_step_ok(sir, acc, decls[i]) && layout_from_ok(
            sir,
            decls,
            i + 1,
            layout_step(sir, acc, decls[i]),
        )
    }
}

pub open spec fn layout_from(sir: Sir, decls: Seq<LocalDecl>, i: int, acc: LayoutAcc) -> LayoutAcc
    decreases decls.len() - i,
{
    if i < 0 || i >= decls.len() {
        acc
    } else {
        layout_from(sir, decls, i + 1, layout_step(sir, acc, decls[i]))
    }
}

/// Whether a whole activation record can be laid out: every local gets a
/// slot and the record, rounded up to its alignment, fits the machine.
pub open spec fn locals_layout_ok(sir: Sir, decls: Seq<LocalDecl>) -> bool {
    &&& layout_from_ok(sir, decls, 0, layout_init())
    &&& {
        let acc = layout_from(sir, decls, 0, layout_init());
        frame_base(acc.end as int, acc.align as int) <= usize::MAX
    }
}

/// The slots handed out so far stay in declaration order and inside the
/// record being built.
pub open spec fn layout_acc_wf(sir: Sir, decls: Seq<LocalDecl>, i: int, acc: LayoutAcc) -> bool {
    &&& acc.align >= 1
    &&& acc.offsets.len() == i
    &&& forall|j: int|
        0 <= j < i - 1 ==> #[trigger] acc.offsets[j] + sir.spec_ty(decls[j].ty).spec_size()
            <= acc.offsets[j + 1]
    &&& forall|j: int|
        0 <= j < i ==> #[trigger] acc.offsets[j] + sir.spec_ty(decls[j].ty).spec_size()
            <= acc.end
}

proof fn lemma_layout_preserves_wf(sir: Sir, decls: Seq<LocalDecl>, i: int, acc: LayoutAcc)
    requires
        0 <= i <= decls.len(),
        layout_from_ok(sir, decls, i, acc),
        layout_acc_wf(sir, decls, i, acc),
    ensures
        layout_acc_wf(sir, decls, decls.len() as int, layout_from(sir, decls, i, acc)),
        layout_from(sir, decls, i, acc).end >= acc.end,
    decreases decls.len() - i,
{
    if i < decls.len() {
        let acc2 = layout_step(sir, acc, decls[i]);
        assert(layout_acc_wf(sir, decls, i + 1, acc2));
        lemma_layout_preserves_wf(sir, decls, i + 1, acc2);
    }
}

proof fn lemma_layout_offsets_chain(sir: Sir, decls: Seq<LocalDecl>, acc: LayoutAcc, j: int, k: int)
    requires
        layout_acc_wf(sir, decls, decls.len() as int, acc),
        0 <= j < k < decls.len(),
    ensures
        acc.offsets[j] + sir.spec_ty(decls[j].ty).spec_size() <= acc.offsets[k],
    decreases k - j,
{
    if j + 1 < k {
        lemma_layout_offsets_chain(sir, decls, acc, j + 1, k);
    }
}

/// The computed layout gives every local a slot inside the record, and no
/// two locals' byte ranges overlap: each slot ends before the next
/// declared local's slot begins.
pub proof fn lemma_layout_slots_disjoint(sir: Sir, decls: Seq<LocalDecl>)
    requires
        locals_layout_ok(sir, decls),
    ensures
        ({
            let acc = layout_from(sir, decls, 0, layout_init());
            &&& acc.offsets.len() == decls.len()
            &&& forall|j: int, k: int|
                0 <= j < k < decls.len() ==> #[trigger] acc.offsets[j] + sir.spec_ty(
                    decls[j].ty,
                ).spec_size() <= #[trigger] acc.offsets[k]
            &&& forall|j: int|
                0 <= j < decls.len() ==> #[trigger] acc.offsets[j] + sir.spec_ty(
                    decls[j].ty,
                ).spec_size() <= frame_base(acc.end as int, acc.align as int)
        }),
{
    lemma_layout_preserves_wf(sir, decls, 0, layout_init());
    let acc = layout_from(sir, decls, 0, layout_init());
    assert(acc.end <= frame_base(acc.end as int, acc.align as int));
    assert forall|j: int, k: int|
        0 <= j < k < decls.len() implies #[trigger] acc.offsets[j] + sir.spec_ty(
        decls[j].ty,
    ).spec_size() <= #[trigger] acc.offsets[k] by {
        lemma_layout_offsets_chain(sir, decls, acc, j, k);
    }
}

/// Compute a body's activation-record layout from its local declarations,
/// as if laying out a struct whose fields are the locals in declaration
/// order: a byte offset per local, the overall size rounded up to the
/// overall alignment, and that alignment. Nothing is returned where a
/// type cannot be resolved, has no layout, or the record would not fit
/// the machine.
pub fn layout_locals(sir: &Sir, decls: &Vec<LocalDecl>) -> (r: Option<(Vec<usize>, usize, usize)>)
    requires
        sir.wf(),
    ensures
        match r {
            Some(t) => locals_layout_ok(*sir, decls@) && ({
                let acc = layout_from(*sir, decls@, 0, layout_init());
                t.0@ == acc.offsets && t.1 == frame_base(acc.end as int, acc.align as int)
                    && t.2 == acc.align
            }),
            None => !locals_layout_ok(*sir, decls@),
        },
{
    let mut offsets: Vec<usize> = Vec::new();
    let mut end: usize = 0;
    let mut align: usize = 1;
    let n = decls.len();
    let mut i: usize = 0;
    proof {
        assert(offsets@ =~= layout_init().offsets);
    }
    while i < n
        invariant
            i <= n,
            n == decls@.len(),
            sir.wf(),
            align >= 1,
            layout_from_ok(*sir, decls@, 0, layout_init()) == layout_from_ok(
                *sir,
                decls@,
                i as int,
                (LayoutAcc { offsets: offsets@, end, align }),
            ),
            layout_from(*sir, decls@, 0, layout_init()) == layout_from(
                *sir,
                decls@,
                i as int,
                (LayoutAcc { offsets: offsets@, end, align }),
            ),
        decreases n - i,
    {
        let ghost acc_in = LayoutAcc { offsets: offsets@, end, align };
        let d = decls[i];
        let ty = match sir.try_ty(&d.ty) {
            Some(t) => t,
            None => {
                return None;
            },
        };
        let known = match ty {
            Ty::Struct(sty) => sty.size_align.size >= 0 && sty.size_align.align >= 0,
            Ty::Tuple(tty) => tty.size_align.size >= 0 && tty.size_align.align >= 0,
            Ty::Unimplemented(_) => false,
            _ => true,
        };
        if !known {
            return None;
        }
        let a64 = ty.align();
        let s64 = ty.size();
        if a64 < 1 || a64 > (usize::MAX as u64) || s64 > (usize::MAX as u64) {
            return None;
        }
        let a = a64 as usize;
        let s = s64 as usize;
        let pad = (a - (end % a)) % a;
        if end > usize::MAX - pad {
            return None;
        }
        let off = end + pad;
        if s > usize::MAX - off {
            return None;
        }
        offsets.push(off);
        end = off + s;
        if a > align {
            align = a;
        }
        i = i + 1;
        proof {
            assert(offsets@ =~= acc_in.offsets.push(off));
            assert((LayoutAcc { offsets: offsets@, end, align }) == layout_step(
                *sir,
                acc_in,
                decls@[i - 1],
            ));
        }
    }
    let pad2 = (align - (end % align)) % align;
    if end > usize::MAX - pad2 {
        return None;
    }
    let size = end + pad2;
    Some((offsets, size, align))
}

/// The resolved destination a call's resume point records: the caller's
/// destination local as a direct place of its declared type.
pub open spec fn ret_entry(caller_body: Body, destination: Option<(Place, u32)>) -> Option<
    (IPlace, u32),
> {
    match destination {
        Some(d) => Some(
            (
                IPlace::Val {
                    local: d.0.local,
                    off: 0u32,
                    ty: caller_body.local_decls@[d.0.local.0 as int].ty,
                },
                d.1,
            ),
        ),
        None => None,
    }
}

/// The whole state of one interpretation: the arena, the frame stack, the
/// index of the block about to execute, the stack of active bodies, the
/// resume points of the outstanding calls, and whether the outermost body
/// has returned.
pub struct MachView {
    pub mem: Seq<u8>,
    pub frames: Seq<FrameView>,
    pub bbidx: u32,
    pub bodies: Seq<Body>,
    pub rets: Seq<Option<(IPlace, u32)>>,
    pub done: bool,
}

/// Whether the machine can take a step: the current block exists, its
/// statements are supported and in bounds, and its terminator is a call to
/// a known symbol or a return. Every other terminator is a coverage gap,
/// and a stuck machine means a defect in the bodies, not a recoverable
/// condition.
pub open spec fn m_step_ok(sir: Sir, s: MachView) -> bool {
    &&& !s.done
    &&& s.bodies.len() > 0
    &&& s.frames.len() > 0
    &&& (s.bbidx as int) < s.bodies.last().blocks@.len()
    &&& {
        let blk = s.bodies.last().blocks@[s.bbidx as int];
        let f = s.frames.last();
        &&& stmts_ok(sir, f, s.mem, blk.stmts@, 0)
        &&& {
            let mem1 = stmts_eff(sir, f, s.mem, blk.stmts@, 0);
            match blk.term {
                Terminator::Call { operand, args, destination } => match operand {
                    CallOperand::Fn(sym) => {
                        &&& sir.bodies_map().contains_key(sym@)
                        &&& {
                            let cb = sir.bodies_map()[sym@];
                            &&& alloc_ok(mem1.len() as int, cb)
                            &&& mem1.len() + cb.layout.1 <= usize::MAX
                            &&& {
                                let nf = new_frame_view(mem1.len() as int, cb);
                                let mem2 = grow_for(mem1, cb);
                                &&& copy_operands_ok(
                                    sir,
                                    s.bodies.last(),
                                    nf,
                                    f,
                                    mem2,
                                    args@,
                                    0,
                                )
                                &&& match destination {
                                    Some(d) => d.0.projection@.len() == 0 && (d.0.local.0 as int)
                                        < s.bodies.last().local_decls@.len(),
                                    None => true,
                                }
                            }
                        }
                    },
                    CallOperand::Unknown => false,
                },
                Terminator::Return => {
                    if s.rets.len() > 0 {
                        &&& s.frames.len() >= 2
                        &&& {
                            let popped = s.frames.last();
                            &&& popped.base <= mem1.len()
                            &&& match s.rets.last() {
                                Some(rp) => {
                                    &&& local_slot_ok(popped, Local(0u32))
                                    &&& sir.ty_known(rp.0.spec_ty())
                                    &&& sir.spec_ty(rp.0.spec_ty()).layout_known()
                                    &&& sir.spec_ty(rp.0.spec_ty()).spec_size() <= usize::MAX
                                    &&& local_slot(popped, Local(0u32)) + sir.spec_ty(
                                        rp.0.spec_ty(),
                                    ).spec_size() <= mem1.len()
                                    &&& {
                                        let newtop = s.frames[s.frames.len() - 2];
                                        let mem2 = mem1.take(popped.base as int);
                                        &&& resolve_ok(newtop, mem2, rp.0)
                                        &&& resolve(newtop, mem2, rp.0) + sir.spec_ty(
                                            rp.0.spec_ty(),
                                        ).spec_size() <= mem2.len()
                                    }
                                },
                                None => true,
                            }
                        }
                    } else {
                        true
                    }
                },
                _ => false,
            }
        }
    }
}

/// The machine after one step.
pub open spec fn m_step_val(sir: Sir, s: MachView) -> MachView {
    let blk = s.bodies.last().blocks@[s.bbidx as int];
    let f = s.frames.last();
    let mem1 = stmts_eff(sir, f, s.mem, blk.stmts@, 0);
    match blk.term {
        Terminator::Call { operand, args, destination } => match operand {
            CallOperand::Fn(sym) => {
                let cb = sir.bodies_map()[sym@];
                let nf = new_frame_view(mem1.len() as int, cb);
                let mem2 = grow_for(mem1, cb);
                let mem3 = copy_operands_eff(sir, s.bodies.last(), nf, f, mem2, args@, 0);
                MachView {
                    mem: mem3,
                    frames: s.frames.push(nf),
                    bbidx: 0u32,
                    bodies: s.bodies.push(cb),
                    rets: s.rets.push(ret_entry(s.bodies.last(), destination)),
                    done: false,
                }
            },
            CallOperand::Unknown => s,
        },
        Terminator::Return => {
            if s.rets.len() > 0 {
                let popped = s.frames.last();
                let mem2 = mem1.take(popped.base as int);
                match s.rets.last() {
                    Some(rp) => {
                        let size = sir.spec_ty(rp.0.spec_ty()).spec_size();
                        let ret0 = local_slot(popped, Local(0u32));
                        let bytes = mem1.subrange(ret0, ret0 + size);
                        let newtop = s.frames[s.frames.len() - 2];
                        let mem3 = splice(mem2, resolve(newtop, mem2, rp.0), bytes);
                        MachView {
                            mem: mem3,
                            frames: s.frames.drop_last(),
                            bbidx: rp.1,
                            bodies: s.bodies.drop_last(),
                            rets: s.rets.drop_last(),
                            done: false,
                        }
                    },
                    None => MachView {
                        mem: mem2,
                        frames: s.frames.drop_last(),
                        bbidx: s.bbidx,
                        bodies: s.bodies.drop_last(),
                        rets: s.rets.drop_last(),
                        done: false,
                    },
                }
            } else {
                MachView {
                    mem: mem1,
                    frames: s.frames,
                    bbidx: s.bbidx,
                    bodies: s.bodies,
                    rets: s.rets,
                    done: true,
                }
            }
        },
        _ => s,
    }
}

/// One machine step, or nothing where the machine is stuck.
pub open spec fn m_step(sir: Sir, s: MachView) -> Option<MachView> {
    if m_step_ok(sir, s) {
        Some(m_step_val(sir, s))
    } else {
        None
    }
}

/// `n` machine steps; a finished machine stays as it is.
pub open spec fn m_run(sir: Sir, s: MachView, n: nat) -> Option<MachView>
    decreases n,
{
    if n == 0 {
        Some(s)
    } else {
        match m_run(sir, s, (n - 1) as nat) {
            Some(m) => if m.done {
                Some(m)
            } else {
                m_step(sir, m)
            },
            None => None,
        }
    }
}

/// The machine never gets stuck from `s`.
pub open spec fn run_safe(sir: Sir, s: MachView) -> bool {
    forall|n: nat| (#[trigger] m_run(sir, s, n)) is Some
}

/// The machine, run from `s`, finishes in the state `m`.
pub open spec fn runs_to(sir: Sir, s: MachView, m: MachView) -> bool {
    exists|n: nat| #[trigger] m_run(sir, s, n) == Some(m) && m.done
}

/// Once finished, the machine stays as it is.
proof fn lemma_run_done_stable(sir: Sir, s: MachView, n1: nat, n2: nat)
    requires
        n1 <= n2,
        m_run(sir, s, n1) matches Some(m) && m.done,
    ensures
        m_run(sir, s, n2) == m_run(sir, s, n1),
    decreases n2,
{
    if n1 < n2 {
        lemma_run_done_stable(sir, s, n1, (n2 - 1) as nat);
    }
}

/// Round-trip store: after storing one place into another, reading the
/// destination type's bytes back through the destination's resolved
/// address yields exactly the bytes the source held (or the constant's
/// image), whatever the source's indirection depth.
pub proof fn lemma_iplace_store_round_trip(
    sir: Sir,
    f: FrameView,
    mem: Seq<u8>,
    dest: IPlace,
    src: IPlace,
)
    requires
        store_ok(sir, f, mem, dest, src),
    ensures
        (src matches IPlace::Const { val, .. } ==> store_eff(sir, f, mem, dest, src)[resolve(
            f,
            mem,
            dest,
        )] == const_byte(val)),
        !(src matches IPlace::Const { .. }) ==> ({
            let size = sir.spec_ty(src.spec_ty()).spec_size();
            store_eff(sir, f, mem, dest, src).subrange(
                resolve(f, mem, dest),
                resolve(f, mem, dest) + size,
            ) == mem.subrange(resolve(f, mem, src), resolve(f, mem, src) + size)
        }),
{
    match src {
        IPlace::Const { val, .. } => {
            lemma_store_round_trip(mem, resolve(f, mem, dest), seq![const_byte(val)]);
            assert(splice(mem, resolve(f, mem, dest), seq![const_byte(val)]).subrange(
                resolve(f, mem, dest),
                resolve(f, mem, dest) + 1,
            )[0] == const_byte(val));
        },
        _ => {
            let size = sir.spec_ty(src.spec_ty()).spec_size();
            lemma_store_round_trip(
                mem,
                resolve(f, mem, dest),
                mem.subrange(resolve(f, mem, src), resolve(f, mem, src) + size),
            );
        },
    }
}

/// The machine finishes in at most one state: interpretation is
/// deterministic.
pub proof fn lemma_run_deterministic(sir: Sir, s: MachView, m1: MachView, m2: MachView)
    requires
        runs_to(sir, s, m1),
        runs_to(sir, s, m2),
    ensures
        m1 == m2,
{
    let n1 = choose|n: nat| #[trigger] m_run(sir, s, n) == Some(m1) && m1.done;
    let n2 = choose|n: nat| #[trigger] m_run(sir, s, n) == Some(m2) && m2.done;
    if n1 <= n2 {
        lemma_run_done_stable(sir, s, n1, n2);
    } else {
        lemma_run_done_stable(sir, s, n2, n1);
    }
}

/// Call/return correctness: at the moment a `Return` with an outstanding
/// resume point executes, the machine writes into the caller's destination
/// exactly the bytes of the callee's local 0 (at the destination type's
/// size) as they stood after the block's statements ran; the destination
/// range of the new arena holds exactly those bytes.
pub proof fn lemma_call_return_correct(sir: Sir, s: MachView)
    requires
        m_step_ok(sir, s),
        s.bodies.last().blocks@[s.bbidx as int].term matches Terminator::Return,
        s.rets.len() > 0,
        s.rets.last() is Some,
    ensures
        ({
            let blk = s.bodies.last().blocks@[s.bbidx as int];
            let mem1 = stmts_eff(sir, s.frames.last(), s.mem, blk.stmts@, 0);
            let popped = s.frames.last();
            let rp = s.rets.last()->0;
            let size = sir.spec_ty(rp.0.spec_ty()).spec_size();
            let ret0 = local_slot(popped, Local(0u32));
            let mem2 = mem1.take(popped.base as int);
            let dst = resolve(s.frames[s.frames.len() - 2], mem2, rp.0);
            m_step_val(sir, s).mem.subrange(dst, dst + size) == mem1.subrange(ret0, ret0 + size)
        }),
{
    let blk = s.bodies.last().blocks@[s.bbidx as int];
    let mem1 = stmts_eff(sir, s.frames.last(), s.mem, blk.stmts@, 0);
    let popped = s.frames.last();
    let rp = s.rets.last()->0;
    let size = sir.spec_ty(rp.0.spec_ty()).spec_size();
    let ret0 = local_slot(popped, Local(0u32));
    let mem2 = mem1.take(popped.base as int);
    let dst = resolve(s.frames[s.frames.len() - 2], mem2, rp.0);
    lemma_store_round_trip(mem2, dst, mem1.subrange(ret0, ret0 + size));
}

/// The interpreter: a stack of frames in one arena, and the index of the
/// basic block about to execute in the innermost frame.
#[derive(Debug)]
pub struct SIRInterpreter {
    mem: Vec<u8>,
    frames: Vec<StackFrame>,
    bbidx: u32,
    trace_inputs: Option<(usize, usize)>,
}

impl SIRInterpreter {
    /// The interpreter's arena.
    pub closed spec fn spec_mem(&self) -> Seq<u8> {
        self.mem@
    }

    /// The interpreter's frame stack.
    pub closed spec fn spec_frames(&self) -> Seq<FrameView> {
        self.frames.deep_view()
    }

    /// The index of the block about to execute.
    pub closed spec fn spec_bbidx(&self) -> u32 {
        self.bbidx
    }

    /// Where the trace-inputs buffer lives in the arena, once seeded.
    pub closed spec fn spec_trace_inputs(&self) -> Option<(usize, usize)> {
        self.trace_inputs
    }

    /// Given a body, allocate a frame for it at the end of the arena,
    /// sized and aligned to its activation record, zero-filled.
    fn create_frame(mem: &mut Vec<u8>, body: &Body) -> (r: StackFrame)
        requires
            alloc_ok(old(mem)@.len() as int, *body),
            old(mem)@.len() + body.layout.1 <= usize::MAX,
        ensures
            r@ == new_frame_view(old(mem)@.len() as int, *body),
            final(mem)@ == grow_for(old(mem)@, *body),
    {
        let len = mem.len();
        let align = body.layout.1;
        let pad = (align - (len % align)) % align;
        let base = len + pad;
        let target = base + body.layout.0;
        while mem.len() < target
            invariant
                mem@.len() <= target,
                target <= usize::MAX,
                mem@ == old(mem)@ + Seq::new((mem@.len() - old(mem)@.len()) as nat, |i: int| 0u8),
                old(mem)@.len() <= mem@.len(),
            decreases target - mem@.len(),
        {
            mem.push(0);
            proof {
                assert(mem@ =~= old(mem)@ + Seq::new(
                    (mem@.len() - old(mem)@.len()) as nat,
                    |i: int| 0u8,
                ));
            }
        }
        let offsets = body.offsets.clone();
        proof {
            assert forall|i: int| 0 <= i < body.offsets@.len() implies offsets@[i]
                == body.offsets@[i] by {
                assert(cloned::<usize>(body.offsets@[i], offsets@[i]));
            }
            assert(offsets@ =~= body.offsets@);
            assert(mem@ =~= grow_for(old(mem)@, *body));
        }
        StackFrame::new(base, offsets, body.layout)
    }

    /// Start an interpreter on a body: one frame sized to its activation
    /// record, block 0 up next.
    pub fn new(body: &Body) -> (r: Self)
        requires
            alloc_ok(0, *body),
            body.layout.1 >= 1,
        ensures
            r.spec_mem() == grow_for(Seq::<u8>::empty(), *body),
            r.spec_frames() == seq![new_frame_view(0, *body)],
            r.spec_bbidx() == 0u32,
            r.spec_trace_inputs() is None,
    {
        let mut mem: Vec<u8> = Vec::new();
        let frame = SIRInterpreter::create_frame(&mut mem, body);
        let mut frames: Vec<StackFrame> = Vec::new();
        frames.push(frame);
        let r = SIRInterpreter { mem, frames, bbidx: 0, trace_inputs: None };
        proof {
            assert(r.frames.deep_view() =~= seq![new_frame_view(0, *body)]);
        }
        r
    }

    /// Seed the interpreter with the trace-inputs buffer: the buffer moves
    /// to the end of the arena and its address is written into local 1 of
    /// the outermost frame, the single blessed way external values reach
    /// an interpretation.
    pub fn set_trace_inputs(&mut self, tio: Vec<u8>)
        requires
            old(self).spec_frames().len() > 0,
            local_slot_ok(old(self).spec_frames()[0], Local(1u32)),
            local_slot(old(self).spec_frames()[0], Local(1u32)) + 8 <= old(self).spec_mem().len(),
            old(self).spec_mem().len() + tio@.len() <= usize::MAX,
        ensures
            final(self).spec_mem() == splice(
                old(self).spec_mem() + tio@,
                local_slot(old(self).spec_frames()[0], Local(1u32)),
                le_of_nat(old(self).spec_mem().len() as nat, 8),
            ),
            final(self).spec_frames() == old(self).spec_frames(),
            final(self).spec_bbidx() == old(self).spec_bbidx(),
            final(self).spec_trace_inputs() == Some(
                (old(self).spec_mem().len() as usize, tio@.len() as usize),
            ),
    {
        let base = self.mem.len();
        let len = tio.len();
        let mut rest = tio;
        self.mem.append(&mut rest);
        let slot = self.frames[0].local_ptr(&Local(1));
        write_le64(&mut self.mem, slot, base as u64);
        self.trace_inputs = Some((base, len));
        proof {
            assert(self.frames.deep_view() =~= old(self).frames.deep_view());
        }
    }

    /// The trace-inputs buffer as it stands now in the arena.
    pub fn trace_inputs(&self) -> (r: Vec<u8>)
        requires
            self.spec_trace_inputs() matches Some(t) && t.0 + t.1 <= self.spec_mem().len(),
        ensures
            self.spec_trace_inputs() matches Some(t) && r@ == self.spec_mem().subrange(
                t.0 as int,
                t.0 + t.1,
            ),
    {
        match &self.trace_inputs {
            Some(t) => read_bytes(&self.mem, t.0, t.1),
            None => unreached(),
        }
    }

    /// Implements the Store statement on the active frame.
    fn store(&mut self, sir: &Sir, dest: &IPlace, src: &IPlace)
        requires
            sir.wf(),
            old(self).spec_frames().len() > 0,
            store_ok(*sir, old(self).spec_frames().last(), old(self).spec_mem(), *dest, *src),
        ensures
            final(self).spec_mem() == store_eff(
                *sir,
                old(self).spec_frames().last(),
                old(self).spec_mem(),
                *dest,
                *src,
            ),
            final(self).spec_frames() == old(self).spec_frames(),
            final(self).spec_bbidx() == old(self).spec_bbidx(),
            final(self).spec_trace_inputs() == old(self).spec_trace_inputs(),
    {
        let idx = self.frames.len() - 1;
        self.frames[idx].store(&mut self.mem, sir, dest, src);
    }

    /// Creates a reference to an `IPlace`: the source's address is written
    /// into the destination as a pointer.
    fn mkref(&mut self, dest: &IPlace, src: &IPlace)
        requires
            old(self).spec_frames().len() > 0,
            mkref_ok(old(self).spec_frames().last(), old(self).spec_mem(), *dest, *src),
        ensures
            final(self).spec_mem() == mkref_eff(
                old(self).spec_frames().last(),
                old(self).spec_mem(),
                *dest,
                *src,
            ),
            final(self).spec_frames() == old(self).spec_frames(),
            final(self).spec_bbidx() == old(self).spec_bbidx(),
            final(self).spec_trace_inputs() == old(self).spec_trace_inputs(),
    {
        let idx = self.frames.len() - 1;
        let src_ptr = self.frames[idx].iplace_to_ptr(&self.mem, src);
        let dst_ptr = self.frames[idx].iplace_to_ptr(&self.mem, dest);
        write_le64(&mut self.mem, dst_ptr, src_ptr as u64);
    }
}

/// The bodies a stack of borrowed bodies stands for.
pub open spec fn bodies_seq(bs: Seq<&Body>) -> Seq<Body> {
    bs.map_values(|b: &Body| *b)
}

/// The machine state an interpretation of `body` starts from.
pub open spec fn m_init(mem: Seq<u8>, frames: Seq<FrameView>, bbidx: u32, body: Body) -> MachView {
    MachView { mem, frames, bbidx, bodies: seq![body], rets: Seq::empty(), done: false }
}

impl SIRInterpreter {
    /// Execute `body` one basic block at a time, maintaining the call
    /// stack of frames, until the outermost body returns: copy the
    /// caller-visible effects of every block's statements into the arena,
    /// push a frame per call to a known symbol, and pop one per return,
    /// moving each callee's return value into its caller's destination.
    /// Bodies flagged as tracing debug markers are skipped whole. The
    /// caller warrants that the machine neither gets stuck nor runs
    /// forever; the result is exactly the machine's finishing state.
    pub fn interpret(&mut self, sir: &Sir, body: &Body)
        requires
            sir.wf(),
            old(self).spec_frames().len() > 0,
            (body.flags & bodyflags::TRACE_DEBUG) == 0 ==> run_safe(
                *sir,
                m_init(
                    old(self).spec_mem(),
                    old(self).spec_frames(),
                    old(self).spec_bbidx(),
                    *body,
                ),
            ) && (exists|m: MachView|
                runs_to(
                    *sir,
                    m_init(
                        old(self).spec_mem(),
                        old(self).spec_frames(),
                        old(self).spec_bbidx(),
                        *body,
                    ),
                    m,
                )),
        ensures
            (body.flags & bodyflags::TRACE_DEBUG) != 0 ==> *final(self) == *old(self),
            (body.flags & bodyflags::TRACE_DEBUG) == 0 ==> (exists|m: MachView|
                {
                    &&& runs_to(
                        *sir,
                        m_init(
                            old(self).spec_mem(),
                            old(self).spec_frames(),
                            old(self).spec_bbidx(),
                            *body,
                        ),
                        m,
                    )
                    &&& final(self).spec_mem() == m.mem
                    &&& final(self).spec_frames() == m.frames
                    &&& final(self).spec_bbidx() == m.bbidx
                }),
            final(self).spec_trace_inputs() == old(self).spec_trace_inputs(),
    {
        // Ignore tracing debug markers.
        if body.flags & bodyflags::TRACE_DEBUG != 0 {
            return ;
        }
        let ghost s0 = m_init(self.spec_mem(), self.spec_frames(), self.spec_bbidx(), *body);
        let ghost fin = choose|m: MachView| runs_to(*sir, s0, m);
        let ghost nfin = choose|n: nat| #[trigger] m_run(*sir, s0, n) == Some(fin) && fin.done;

        let mut bodies: Vec<&Body> = Vec::new();
        bodies.push(body);
        let mut rets: Vec<Option<(IPlace, u32)>> = Vec::new();
        let ghost mut k: nat = 0;
        let mut running = true;
        proof {
            assert(bodies_seq(bodies@) =~= seq![*body]);
            assert(rets@ =~= Seq::<Option<(IPlace, u32)>>::empty());
        }
        while running
            invariant
                sir.wf(),
                k <= nfin,
                m_run(*sir, s0, nfin) == Some(fin),
                fin.done,
                run_safe(*sir, s0),
                m_run(*sir, s0, k) == Some(
                    (MachView {
                        mem: self.spec_mem(),
                        frames: self.spec_frames(),
                        bbidx: self.spec_bbidx(),
                        bodies: bodies_seq(bodies@),
                        rets: rets@,
                        done: !running,
                    }),
                ),
                self.spec_trace_inputs() == old(self).spec_trace_inputs(),
            decreases nfin - k,
        {
            let ghost cur = MachView {
                mem: self.spec_mem(),
                frames: self.spec_frames(),
                bbidx: self.spec_bbidx(),
                bodies: bodies_seq(bodies@),
                rets: rets@,
                done: false,
            };
            proof {
                if k == nfin {
                    assert(cur == fin);
                    assert(false);
                }
                assert(m_run(*sir, s0, k + 1) is Some);
                assert(m_run(*sir, s0, (k + 1) as nat) == m_step(*sir, cur));
                assert(m_step_ok(*sir, cur));
            }
            let blen = bodies.len();
            let cbody: &Body = bodies[blen - 1];
            proof {
                assert(*cbody == bodies_seq(bodies@).last());
            }
            let bb = self.bbidx as usize;
            let block = &cbody.blocks[bb];

            // Execute the block's statements in order.
            let ghost f_v = self.spec_frames().last();
            let ghost frames_in = self.spec_frames();
            let ghost bbidx_in = self.spec_bbidx();
            let ghost memgoal = stmts_eff(*sir, f_v, self.spec_mem(), block.stmts@, 0);
            let nstmts = block.stmts.len();
            let mut j: usize = 0;
            while j < nstmts
                invariant
                    sir.wf(),
                    j <= nstmts,
                    nstmts == block.stmts@.len(),
                    self.spec_frames() == frames_in,
                    frames_in.len() > 0,
                    f_v == frames_in.last(),
                    self.spec_bbidx() == bbidx_in,
                    self.spec_trace_inputs() == old(self).spec_trace_inputs(),
                    stmts_ok(*sir, f_v, self.spec_mem(), block.stmts@, j as int),
                    memgoal == stmts_eff(*sir, f_v, self.spec_mem(), block.stmts@, j as int),
                decreases nstmts - j,
            {
                let stmt = &block.stmts[j];
                match stmt {
                    Statement::MkRef(dest, src) => self.mkref(dest, src),
                    Statement::Store(dest, src) => self.store(sir, dest, src),
                    Statement::Nop => {},
                    // Any other statement kind is a coverage gap, not a
                    // recoverable runtime condition.
                    _ => unreached(),
                }
                j = j + 1;
            }
            proof {
                assert(self.spec_mem() == memgoal);
            }

            match &block.term {
                Terminator::Call { operand, args, destination } => {
                    let sym = match operand {
                        CallOperand::Fn(s) => s,
                        // An unknown call target cannot be interpreted.
                        CallOperand::Unknown => unreached(),
                    };
                    // Unresolvable calls cannot be tolerated
                    // mid-interpretation.
                    let callbody: &Body = match sir.body(sym) {
                        Some(b) => b,
                        None => unreached(),
                    };
                    // Initialise the new stack frame and copy the call
                    // arguments over from this frame.
                    let frame = SIRInterpreter::create_frame(&mut self.mem, callbody);
                    let ghost nf = frame@;
                    let ghost memgoal2 = copy_operands_eff(
                        *sir,
                        *cbody,
                        nf,
                        f_v,
                        self.spec_mem(),
                        args@,
                        0,
                    );
                    let nargs = args.len();
                    let mut ai: usize = 0;
                    while ai < nargs
                        invariant
                            sir.wf(),
                            ai <= nargs,
                            nargs == args@.len(),
                            frame@ == nf,
                            self.spec_frames() == frames_in,
                            frames_in.len() > 0,
                            f_v == frames_in.last(),
                            self.spec_bbidx() == bbidx_in,
                            self.spec_trace_inputs() == old(self).spec_trace_inputs(),
                            copy_operands_ok(*sir, *cbody, nf, f_v, self.spec_mem(), args@, ai as int),
                            memgoal2 == copy_operands_eff(
                                *sir,
                                *cbody,
                                nf,
                                f_v,
                                self.spec_mem(),
                                args@,
                                ai as int,
                            ),
                        decreases nargs - ai,
                    {
                        let arg = &args[ai];
                        let dst = frame.local_ptr(&Local((ai as u32) + 1));
                        match arg {
                            Operand::Constant(c) => {
                                frame.write_const(&mut self.mem, dst, c);
                            },
                            Operand::Place(p) => {
                                let cidx = self.frames.len() - 1;
                                let src = self.frames[cidx].local_ptr(&p.local);
                                let ty = cbody.local_decls[p.local.0 as usize].ty;
                                let size = sir.ty(&ty).size() as usize;
                                frame.write_val(&mut self.mem, dst, src, size);
                            },
                        }
                        ai = ai + 1;
                    }
                    rets.push(
                        match destination {
                            Some(d) => Some(
                                (
                                    IPlace::Val {
                                        local: d.0.local,
                                        off: 0,
                                        ty: cbody.local_decls[d.0.local.0 as usize].ty,
                                    },
                                    d.1,
                                ),
                            ),
                            None => None,
                        },
                    );
                    self.frames.push(frame);
                    self.bbidx = 0;
                    bodies.push(callbody);
                    proof {
                        assert(self.frames.deep_view() =~= frames_in.push(nf));
                        assert(bodies_seq(bodies@) =~= cur.bodies.push(*callbody));
                        assert(rets@ =~= cur.rets.push(ret_entry(*cbody, *destination)));
                    }
                },
                Terminator::Return => {
                    // Are we returning from a call?
                    if rets.len() > 0 {
                        let v = match rets.pop() {
                            Some(v) => v,
                            None => unreached(),
                        };
                        // Restore the previous stack frame, but keep the
                        // popped one around long enough to read its local
                        // 0, the return value.
                        let oldframe = match self.frames.pop() {
                            Some(f) => f,
                            None => unreached(),
                        };
                        proof {
                            assert(self.frames.deep_view() =~= frames_in.drop_last());
                            assert(oldframe@ == frames_in.last());
                        }
                        match v {
                            Some((dest, bbidx)) => {
                                let ret_ptr = oldframe.local_ptr(&Local(0));
                                let size = sir.ty(&dest.ty()).size() as usize;
                                let buf = read_bytes(&self.mem, ret_ptr, size);
                                // The popped frame's region is given back.
                                self.mem.truncate(oldframe.base);
                                // Write the return value to the
                                // destination in the previous frame.
                                let tidx = self.frames.len() - 1;
                                let dst = self.frames[tidx].iplace_to_ptr(&self.mem, &dest);
                                write_bytes(&mut self.mem, dst, &buf);
                                self.bbidx = bbidx;
                            },
                            None => {
                                self.mem.truncate(oldframe.base);
                            },
                        }
                        bodies.pop();
                        proof {
                            assert(bodies_seq(bodies@) =~= cur.bodies.drop_last());
                            assert(rets@ =~= cur.rets.drop_last());
                        }
                    } else {
                        // We are returning from the first body, so we are
                        // done interpreting.
                        running = false;
                    }
                },
                // Any other terminator kind is a coverage gap; the
                // interpreter is a ground-truth reference, not a
                // speculative execution engine.
                _ => unreached(),
            }

            proof {
                k = k + 1;
                assert(m_step_val(*sir, cur) == (MachView {
                    mem: self.spec_mem(),
                    frames: self.spec_frames(),
                    bbidx: self.spec_bbidx(),
                    bodies: bodies_seq(bodies@),
                    rets: rets@,
                    done: !running,
                }));
            }
        }
        proof {
            let last = MachView {
                mem: self.spec_mem(),
                frames: self.spec_frames(),
                bbidx: self.spec_bbidx(),
                bodies: bodies_seq(bodies@),
                rets: rets@,
                done: true,
            };
            assert(m_run(*sir, s0, k) == Some(last));
            assert(runs_to(*sir, s0, last));
        }
    }
}

} // verus!

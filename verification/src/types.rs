//! Types for the tracing intermediate representation.

use vstd::prelude::*;

verus! {

/// Index of a basic block within a body.
pub type BasicBlockIndex = u32;
/// Index of a statement within a basic block.
pub type StatementIndex = usize;
/// Index of a local variable within a body.
pub type LocalIndex = u32;
/// Index into a per-crate type table.
pub type TyIndex = u32;
/// Index of a field within a struct or tuple type.
pub type FieldIndex = u32;
/// Hash identifying the crate a type table belongs to.
pub type CrateHash = u64;
/// Crate hash and index into that crate's type table.
pub type TypeId = (u64, TyIndex);

/// A local variable slot, named by its 0-based index within one body's
/// activation. Local 0 is reserved for the return value; local 1
/// conventionally holds the trace-inputs pointer.
#[derive(Clone, Copy, PartialEq, Eq, Structural, Debug, Hash)]
pub struct Local(pub LocalIndex);

/// The definition of a local variable: a reference to its type.
#[derive(Clone, Copy, PartialEq, Eq, Debug)]
pub struct LocalDecl {
    pub ty: TypeId,
}

/// A 128-bit unsigned value split into two 64-bit halves.
#[derive(Clone, Copy, PartialEq, Eq, Structural, Debug)]
pub struct SerU128 {
    hi: u64,
    lo: u64,
}

impl SerU128 {
    pub fn new(val: u128) -> (r: Self)
        ensures
            r.spec_val() == val,
    {
        let r = Self { hi: (val >> 64) as u64, lo: val as u64 };
        proof {
            lemma_u128_halves_round_trip(val);
        }
        r
    }

    /// The 128-bit value the two halves stand for.
    pub closed spec fn spec_val(&self) -> u128 {
        ((self.hi as u128) << 64 | (self.lo as u128)) as u128
    }

    pub fn val(&self) -> (r: u128)
        ensures
            r == self.spec_val(),
    {
        (self.hi as u128) << 64 | (self.lo as u128)
    }
}

/// Splitting a 128-bit value into 64-bit halves and recombining them gives
/// the value back.
proof fn lemma_u128_halves_round_trip(v: u128)
    ensures
        ((((v >> 64) as u64) as u128) << 64 | ((v as u64) as u128)) == v,
{
    assert(((((v >> 64) as u64) as u128) << 64 | ((v as u64) as u128)) == v) by (bit_vector);
}

/// A 128-bit signed value split into two 64-bit halves.
#[derive(Clone, Copy, PartialEq, Eq, Structural, Debug)]
pub struct SerI128 {
    hi: u64,
    lo: u64,
}

impl SerI128 {
    pub fn new(val: i128) -> (r: Self)
        ensures
            r.spec_val() == val,
    {
        let r = Self { hi: (val >> 64) as u64, lo: val as u64 };
        proof {
            lemma_i128_halves_round_trip(val);
        }
        r
    }

    /// The 128-bit value the two halves stand for.
    pub closed spec fn spec_val(&self) -> i128 {
        ((self.hi as i128) << 64 | (self.lo as i128)) as i128
    }

    pub fn val(&self) -> (r: i128)
        ensures
            r == self.spec_val(),
    {
        (self.hi as i128) << 64 | (self.lo as i128)
    }
}

/// Splitting a 128-bit signed value into 64-bit halves and recombining them
/// gives the value back.
proof fn lemma_i128_halves_round_trip(v: i128)
    ensures
        ((((v >> 64) as u64) as i128) << 64 | (((v as u64) as i128))) == v,
{
    assert(((((v >> 64) as u64) as i128) << 64 | (((v as u64) as i128))) == v) by (bit_vector);
}

/// Describes the various signed integer types.
#[derive(Clone, Copy, PartialEq, Eq, Structural, Debug, Hash)]
pub enum SignedIntTy {
    Isize,
    I8,
    I16,
    I32,
    I64,
    I128,
}

/// Describes the various unsigned integer types.
#[derive(Clone, Copy, PartialEq, Eq, Structural, Debug, Hash)]
pub enum UnsignedIntTy {
    Usize,
    U8,
    U16,
    U32,
    U64,
    U128,
}

/// The size and alignment of a type, in bytes. The fields are signed so that
/// they can be used directly as machine-code operands downstream.
#[derive(Clone, Copy, PartialEq, Eq, Structural, Debug, Hash)]
pub struct SizeAndAlign {
    /// The alignment, in bytes.
    pub align: i32,
    /// The size, in bytes.
    pub size: i32,
}

/// The fields of a struct or tuple type: byte offsets and types, in order.
#[derive(PartialEq, Eq, Debug)]
pub struct Fields {
    /// Field offsets.
    pub offsets: Vec<u64>,
    /// The type of each field.
    pub tys: Vec<TypeId>,
}

/// A tuple type.
#[derive(PartialEq, Eq, Debug)]
pub struct TupleTy {
    /// The fields of the tuple.
    pub fields: Fields,
    /// The size and alignment of the tuple.
    pub size_align: SizeAndAlign,
}

/// A structure type.
#[derive(PartialEq, Eq, Debug)]
pub struct StructTy {
    /// The fields of the struct.
    pub fields: Fields,
    /// The size and alignment of the struct.
    pub size_align: SizeAndAlign,
}

/// The type of a local variable. Pointer-width types are laid out for a
/// 64-bit target, matching the compiler that produces the IR.
#[derive(PartialEq, Eq, Debug)]
pub enum Ty {
    /// Signed integers.
    SignedInt(SignedIntTy),
    /// Unsigned integers.
    UnsignedInt(UnsignedIntTy),
    /// A structure type.
    Struct(StructTy),
    /// A tuple type.
    Tuple(TupleTy),
    /// A reference to something.
    Ref(TypeId),
    /// A Boolean.
    Bool,
    /// Anything that we've not yet defined a lowering for.
    Unimplemented(String),
}

impl Ty {
    /// Whether `size()` and `align()` are defined for this type: unimplemented
    /// types have no layout, and an aggregate's recorded layout must not be
    /// negative.
    pub open spec fn layout_known(&self) -> bool {
        match self {
            Ty::Struct(sty) => sty.size_align.size >= 0 && sty.size_align.align >= 0,
            Ty::Tuple(tty) => tty.size_align.size >= 0 && tty.size_align.align >= 0,
            Ty::Unimplemented(_) => false,
            _ => true,
        }
    }

    /// The size of the type in bytes.
    pub open spec fn spec_size(&self) -> u64 {
        match self {
            Ty::UnsignedInt(ui) => match ui {
                UnsignedIntTy::U8 => 1u64,
                UnsignedIntTy::U16 => 2u64,
                UnsignedIntTy::U32 => 4u64,
                UnsignedIntTy::U64 => 8u64,
                UnsignedIntTy::Usize => 8u64,
                UnsignedIntTy::U128 => 16u64,
            },
            Ty::SignedInt(si) => match si {
                SignedIntTy::I8 => 1u64,
                SignedIntTy::I16 => 2u64,
                SignedIntTy::I32 => 4u64,
                SignedIntTy::I64 => 8u64,
                SignedIntTy::Isize => 8u64,
                SignedIntTy::I128 => 16u64,
            },
            Ty::Struct(sty) => sty.size_align.size as u64,
            Ty::Tuple(tty) => tty.size_align.size as u64,
            Ty::Ref(_) => 8u64,
            Ty::Bool => 1u64,
            Ty::Unimplemented(_) => 0u64,
        }
    }

    /// The alignment of the type in bytes.
    pub open spec fn spec_align(&self) -> u64 {
        match self {
            Ty::UnsignedInt(ui) => match ui {
                UnsignedIntTy::U8 => 1u64,
                UnsignedIntTy::U16 => 2u64,
                UnsignedIntTy::U32 => 4u64,
                UnsignedIntTy::U64 => 8u64,
                UnsignedIntTy::Usize => 8u64,
                UnsignedIntTy::U128 => 16u64,
            },
            Ty::SignedInt(si) => match si {
                SignedIntTy::I8 => 1u64,
                SignedIntTy::I16 => 2u64,
                SignedIntTy::I32 => 4u64,
                SignedIntTy::I64 => 8u64,
                SignedIntTy::Isize => 8u64,
                SignedIntTy::I128 => 16u64,
            },
            Ty::Struct(sty) => sty.size_align.align as u64,
            Ty::Tuple(tty) => tty.size_align.align as u64,
            Ty::Ref(_) => 8u64,
            Ty::Bool => 1u64,
            Ty::Unimplemented(_) => 0u64,
        }
    }

    pub fn size(&self) -> (r: u64)
        requires
            self.layout_known(),
        ensures
            r == self.spec_size(),
    {
        match self {
            Ty::UnsignedInt(ui) => match ui {
                UnsignedIntTy::U8 => 1,
                UnsignedIntTy::U16 => 2,
                UnsignedIntTy::U32 => 4,
                UnsignedIntTy::U64 => 8,
                UnsignedIntTy::Usize => 8,
                UnsignedIntTy::U128 => 16,
            },
            Ty::SignedInt(si) => match si {
                SignedIntTy::I8 => 1,
                SignedIntTy::I16 => 2,
                SignedIntTy::I32 => 4,
                SignedIntTy::I64 => 8,
                SignedIntTy::Isize => 8,
                SignedIntTy::I128 => 16,
            },
            Ty::Struct(sty) => sty.size_align.size as u64,
            Ty::Tuple(tty) => tty.size_align.size as u64,
            Ty::Ref(_) => 8,
            Ty::Bool => 1,
            Ty::Unimplemented(_) => unreached(),
        }
    }

    pub fn align(&self) -> (r: u64)
        requires
            self.layout_known(),
        ensures
            r == self.spec_align(),
    {
        match self {
            Ty::UnsignedInt(ui) => match ui {
                UnsignedIntTy::U8 => 1,
                UnsignedIntTy::U16 => 2,
                UnsignedIntTy::U32 => 4,
                UnsignedIntTy::U64 => 8,
                UnsignedIntTy::Usize => 8,
                UnsignedIntTy::U128 => 16,
            },
            Ty::SignedInt(si) => match si {
                SignedIntTy::I8 => 1,
                SignedIntTy::I16 => 2,
                SignedIntTy::I32 => 4,
                SignedIntTy::I64 => 8,
                SignedIntTy::Isize => 8,
                SignedIntTy::I128 => 16,
            },
            Ty::Struct(sty) => sty.size_align.align as u64,
            Ty::Tuple(tty) => tty.size_align.align as u64,
            Ty::Ref(_) => 8,
            Ty::Bool => 1,
            Ty::Unimplemented(_) => unreached(),
        }
    }
}

/// The types used in the SIR for one specific crate. Types of SIR locals
/// reference these types using (crate-hash, array-index) pairs.
#[derive(PartialEq, Eq, Debug)]
pub struct Types {
    pub crate_hash: u64,
    pub types: Vec<Ty>,
    /// Indices of `types` which are thread tracers.
    pub thread_tracers: Vec<u32>,
}

/// One step in navigating from a local to a sub-location.
#[derive(PartialEq, Eq, Debug)]
pub enum Projection {
    Field(FieldIndex),
    Deref,
    Unimplemented(String),
}

/// Mathematical image of a `Projection`.
pub enum ProjectionView {
    Field(FieldIndex),
    Deref,
    Unimplemented(Seq<char>),
}

impl View for Projection {
    type V = ProjectionView;

    open spec fn view(&self) -> ProjectionView {
        match self {
            Projection::Field(idx) => ProjectionView::Field(*idx),
            Projection::Deref => ProjectionView::Deref,
            Projection::Unimplemented(s) => ProjectionView::Unimplemented(s@),
        }
    }
}

impl DeepView for Projection {
    type V = ProjectionView;

    open spec fn deep_view(&self) -> ProjectionView {
        self.view()
    }
}

impl Clone for Projection {
    fn clone(&self) -> (r: Self)
        ensures
            r@ == self@,
    {
        match self {
            Projection::Field(idx) => Projection::Field(*idx),
            Projection::Deref => Projection::Deref,
            Projection::Unimplemented(s) => Projection::Unimplemented(s.clone()),
        }
    }
}

/// A `Local` plus an ordered list of projections describing how to navigate
/// from the local to a sub-location.
#[derive(PartialEq, Eq, Debug)]
pub struct Place {
    pub local: Local,
    pub projection: Vec<Projection>,
}

/// Mathematical image of a `Place`.
pub struct PlaceView {
    pub local: Local,
    pub projection: Seq<ProjectionView>,
}

impl View for Place {
    type V = PlaceView;

    open spec fn view(&self) -> PlaceView {
        PlaceView { local: self.local, projection: self.projection.deep_view() }
    }
}

impl DeepView for Place {
    type V = PlaceView;

    open spec fn deep_view(&self) -> PlaceView {
        self.view()
    }
}

impl Clone for Place {
    fn clone(&self) -> (r: Self)
        ensures
            r@ == self@,
    {
        let r = Place { local: self.local, projection: self.projection.clone() };
        proof {
            assert(r.projection.deep_view() =~= self.projection.deep_view());
        }
        r
    }
}

impl Place {
    fn push_maybe_defined_locals(&self, locals: &mut Vec<Local>)
        ensures
            final(locals)@ == old(locals)@.push(self.local),
    {
        locals.push(self.local);
    }

    fn push_used_locals(&self, locals: &mut Vec<Local>)
        ensures
            final(locals)@ == old(locals)@.push(self.local),
    {
        locals.push(self.local);
    }
}

/// Some place that is a bare local: the stand-in value conversions from
/// a `Local` are specified with.
pub open spec fn bare_place(l: Local) -> Place {
    choose|p: Place| p.local == l && p.projection@.len() == 0
}

impl From<Local> for Place {
    /// A bare local is a place with no projections.
    fn from(local: Local) -> (r: Self)
        ensures
            r.local == local,
            r.projection@.len() == 0,
    {
        Self { local, projection: Vec::new() }
    }
}

impl vstd::std_specs::convert::FromSpecImpl<Local> for Place {
    open spec fn obeys_from_spec() -> bool {
        false
    }

    open spec fn from_spec(local: Local) -> Self {
        bare_place(local)
    }
}

/// The base of a place; static places are not implemented.
#[derive(Clone, Copy, PartialEq, Eq, Structural, Debug)]
pub enum PlaceBase {
    Local(Local),
    Static,
}

/// An unsigned integer constant of a particular width.
#[derive(Clone, Copy, PartialEq, Eq, Structural, Debug)]
pub enum UnsignedInt {
    Usize(usize),
    U8(u8),
    U16(u16),
    U32(u32),
    U64(u64),
    U128(SerU128),
}

/// A signed integer constant of a particular width.
#[derive(Clone, Copy, PartialEq, Eq, Structural, Debug)]
pub enum SignedInt {
    Isize(isize),
    I8(i8),
    I16(i16),
    I32(i32),
    I64(i64),
    I128(SerI128),
}

/// An integer constant, signed or unsigned.
#[derive(Clone, Copy, PartialEq, Eq, Structural, Debug)]
pub enum ConstantInt {
    UnsignedInt(UnsignedInt),
    SignedInt(SignedInt),
}

impl ConstantInt {
    /// Whether `i64_cast` is defined: 128-bit constants do not fit a
    /// register.
    pub open spec fn i64_castable(&self) -> bool {
        match self {
            ConstantInt::UnsignedInt(ui) => !(ui matches UnsignedInt::U128(_)),
            ConstantInt::SignedInt(si) => !(si matches SignedInt::I128(_)),
        }
    }

    /// The value of the constant as an `i64` register image: unsigned
    /// constants are zero-extended or truncated, signed ones sign-extended.
    pub open spec fn spec_i64_cast(&self) -> i64 {
        match self {
            ConstantInt::UnsignedInt(ui) => match ui {
                UnsignedInt::U8(i) => *i as i64,
                UnsignedInt::U16(i) => *i as i64,
                UnsignedInt::U32(i) => *i as i64,
                UnsignedInt::U64(i) => *i as i64,
                UnsignedInt::Usize(i) => *i as i64,
                UnsignedInt::U128(_) => 0i64,
            },
            ConstantInt::SignedInt(si) => match si {
                SignedInt::I8(i) => *i as i64,
                SignedInt::I16(i) => *i as i64,
                SignedInt::I32(i) => *i as i64,
                SignedInt::I64(i) => *i,
                SignedInt::Isize(i) => *i as i64,
                SignedInt::I128(_) => 0i64,
            },
        }
    }

    /// Returns an i64 value suitable for loading into a register.
    /// If the constant is signed, then it will be sign-extended.
    pub fn i64_cast(&self) -> (r: i64)
        requires
            self.i64_castable(),
        ensures
            r == self.spec_i64_cast(),
    {
        match self {
            ConstantInt::UnsignedInt(ui) => match ui {
                UnsignedInt::U8(i) => *i as i64,
                UnsignedInt::U16(i) => *i as i64,
                UnsignedInt::U32(i) => *i as i64,
                UnsignedInt::U64(i) => *i as i64,
                UnsignedInt::Usize(i) => *i as i64,
                UnsignedInt::U128(_) => unreached(),
            },
            ConstantInt::SignedInt(si) => match si {
                SignedInt::I8(i) => *i as i64,
                SignedInt::I16(i) => *i as i64,
                SignedInt::I32(i) => *i as i64,
                SignedInt::I64(i) => *i,
                SignedInt::Isize(i) => *i as i64,
                SignedInt::I128(_) => unreached(),
            },
        }
    }

    pub fn u8_from_bits(bits: u128) -> (r: Self)
        ensures
            r == ConstantInt::UnsignedInt(UnsignedInt::U8(bits as u8)),
    {
        ConstantInt::UnsignedInt(UnsignedInt::U8(bits as u8))
    }

    pub fn u16_from_bits(bits: u128) -> (r: Self)
        ensures
            r == ConstantInt::UnsignedInt(UnsignedInt::U16(bits as u16)),
    {
        ConstantInt::UnsignedInt(UnsignedInt::U16(bits as u16))
    }

    pub fn u32_from_bits(bits: u128) -> (r: Self)
        ensures
            r == ConstantInt::UnsignedInt(UnsignedInt::U32(bits as u32)),
    {
        ConstantInt::UnsignedInt(UnsignedInt::U32(bits as u32))
    }

    pub fn u64_from_bits(bits: u128) -> (r: Self)
        ensures
            r == ConstantInt::UnsignedInt(UnsignedInt::U64(bits as u64)),
    {
        ConstantInt::UnsignedInt(UnsignedInt::U64(bits as u64))
    }

    pub fn usize_from_bits(bits: u128) -> (r: Self)
        ensures
            r == ConstantInt::UnsignedInt(UnsignedInt::Usize(bits as usize)),
    {
        ConstantInt::UnsignedInt(UnsignedInt::Usize(bits as usize))
    }

    pub fn u128_from_bits(bits: u128) -> (r: Self)
        ensures
            r matches ConstantInt::UnsignedInt(UnsignedInt::U128(v)) && v.spec_val() == bits,
    {
        ConstantInt::UnsignedInt(UnsignedInt::U128(SerU128::new(bits)))
    }

    pub fn i8_from_bits(bits: u128) -> (r: Self)
        ensures
            r == ConstantInt::SignedInt(SignedInt::I8(bits as i8)),
    {
        ConstantInt::SignedInt(SignedInt::I8(bits as i8))
    }

    pub fn i16_from_bits(bits: u128) -> (r: Self)
        ensures
            r == ConstantInt::SignedInt(SignedInt::I16(bits as i16)),
    {
        ConstantInt::SignedInt(SignedInt::I16(bits as i16))
    }

    pub fn i32_from_bits(bits: u128) -> (r: Self)
        ensures
            r == ConstantInt::SignedInt(SignedInt::I32(bits as i32)),
    {
        ConstantInt::SignedInt(SignedInt::I32(bits as i32))
    }

    pub fn i64_from_bits(bits: u128) -> (r: Self)
        ensures
            r == ConstantInt::SignedInt(SignedInt::I64(bits as i64)),
    {
        ConstantInt::SignedInt(SignedInt::I64(bits as i64))
    }

    pub fn isize_from_bits(bits: u128) -> (r: Self)
        ensures
            r == ConstantInt::SignedInt(SignedInt::Isize(bits as isize)),
    {
        ConstantInt::SignedInt(SignedInt::Isize(bits as isize))
    }

    pub fn i128_from_bits(bits: u128) -> (r: Self)
        ensures
            r matches ConstantInt::SignedInt(SignedInt::I128(v)) && v.spec_val() == bits as i128,
    {
        ConstantInt::SignedInt(SignedInt::I128(SerI128::new(bits as i128)))
    }
}

impl From<bool> for ConstantInt {
    /// Booleans are represented as the pointer-sized integers 0 and 1.
    fn from(b: bool) -> (r: Self)
        ensures
            b ==> r == ConstantInt::UnsignedInt(UnsignedInt::Usize(1usize)),
            !b ==> r == ConstantInt::UnsignedInt(UnsignedInt::Usize(0usize)),
    {
        if b {
            ConstantInt::UnsignedInt(UnsignedInt::Usize(1))
        } else {
            ConstantInt::UnsignedInt(UnsignedInt::Usize(0))
        }
    }
}

impl vstd::std_specs::convert::FromSpecImpl<bool> for ConstantInt {
    open spec fn obeys_from_spec() -> bool {
        true
    }

    open spec fn from_spec(b: bool) -> Self {
        if b {
            ConstantInt::UnsignedInt(UnsignedInt::Usize(1))
        } else {
            ConstantInt::UnsignedInt(UnsignedInt::Usize(0))
        }
    }
}

/// A constant embedded in the IR.
#[derive(PartialEq, Eq, Debug)]
pub enum Constant {
    Int(ConstantInt),
    Bool(bool),
    Unimplemented(String),
}

/// Mathematical image of a `Constant`.
pub enum ConstantView {
    Int(ConstantInt),
    Bool(bool),
    Unimplemented(Seq<char>),
}

impl View for Constant {
    type V = ConstantView;

    open spec fn view(&self) -> ConstantView {
        match self {
            Constant::Int(ci) => ConstantView::Int(*ci),
            Constant::Bool(b) => ConstantView::Bool(*b),
            Constant::Unimplemented(s) => ConstantView::Unimplemented(s@),
        }
    }
}

impl DeepView for Constant {
    type V = ConstantView;

    open spec fn deep_view(&self) -> ConstantView {
        self.view()
    }
}

impl Clone for Constant {
    fn clone(&self) -> (r: Self)
        ensures
            r@ == self@,
    {
        match self {
            Constant::Int(ci) => Constant::Int(*ci),
            Constant::Bool(b) => Constant::Bool(*b),
            Constant::Unimplemented(s) => Constant::Unimplemented(s.clone()),
        }
    }
}

impl Constant {
    /// Whether `i64_cast` is defined for this constant.
    pub open spec fn i64_castable(&self) -> bool {
        match self {
            Constant::Int(ci) => ci.i64_castable(),
            Constant::Bool(_) => true,
            Constant::Unimplemented(_) => false,
        }
    }

    /// The constant as an `i64` register image.
    pub open spec fn spec_i64_cast(&self) -> i64 {
        match self {
            Constant::Int(ci) => ci.spec_i64_cast(),
            Constant::Bool(b) => if *b {
                1i64
            } else {
                0i64
            },
            Constant::Unimplemented(_) => 0i64,
        }
    }

    pub fn i64_cast(&self) -> (r: i64)
        requires
            self.i64_castable(),
        ensures
            r == self.spec_i64_cast(),
    {
        match self {
            Constant::Int(ci) => ci.i64_cast(),
            Constant::Bool(b) => if *b {
                1
            } else {
                0
            },
            Constant::Unimplemented(_) => unreached(),
        }
    }
}

/// A call target.
#[derive(PartialEq, Eq, Debug)]
pub enum CallOperand {
    /// A call to a binary symbol by name.
    Fn(String),
    /// An unknown or unhandled callable.
    Unknown,
}

/// Mathematical image of a `CallOperand`.
pub enum CallOperandView {
    Fn(Seq<char>),
    Unknown,
}

impl View for CallOperand {
    type V = CallOperandView;

    open spec fn view(&self) -> CallOperandView {
        match self {
            CallOperand::Fn(s) => CallOperandView::Fn(s@),
            CallOperand::Unknown => CallOperandView::Unknown,
        }
    }
}

impl DeepView for CallOperand {
    type V = CallOperandView;

    open spec fn deep_view(&self) -> CallOperandView {
        self.view()
    }
}

impl Clone for CallOperand {
    fn clone(&self) -> (r: Self)
        ensures
            r@ == self@,
    {
        match self {
            CallOperand::Fn(s) => CallOperand::Fn(s.clone()),
            CallOperand::Unknown => CallOperand::Unknown,
        }
    }
}

impl CallOperand {
    /// The symbol name of the call target, if it is known.
    pub fn symbol(&self) -> (r: Option<&str>)
        ensures
            match self@ {
                CallOperandView::Fn(s) => r matches Some(n) && n@ == s,
                CallOperandView::Unknown => r is None,
            },
    {
        if let CallOperand::Fn(sym) = self {
            Some(sym.as_str())
        } else {
            None
        }
    }
}

/// An operand of a statement: a place to read or an embedded constant.
/// Unlike in MIR, we don't track move/copy semantics in operands.
#[derive(PartialEq, Eq, Debug)]
pub enum Operand {
    Place(Place),
    Constant(Constant),
}

/// Mathematical image of an `Operand`.
pub enum OperandView {
    Place(PlaceView),
    Constant(ConstantView),
}

impl View for Operand {
    type V = OperandView;

    open spec fn view(&self) -> OperandView {
        match self {
            Operand::Place(p) => OperandView::Place(p@),
            Operand::Constant(c) => OperandView::Constant(c@),
        }
    }
}

impl DeepView for Operand {
    type V = OperandView;

    open spec fn deep_view(&self) -> OperandView {
        self.view()
    }
}

impl Clone for Operand {
    fn clone(&self) -> (r: Self)
        ensures
            r@ == self@,
    {
        match self {
            Operand::Place(p) => Operand::Place(p.clone()),
            Operand::Constant(c) => Operand::Constant(c.clone()),
        }
    }
}

impl From<Local> for Operand {
    /// A bare local read whole.
    fn from(l: Local) -> (r: Self)
        ensures
            r matches Operand::Place(p) && p.local == l && p.projection@.len() == 0,
    {
        Operand::Place(Place::from(l))
    }
}

impl vstd::std_specs::convert::FromSpecImpl<Local> for Operand {
    open spec fn obeys_from_spec() -> bool {
        false
    }

    open spec fn from_spec(l: Local) -> Self {
        Operand::Place(bare_place(l))
    }
}

impl From<Place> for Operand {
    fn from(p: Place) -> (r: Self)
        ensures
            r == Operand::Place(p),
    {
        Operand::Place(p)
    }
}

impl vstd::std_specs::convert::FromSpecImpl<Place> for Operand {
    open spec fn obeys_from_spec() -> bool {
        true
    }

    open spec fn from_spec(p: Place) -> Self {
        Operand::Place(p)
    }
}

impl Operand {
    /// The locals this operand reads.
    pub open spec fn spec_used_locals(&self) -> Seq<Local> {
        match self {
            Operand::Place(p) => seq![p.local],
            Operand::Constant(_) => seq![],
        }
    }

    fn push_used_locals(&self, locals: &mut Vec<Local>)
        ensures
            final(locals)@ == old(locals)@ + self.spec_used_locals(),
    {
        match self {
            Operand::Place(p) => {
                p.push_used_locals(locals);
                proof {
                    assert(locals@ =~= old(locals)@ + self.spec_used_locals());
                }
            },
            Operand::Constant(_) => {
                proof {
                    assert(locals@ =~= old(locals)@ + self.spec_used_locals());
                }
            },
        }
    }
}

/// Binary operations.
#[derive(Clone, Copy, PartialEq, Eq, Structural, Debug)]
pub enum BinOp {
    Add,
    Sub,
    Mul,
    Div,
    Rem,
    BitXor,
    BitAnd,
    BitOr,
    Shl,
    Shr,
    Eq,
    Lt,
    Le,
    Ne,
    Ge,
    Gt,
    Offset,
}

/// The right-hand side of an assignment.
#[derive(PartialEq, Eq, Debug)]
pub enum Rvalue {
    Use(Operand),
    BinaryOp(BinOp, Operand, Operand),
    CheckedBinaryOp(BinOp, Operand, Operand),
    Ref(Place),
    Unimplemented(String),
}

/// Mathematical image of an `Rvalue`.
pub enum RvalueView {
    Use(OperandView),
    BinaryOp(BinOp, OperandView, OperandView),
    CheckedBinaryOp(BinOp, OperandView, OperandView),
    Ref(PlaceView),
    Unimplemented(Seq<char>),
}

impl View for Rvalue {
    type V = RvalueView;

    open spec fn view(&self) -> RvalueView {
        match self {
            Rvalue::Use(op) => RvalueView::Use(op@),
            Rvalue::BinaryOp(binop, o1, o2) => RvalueView::BinaryOp(*binop, o1@, o2@),
            Rvalue::CheckedBinaryOp(binop, o1, o2) => RvalueView::CheckedBinaryOp(
                *binop,
                o1@,
                o2@,
            ),
            Rvalue::Ref(p) => RvalueView::Ref(p@),
            Rvalue::Unimplemented(s) => RvalueView::Unimplemented(s@),
        }
    }
}

impl DeepView for Rvalue {
    type V = RvalueView;

    open spec fn deep_view(&self) -> RvalueView {
        self.view()
    }
}

impl From<Local> for Rvalue {
    /// A bare local read whole.
    fn from(l: Local) -> (r: Self)
        ensures
            r matches Rvalue::Use(Operand::Place(p)) && p.local == l && p.projection@.len() == 0,
    {
        Rvalue::Use(Operand::from(l))
    }
}

impl vstd::std_specs::convert::FromSpecImpl<Local> for Rvalue {
    open spec fn obeys_from_spec() -> bool {
        false
    }

    open spec fn from_spec(l: Local) -> Self {
        Rvalue::Use(Operand::Place(bare_place(l)))
    }
}

impl Rvalue {
    /// The locals this rvalue reads, in the order they are reported.
    pub open spec fn spec_used_locals(&self) -> Seq<Local> {
        match self {
            Rvalue::Use(op) => op.spec_used_locals(),
            Rvalue::BinaryOp(_, o1, o2) => o1.spec_used_locals() + o2.spec_used_locals(),
            Rvalue::CheckedBinaryOp(_, o1, o2) => o1.spec_used_locals() + o2.spec_used_locals(),
            Rvalue::Ref(p) => seq![p.local],
            Rvalue::Unimplemented(_) => seq![],
        }
    }

    pub fn push_used_locals(&self, locals: &mut Vec<Local>)
        ensures
            final(locals)@ == old(locals)@ + self.spec_used_locals(),
    {
        match self {
            Rvalue::Use(opnd) => opnd.push_used_locals(locals),
            Rvalue::BinaryOp(_op, opnd1, opnd2) => {
                opnd1.push_used_locals(locals);
                opnd2.push_used_locals(locals);
                proof {
                    assert(locals@ =~= old(locals)@ + self.spec_used_locals());
                }
            },
            Rvalue::CheckedBinaryOp(_op, opnd1, opnd2) => {
                opnd1.push_used_locals(locals);
                opnd2.push_used_locals(locals);
                proof {
                    assert(locals@ =~= old(locals)@ + self.spec_used_locals());
                }
            },
            Rvalue::Ref(plc) => {
                plc.push_used_locals(locals);
                proof {
                    assert(locals@ =~= old(locals)@ + self.spec_used_locals());
                }
            },
            Rvalue::Unimplemented(_) => {
                proof {
                    assert(locals@ =~= old(locals)@ + self.spec_used_locals());
                }
            },
        }
    }
}

/// A local plus a byte offset whose slot holds a pointer; the base of an
/// indirect place.
#[derive(Clone, Copy, PartialEq, Eq, Structural, Debug)]
pub struct Ptr {
    pub local: Local,
    pub off: u32,
}

/// An interpreter-resolved place: where a value lives at execution time.
/// Produced by a projection-resolution step ahead of execution; never
/// serialized.
#[derive(PartialEq, Eq, Debug)]
pub enum IPlace {
    /// The value lives directly in the frame, at the local's slot plus a
    /// byte offset.
    Val { local: Local, off: u32, ty: TypeId },
    /// The local's slot (plus `ptr.off`) holds a pointer; the value lives at
    /// that pointer plus another byte offset.
    Indirect { ptr: Ptr, off: u32, ty: TypeId },
    /// An embedded constant; it has no address.
    Const { val: Constant, ty: TypeId },
}

/// Mathematical image of an `IPlace`.
pub enum IPlaceView {
    Val { local: Local, off: u32, ty: TypeId },
    Indirect { ptr: Ptr, off: u32, ty: TypeId },
    Const { val: ConstantView, ty: TypeId },
}

impl View for IPlace {
    type V = IPlaceView;

    open spec fn view(&self) -> IPlaceView {
        match self {
            IPlace::Val { local, off, ty } => IPlaceView::Val {
                local: *local,
                off: *off,
                ty: *ty,
            },
            IPlace::Indirect { ptr, off, ty } => IPlaceView::Indirect {
                ptr: *ptr,
                off: *off,
                ty: *ty,
            },
            IPlace::Const { val, ty } => IPlaceView::Const { val: val@, ty: *ty },
        }
    }
}

impl DeepView for IPlace {
    type V = IPlaceView;

    open spec fn deep_view(&self) -> IPlaceView {
        self.view()
    }
}

impl Clone for IPlace {
    fn clone(&self) -> (r: Self)
        ensures
            r@ == self@,
    {
        match self {
            IPlace::Val { local, off, ty } => IPlace::Val { local: *local, off: *off, ty: *ty },
            IPlace::Indirect { ptr, off, ty } => IPlace::Indirect {
                ptr: *ptr,
                off: *off,
                ty: *ty,
            },
            IPlace::Const { val, ty } => IPlace::Const { val: val.clone(), ty: *ty },
        }
    }
}

impl IPlace {
    /// The type of the value this place refers to.
    pub open spec fn spec_ty(&self) -> TypeId {
        match self {
            IPlace::Val { ty, .. } => *ty,
            IPlace::Indirect { ty, .. } => *ty,
            IPlace::Const { ty, .. } => *ty,
        }
    }

    pub fn ty(&self) -> (r: TypeId)
        ensures
            r == self.spec_ty(),
    {
        match self {
            IPlace::Val { ty, .. } => *ty,
            IPlace::Indirect { ty, .. } => *ty,
            IPlace::Const { ty, .. } => *ty,
        }
    }

    /// The locals read when this place is used as a source.
    pub open spec fn spec_used_locals(&self) -> Seq<Local> {
        match self {
            IPlace::Val { local, .. } => seq![*local],
            IPlace::Indirect { ptr, .. } => seq![ptr.local],
            IPlace::Const { .. } => seq![],
        }
    }

    /// The locals possibly written when this place is used as a
    /// destination: a direct place writes its local, an indirect one writes
    /// through a pointer instead.
    pub open spec fn spec_defined_locals(&self) -> Seq<Local> {
        match self {
            IPlace::Val { local, .. } => seq![*local],
            IPlace::Indirect { .. } => seq![],
            IPlace::Const { .. } => seq![],
        }
    }

    fn push_used_locals(&self, locals: &mut Vec<Local>)
        ensures
            final(locals)@ == old(locals)@ + self.spec_used_locals(),
    {
        match self {
            IPlace::Val { local, .. } => locals.push(*local),
            IPlace::Indirect { ptr, .. } => locals.push(ptr.local),
            IPlace::Const { .. } => (),
        }
        proof {
            assert(locals@ =~= old(locals)@ + self.spec_used_locals());
        }
    }

    fn push_defined_locals(&self, locals: &mut Vec<Local>)
        ensures
            final(locals)@ == old(locals)@ + self.spec_defined_locals(),
    {
        match self {
            IPlace::Val { local, .. } => locals.push(*local),
            IPlace::Indirect { .. } => (),
            IPlace::Const { .. } => (),
        }
        proof {
            assert(locals@ =~= old(locals)@ + self.spec_defined_locals());
        }
    }
}

/// A statement of the IR. The `Enter`, `Leave` and `Call` variants are
/// specific to lowered traces (TIR) and never appear in a SIR body; the
/// `Store` and `MkRef` variants carry resolved places and appear only in
/// bodies prepared for direct interpretation.
#[derive(PartialEq, Eq, Debug)]
pub enum Statement {
    /// Do nothing.
    Nop,
    /// An assignment.
    Assign(Place, Rvalue),
    /// Marks the entry of an inlined function call in a TIR trace.
    Enter(CallOperand, Vec<Operand>, Option<Place>, u32),
    /// Marks the exit of an inlined function call in a TIR trace.
    Leave,
    /// Marks a local variable dead.
    /// Note that locals are implicitly live at first use.
    StorageDead(Local),
    /// A (non-inlined) call from a TIR trace to a binary symbol using the
    /// system ABI.
    Call(CallOperand, Vec<Operand>, Option<Place>),
    /// Copy the value of one resolved place into another.
    Store(IPlace, IPlace),
    /// Write the address of one resolved place into another.
    MkRef(IPlace, IPlace),
    /// Any unimplemented lowering maps to this variant.
    /// The string inside describes the original statement.
    Unimplemented(String),
}

/// Mathematical image of a `Statement`.
pub enum StatementView {
    Nop,
    Assign(PlaceView, RvalueView),
    Enter(CallOperandView, Seq<OperandView>, Option<PlaceView>, u32),
    Leave,
    StorageDead(Local),
    Call(CallOperandView, Seq<OperandView>, Option<PlaceView>),
    Store(IPlaceView, IPlaceView),
    MkRef(IPlaceView, IPlaceView),
    Unimplemented(Seq<char>),
}

impl View for Statement {
    type V = StatementView;

    open spec fn view(&self) -> StatementView {
        match self {
            Statement::Nop => StatementView::Nop,
            Statement::Assign(p, rv) => StatementView::Assign(p@, rv@),
            Statement::Enter(op, args, dest, off) => StatementView::Enter(
                op@,
                args.deep_view(),
                dest.deep_view(),
                *off,
            ),
            Statement::Leave => StatementView::Leave,
            Statement::StorageDead(l) => StatementView::StorageDead(*l),
            Statement::Call(op, args, dest) => StatementView::Call(
                op@,
                args.deep_view(),
                dest.deep_view(),
            ),
            Statement::Store(d, s) => StatementView::Store(d@, s@),
            Statement::MkRef(d, s) => StatementView::MkRef(d@, s@),
            Statement::Unimplemented(s) => StatementView::Unimplemented(s@),
        }
    }
}

impl DeepView for Statement {
    type V = StatementView;

    open spec fn deep_view(&self) -> StatementView {
        self.view()
    }
}

impl Statement {
    /// Whether the locals this statement may define can be enumerated
    /// without the renamed indices of an `Enter` overflowing.
    pub open spec fn defined_locals_ok(&self) -> bool {
        match self {
            Statement::Enter(_, args, _, start_idx) => *start_idx + args@.len()
                <= u32::MAX,
            _ => true,
        }
    }

    /// The locals this statement may define. Whether a local is actually
    /// defined depends on whether this is the first write into it: there is
    /// no explicit liveness marker in SIR/TIR.
    pub open spec fn spec_maybe_defined_locals(&self) -> Seq<Local> {
        match self {
            Statement::Nop => seq![],
            Statement::Assign(place, _) => seq![place.local],
            // `Enter` doesn't define the destination, as that will be
            // defined by an inlined assignment; its renamed argument slots
            // start one past the callee's return slot.
            Statement::Enter(_, args, _, start_idx) => Seq::new(
                args@.len(),
                |i: int| Local((*start_idx + i + 1) as u32),
            ),
            Statement::Leave => seq![],
            Statement::StorageDead(_) => seq![],
            Statement::Call(_, _, dest) => match dest {
                Some(d) => seq![d.local],
                None => seq![],
            },
            Statement::Store(dest, _) => dest.spec_defined_locals(),
            Statement::MkRef(dest, _) => dest.spec_defined_locals(),
            Statement::Unimplemented(_) => seq![],
        }
    }

    /// The locals this statement uses but does not define.
    pub open spec fn spec_used_locals(&self) -> Seq<Local> {
        match self {
            Statement::Nop => seq![],
            Statement::Assign(place, rval) => rval.spec_used_locals() + seq![place.local],
            // `Enter` doesn't use the callee args; inlined statements will
            // use them instead.
            Statement::Enter(_, _, _, _) => seq![],
            Statement::Leave => seq![],
            Statement::StorageDead(_) => seq![],
            Statement::Call(_, args, _) => Seq::new(args@.len(), |i: int| args@[i]).fold_left(
                Seq::<Local>::empty(),
                |acc: Seq<Local>, a: Operand| acc + a.spec_used_locals(),
            ),
            Statement::Store(dest, src) => src.spec_used_locals() + dest.spec_used_locals(),
            Statement::MkRef(dest, src) => src.spec_used_locals() + dest.spec_used_locals(),
            Statement::Unimplemented(_) => seq![],
        }
    }

    /// Returns a vector of locals that this SIR statement *may* define.
    pub fn maybe_defined_locals(&self) -> (r: Vec<Local>)
        requires
            self.defined_locals_ok(),
        ensures
            r@ == self.spec_maybe_defined_locals(),
    {
        let mut ret: Vec<Local> = Vec::new();
        match self {
            Statement::Nop => (),
            Statement::Assign(place, _rval) => place.push_maybe_defined_locals(&mut ret),
            Statement::Enter(_target, args, _dest_place, start_idx) => {
                let n = args.len();
                let mut idx: usize = 0;
                while idx < n
                    invariant
                        idx <= n,
                        n == args@.len(),
                        *start_idx + n <= u32::MAX,
                        ret@ == Seq::new(
                            idx as nat,
                            |i: int| Local((*start_idx + i + 1) as u32),
                        ),
                    decreases n - idx,
                {
                    // + 1 to skip the return value.
                    ret.push(Local(*start_idx + (idx as u32) + 1));
                    idx = idx + 1;
                    proof {
                        assert(ret@ =~= Seq::new(
                            idx as nat,
                            |i: int| Local((*start_idx + i + 1) as u32),
                        ));
                    }
                }
            },
            Statement::Leave => (),
            Statement::StorageDead(_) => (),
            Statement::Call(_target, _args, dest) => {
                if let Some(dest) = dest {
                    dest.push_maybe_defined_locals(&mut ret);
                }
            },
            Statement::Store(dest, _) => dest.push_defined_locals(&mut ret),
            Statement::MkRef(dest, _) => dest.push_defined_locals(&mut ret),
            Statement::Unimplemented(_) => (),
        }
        proof {
            assert(ret@ =~= self.spec_maybe_defined_locals());
        }
        ret
    }

    /// Returns a vector of locals that this SIR statement uses but does not
    /// define.
    pub fn used_locals(&self) -> (r: Vec<Local>)
        ensures
            r@ == self.spec_used_locals(),
    {
        let mut ret: Vec<Local> = Vec::new();
        match self {
            Statement::Nop => (),
            Statement::Assign(place, rval) => {
                rval.push_used_locals(&mut ret);
                place.push_used_locals(&mut ret);
            },
            Statement::Enter(_target, _args, _opt_place, _idx) => (),
            Statement::Leave => (),
            Statement::StorageDead(_) => (),
            Statement::Call(_target, args, _dest) => {
                let n = args.len();
                let mut idx: usize = 0;
                while idx < n
                    invariant
                        idx <= n,
                        n == args@.len(),
                        ret@ == Seq::new(idx as nat, |i: int| args@[i]).fold_left(
                            Seq::<Local>::empty(),
                            |acc: Seq<Local>, a: Operand| acc + a.spec_used_locals(),
                        ),
                    decreases n - idx,
                {
                    proof {
                        let prefix = Seq::new(idx as nat, |i: int| args@[i]);
                        let next = Seq::new((idx + 1) as nat, |i: int| args@[i]);
                        assert(next.drop_last() =~= prefix);
                        assert(next.last() == args@[idx as int]);
                    }
                    args[idx].push_used_locals(&mut ret);
                    idx = idx + 1;
                }
            },
            Statement::Store(dest, src) => {
                src.push_used_locals(&mut ret);
                dest.push_used_locals(&mut ret);
            },
            Statement::MkRef(dest, src) => {
                src.push_used_locals(&mut ret);
                dest.push_used_locals(&mut ret);
            },
            Statement::Unimplemented(_) => (),
        }
        proof {
            assert(ret@ =~= self.spec_used_locals());
        }
        ret
    }

    /// Returns a vector of locals either used or defined by this statement.
    pub fn referenced_locals(&self) -> (r: Vec<Local>)
        requires
            self.defined_locals_ok(),
        ensures
            r@ == self.spec_maybe_defined_locals() + self.spec_used_locals(),
    {
        let mut ret = self.maybe_defined_locals();
        let mut used = self.used_locals();
        let n = used.len();
        let mut idx: usize = 0;
        while idx < n
            invariant
                idx <= n,
                n == used@.len(),
                used@ == self.spec_used_locals(),
                ret@ == self.spec_maybe_defined_locals() + used@.take(idx as int),
            decreases n - idx,
        {
            ret.push(used[idx]);
            idx = idx + 1;
            proof {
                assert(used@.take(idx as int) =~= used@.take(idx - 1).push(used@[idx - 1]));
                assert(ret@ =~= self.spec_maybe_defined_locals() + used@.take(idx as int));
            }
        }
        proof {
            assert(used@.take(n as int) =~= used@);
            assert(ret@ =~= self.spec_maybe_defined_locals() + self.spec_used_locals());
        }
        ret
    }
}

/// A basic block terminator.
/// Note that we assume the abort panic strategy, so there are no unwind or
/// cleanup edges present.
#[derive(PartialEq, Eq, Debug)]
pub enum Terminator {
    Goto(BasicBlockIndex),
    SwitchInt {
        discr: Place,
        values: Vec<SerU128>,
        target_bbs: Vec<BasicBlockIndex>,
        otherwise_bb: BasicBlockIndex,
    },
    Return,
    Unreachable,
    Drop { location: Place, target_bb: BasicBlockIndex },
    DropAndReplace { location: Place, target_bb: BasicBlockIndex, value: Operand },
    Call {
        operand: CallOperand,
        args: Vec<Operand>,
        /// The return value and basic block to continue at, if the call
        /// converges.
        destination: Option<(Place, BasicBlockIndex)>,
    },
    /// The value in `cond` must equal `expected` to advance to `target_bb`.
    Assert { cond: Place, expected: bool, target_bb: BasicBlockIndex },
    Unimplemented(String),
}

/// An ordered list of statements terminated by exactly one terminator.
#[derive(PartialEq, Eq, Debug)]
pub struct BasicBlock {
    pub stmts: Vec<Statement>,
    pub term: Terminator,
}

impl BasicBlock {
    pub fn new(stmts: Vec<Statement>, term: Terminator) -> (r: Self)
        ensures
            r.stmts == stmts,
            r.term == term,
    {
        Self { stmts, term }
    }
}

/// The compiled-IR unit for one function: its basic blocks and local
/// declarations, plus the precomputed frame layout the interpreter uses (a
/// byte offset per local and the aggregate size and alignment of one
/// activation record).
#[derive(PartialEq, Eq, Debug)]
pub struct Body {
    pub symbol_name: String,
    pub blocks: Vec<BasicBlock>,
    pub flags: u8,
    pub trace_inputs_local: Option<Local>,
    pub local_decls: Vec<LocalDecl>,
    /// The byte offset of each local within an activation record.
    pub offsets: Vec<usize>,
    /// The size and alignment in bytes of one activation record.
    pub layout: (usize, usize),
}

/// The top-level pack type.
#[derive(PartialEq, Eq, Debug)]
pub enum Pack {
    Body(Body),
    Types(Types),
}

} // verus!

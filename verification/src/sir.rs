//! The SIR body registry and recorded traces of executed locations.

use vstd::prelude::*;

use crate::types::{Body, Local, Ty, TypeId, Types};

verus! {

/// One executed location: a binary symbol name and the index of the basic
/// block that ran within that symbol's body.
#[derive(PartialEq, Eq, Debug)]
pub struct SirLoc {
    pub symbol_name: String,
    pub bb_idx: u32,
}

impl SirLoc {
    pub fn new(symbol_name: String, bb_idx: u32) -> (r: Self)
        ensures
            r.symbol_name == symbol_name,
            r.bb_idx == bb_idx,
    {
        Self { symbol_name, bb_idx }
    }
}

/// A finite, ordered recording of the locations executed during one tracing
/// session, with bounds-checked random access.
#[derive(Debug)]
pub struct SirTrace {
    locs: Vec<SirLoc>,
}

impl SirTrace {
    /// The recorded locations, in execution order.
    pub closed spec fn spec_locs(&self) -> Seq<SirLoc> {
        self.locs@
    }

    pub fn new(locs: Vec<SirLoc>) -> (r: Self)
        ensures
            r.spec_locs() == locs@,
    {
        Self { locs }
    }

    /// The number of raw locations in the trace.
    pub fn raw_len(&self) -> (r: usize)
        ensures
            r == self.spec_locs().len(),
    {
        self.locs.len()
    }

    /// The location at position `idx`. Out-of-range access is a caller
    /// error.
    pub fn raw_loc(&self, idx: usize) -> (r: &SirLoc)
        requires
            idx < self.spec_locs().len(),
        ensures
            *r == self.spec_locs()[idx as int],
    {
        &self.locs[idx]
    }
}

/// The read-only registry of SIR: every traceable function's body, and the
/// type tables of every crate, populated once before lowering or
/// interpretation starts.
#[derive(Debug)]
pub struct Sir {
    bodies: Vec<Body>,
    types: Vec<Types>,
}

/// The registry keyed by symbol name: later entries would win, but a
/// well-formed registry holds each symbol once.
pub open spec fn sym_map(s: Seq<Body>) -> Map<Seq<char>, Body>
    decreases s.len(),
{
    if s.len() == 0 {
        Map::empty()
    } else {
        sym_map(s.drop_last()).insert(s.last().symbol_name@, s.last())
    }
}

/// The type tables keyed by crate hash.
pub open spec fn crate_map(s: Seq<Types>) -> Map<u64, Types>
    decreases s.len(),
{
    if s.len() == 0 {
        Map::empty()
    } else {
        crate_map(s.drop_last()).insert(s.last().crate_hash, s.last())
    }
}

/// A key is in `sym_map` exactly when some entry bears it.
proof fn lemma_sym_map_contains(s: Seq<Body>, sym: Seq<char>)
    ensures
        sym_map(s).contains_key(sym) <==> exists|i: int|
            0 <= i < s.len() && s[i].symbol_name@ == sym,
    decreases s.len(),
{
    if s.len() > 0 {
        lemma_sym_map_contains(s.drop_last(), sym);
        if s.last().symbol_name@ != sym {
            assert(forall|i: int| 0 <= i < s.len() - 1 ==> s.drop_last()[i] == s[i]);
            if exists|i: int| 0 <= i < s.len() && s[i].symbol_name@ == sym {
                let i = choose|i: int| 0 <= i < s.len() && s[i].symbol_name@ == sym;
                assert(i < s.len() - 1);
                assert(s.drop_last()[i].symbol_name@ == sym);
            }
        }
    }
}

/// In a registry without repeated symbols, the entry bearing a symbol is
/// the map's value for it.
proof fn lemma_sym_map_index(s: Seq<Body>, i: int)
    requires
        forall|j: int, k: int|
            0 <= j < s.len() && 0 <= k < s.len() && j != k ==> s[j].symbol_name@
                != s[k].symbol_name@,
        0 <= i < s.len(),
    ensures
        sym_map(s).contains_key(s[i].symbol_name@),
        sym_map(s)[s[i].symbol_name@] == s[i],
    decreases s.len(),
{
    lemma_sym_map_contains(s, s[i].symbol_name@);
    if i < s.len() - 1 {
        assert(forall|j: int| 0 <= j < s.len() - 1 ==> s.drop_last()[j] == s[j]);
        lemma_sym_map_index(s.drop_last(), i);
        assert(s.last().symbol_name@ != s[i].symbol_name@);
    }
}

/// A key is in `crate_map` exactly when some table bears it, and with
/// unique hashes that table is the map's value.
proof fn lemma_crate_map_contains(s: Seq<Types>, hash: u64)
    ensures
        crate_map(s).contains_key(hash) <==> exists|i: int|
            0 <= i < s.len() && s[i].crate_hash == hash,
    decreases s.len(),
{
    if s.len() > 0 {
        lemma_crate_map_contains(s.drop_last(), hash);
        if s.last().crate_hash != hash {
            assert(forall|i: int| 0 <= i < s.len() - 1 ==> s.drop_last()[i] == s[i]);
            if exists|i: int| 0 <= i < s.len() && s[i].crate_hash == hash {
                let i = choose|i: int| 0 <= i < s.len() && s[i].crate_hash == hash;
                assert(i < s.len() - 1);
                assert(s.drop_last()[i].crate_hash == hash);
            }
        }
    }
}

proof fn lemma_crate_map_index(s: Seq<Types>, i: int)
    requires
        forall|j: int, k: int|
            0 <= j < s.len() && 0 <= k < s.len() && j != k ==> s[j].crate_hash
                != s[k].crate_hash,
        0 <= i < s.len(),
    ensures
        crate_map(s).contains_key(s[i].crate_hash),
        crate_map(s)[s[i].crate_hash] == s[i],
    decreases s.len(),
{
    lemma_crate_map_contains(s, s[i].crate_hash);
    if i < s.len() - 1 {
        assert(forall|j: int| 0 <= j < s.len() - 1 ==> s.drop_last()[j] == s[j]);
        lemma_crate_map_index(s.drop_last(), i);
        assert(s.last().crate_hash != s[i].crate_hash);
    }
}

impl Sir {
    /// A registry is well formed when no symbol and no crate hash is
    /// registered twice.
    pub closed spec fn wf(&self) -> bool {
        &&& forall|j: int, k: int|
            0 <= j < self.bodies@.len() && 0 <= k < self.bodies@.len() && j != k
                ==> self.bodies@[j].symbol_name@ != self.bodies@[k].symbol_name@
        &&& forall|j: int, k: int|
            0 <= j < self.types@.len() && 0 <= k < self.types@.len() && j != k
                ==> self.types@[j].crate_hash != self.types@[k].crate_hash
    }

    /// The registered bodies, keyed by symbol name.
    pub closed spec fn bodies_map(&self) -> Map<Seq<char>, Body> {
        sym_map(self.bodies@)
    }

    /// The registered type tables, keyed by crate hash.
    pub closed spec fn types_map(&self) -> Map<u64, Types> {
        crate_map(self.types@)
    }

    pub fn new() -> (r: Self)
        ensures
            r.wf(),
            r.bodies_map() == Map::<Seq<char>, Body>::empty(),
            r.types_map() == Map::<u64, Types>::empty(),
    {
        Self { bodies: Vec::new(), types: Vec::new() }
    }

    /// Look up the body compiled for a symbol.
    pub fn body(&self, sym: &String) -> (r: Option<&Body>)
        requires
            self.wf(),
        ensures
            match r {
                Some(b) => self.bodies_map().contains_key(sym@) && *b == self.bodies_map()[sym@],
                None => !self.bodies_map().contains_key(sym@),
            },
    {
        let n = self.bodies.len();
        let mut i: usize = 0;
        while i < n
            invariant
                i <= n,
                n == self.bodies@.len(),
                self.wf(),
                forall|j: int| 0 <= j < i ==> self.bodies@[j].symbol_name@ != sym@,
            decreases n - i,
        {
            if self.bodies[i].symbol_name == *sym {
                proof {
                    lemma_sym_map_index(self.bodies@, i as int);
                }
                return Some(&self.bodies[i]);
            }
            i = i + 1;
        }
        proof {
            lemma_sym_map_contains(self.bodies@, sym@);
        }
        None
    }

    /// Whether a symbol has a registered body.
    pub fn has_body(&self, sym: &String) -> (r: bool)
        requires
            self.wf(),
        ensures
            r == self.bodies_map().contains_key(sym@),
    {
        self.body(sym).is_some()
    }

    /// Register the body for a new symbol. Returns false, and changes
    /// nothing, if the symbol already has one.
    pub fn add_body(&mut self, body: Body) -> (r: bool)
        requires
            old(self).wf(),
        ensures
            final(self).wf(),
            final(self).types_map() == old(self).types_map(),
            r == !old(self).bodies_map().contains_key(body.symbol_name@),
            r ==> final(self).bodies_map() == old(self).bodies_map().insert(
                body.symbol_name@,
                body,
            ),
            !r ==> final(self).bodies_map() == old(self).bodies_map(),
    {
        if self.body(&body.symbol_name).is_some() {
            return false;
        }
        proof {
            lemma_sym_map_contains(self.bodies@, body.symbol_name@);
        }
        self.bodies.push(body);
        proof {
            assert(self.bodies@.drop_last() =~= old(self).bodies@);
            assert(self.bodies@.last() == body);
        }
        true
    }

    /// Register the type table of a new crate. Returns false, and changes
    /// nothing, if the crate hash is already present.
    pub fn add_types(&mut self, types: Types) -> (r: bool)
        requires
            old(self).wf(),
        ensures
            final(self).wf(),
            final(self).bodies_map() == old(self).bodies_map(),
            r == !old(self).types_map().contains_key(types.crate_hash),
            r ==> final(self).types_map() == old(self).types_map().insert(
                types.crate_hash,
                types,
            ),
            !r ==> final(self).types_map() == old(self).types_map(),
    {
        let n = self.types.len();
        let mut i: usize = 0;
        while i < n
            invariant
                i <= n,
                n == self.types@.len(),
                old(self) == self,
                self.wf(),
                forall|j: int| 0 <= j < i ==> self.types@[j].crate_hash != types.crate_hash,
            decreases n - i,
        {
            if self.types[i].crate_hash == types.crate_hash {
                proof {
                    lemma_crate_map_contains(self.types@, types.crate_hash);
                }
                return false;
            }
            i = i + 1;
        }
        proof {
            lemma_crate_map_contains(self.types@, types.crate_hash);
        }
        self.types.push(types);
        proof {
            assert(self.types@.drop_last() =~= old(self).types@);
            assert(self.types@.last() == types);
        }
        true
    }

    /// Whether a type reference resolves in this registry.
    pub open spec fn ty_known(&self, id: TypeId) -> bool {
        self.types_map().contains_key(id.0) && id.1 < self.types_map()[id.0].types@.len()
    }

    /// The type a reference resolves to.
    pub open spec fn spec_ty(&self, id: TypeId) -> Ty {
        self.types_map()[id.0].types@[id.1 as int]
    }

    /// Resolve a type reference, or nothing if the registry cannot.
    pub fn try_ty(&self, id: &TypeId) -> (r: Option<&Ty>)
        requires
            self.wf(),
        ensures
            match r {
                Some(t) => self.ty_known(*id) && *t == self.spec_ty(*id),
                None => !self.ty_known(*id),
            },
    {
        let n = self.types.len();
        let mut i: usize = 0;
        proof {
            lemma_crate_map_contains(self.types@, id.0);
        }
        while i < n
            invariant
                i <= n,
                n == self.types@.len(),
                self.wf(),
                self.types_map() == crate_map(self.types@),
                (exists|j: int| 0 <= j < self.types@.len() && self.types@[j].crate_hash == id.0)
                    <==> self.types_map().contains_key(id.0),
                forall|j: int| 0 <= j < i ==> self.types@[j].crate_hash != id.0,
            decreases n - i,
        {
            if self.types[i].crate_hash == id.0 {
                proof {
                    lemma_crate_map_index(self.types@, i as int);
                }
                if (id.1 as usize) < self.types[i].types.len() {
                    return Some(&self.types[i].types[id.1 as usize]);
                } else {
                    return None;
                }
            }
            i = i + 1;
        }
        None
    }

    /// Resolve a type reference. Unresolvable references are a caller
    /// error.
    pub fn ty(&self, id: &TypeId) -> (r: &Ty)
        requires
            self.wf(),
            self.ty_known(*id),
        ensures
            *r == self.spec_ty(*id),
    {
        let n = self.types.len();
        let mut i: usize = 0;
        proof {
            lemma_crate_map_contains(self.types@, id.0);
        }
        while i < n
            invariant
                i <= n,
                n == self.types@.len(),
                self.wf(),
                self.ty_known(*id),
                self.types_map() == crate_map(self.types@),
                exists|j: int| 0 <= j < self.types@.len() && self.types@[j].crate_hash == id.0,
                forall|j: int| 0 <= j < i ==> self.types@[j].crate_hash != id.0,
            decreases n - i,
        {
            if self.types[i].crate_hash == id.0 {
                proof {
                    lemma_crate_map_index(self.types@, i as int);
                }
                return &self.types[i].types[id.1 as usize];
            }
            i = i + 1;
        }
        proof {
            assert(false);
        }
        unreached()
    }
}

} // verus!

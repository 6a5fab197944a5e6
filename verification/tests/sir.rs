//! Tests for the body registry.

use ykcore::errors::InvalidTraceError;
use ykcore::sir::Sir;
use ykcore::types::{BasicBlock, Body, Terminator, Ty, Types, UnsignedIntTy};

fn tiny_body(symbol: &str) -> Body {
    Body {
        symbol_name: symbol.to_string(),
        blocks: vec![BasicBlock::new(vec![], Terminator::Return)],
        flags: 0,
        trace_inputs_local: None,
        local_decls: vec![],
        offsets: vec![],
        layout: (0, 1),
    }
}

#[test]
fn registry_lookup_finds_registered_bodies() {
    let mut sir = Sir::new();
    assert!(sir.add_body(tiny_body("alpha")));
    assert!(sir.add_body(tiny_body("beta")));
    assert!(sir.body(&"alpha".to_string()).is_some());
    assert!(sir.body(&"beta".to_string()).is_some());
    assert!(sir.body(&"gamma".to_string()).is_none());
    assert_eq!(sir.body(&"beta".to_string()).unwrap().symbol_name, "beta");
}

#[test]
fn registry_rejects_duplicate_symbols() {
    let mut sir = Sir::new();
    assert!(sir.add_body(tiny_body("alpha")));
    assert!(!sir.add_body(tiny_body("alpha")));
}

#[test]
fn registry_resolves_types_by_crate_and_index() {
    let mut sir = Sir::new();
    assert!(sir.add_types(Types {
        crate_hash: 11,
        types: vec![Ty::Bool, Ty::UnsignedInt(UnsignedIntTy::U32)],
        thread_tracers: vec![],
    }));
    assert!(sir.add_types(Types {
        crate_hash: 12,
        types: vec![Ty::UnsignedInt(UnsignedIntTy::U64)],
        thread_tracers: vec![],
    }));
    assert!(!sir.add_types(Types { crate_hash: 11, types: vec![], thread_tracers: vec![] }));
    assert_eq!(*sir.ty(&(11, 0)), Ty::Bool);
    assert_eq!(*sir.ty(&(11, 1)), Ty::UnsignedInt(UnsignedIntTy::U32));
    assert_eq!(*sir.ty(&(12, 0)), Ty::UnsignedInt(UnsignedIntTy::U64));
}

#[test]
fn no_sir_error_carries_the_symbol() {
    let e = InvalidTraceError::no_sir("some_symbol");
    match e {
        InvalidTraceError::NoSir(s) => assert_eq!(s, "some_symbol"),
        InvalidTraceError::InternalError => panic!(),
    }
}

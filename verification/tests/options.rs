use disassembler::format::{AssemblerOutput, Scope, ShowAddress, SymbolInfo};

use std::collections::HashMap;

/// The default options: addresses shown from zero, upper case, no cycles,
/// no symbol table, no stop address.
#[test]
fn test_default_options() {
    let options = AssemblerOutput::default();
    assert!(matches!(options.address(), ShowAddress::Start(0)));
    assert_eq!(options.stop_at(), None);
    assert!(options.upper_case());
    assert!(!options.cycles());
    assert!(options.symbol_table().is_none());
    assert!(matches!(ShowAddress::default(), ShowAddress::Start(0)));
}

/// Each builder sets its own field and leaves the rest alone.
#[test]
fn test_builders_and_getters() {
    let table = HashMap::from([(SymbolInfo::new(16, Scope::Local), "entry".to_string())]);
    let options = AssemblerOutput::default()
        .with_addresses(ShowAddress::Omit)
        .with_stop(42)
        .with_upper_case(false)
        .with_cycles(true)
        .with_symbol_table(table);

    assert!(matches!(options.address(), ShowAddress::Omit));
    assert_eq!(options.stop_at(), Some(42));
    assert!(!options.upper_case());
    assert!(options.cycles());
    let table = options.symbol_table().unwrap();
    assert_eq!(
        table.get(&SymbolInfo::new(16, Scope::Local)),
        Some(&"entry".to_string())
    );

    let options = options.with_addresses(ShowAddress::Start(7));
    assert!(matches!(options.address(), ShowAddress::Start(7)));
    assert_eq!(options.stop_at(), Some(42));
}

/// Symbol equality and ordering are structural.
#[test]
fn test_symbol_info() {
    assert_eq!(
        SymbolInfo::new(5, Scope::Global),
        SymbolInfo::new(5, Scope::Global)
    );
    assert_ne!(
        SymbolInfo::new(5, Scope::Global),
        SymbolInfo::new(5, Scope::Local)
    );
    assert_ne!(
        SymbolInfo::new(5, Scope::Global),
        SymbolInfo::new(6, Scope::Global)
    );
    assert!(SymbolInfo::new(5, Scope::Local) < SymbolInfo::new(6, Scope::Local));
}

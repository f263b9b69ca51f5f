use microchassis::error::SymbolParseError;
use microchassis::symbol_table::{LoadMapping, SymbolTable};

fn table_of_three() -> SymbolTable {
    SymbolTable::from_entries(vec![
        (123, "Abc".to_string()),
        (456, "Def".to_string()),
        (789, "Xyz".to_string()),
    ])
}

#[test]
fn test_symtab_lookup_symbol() {
    let symtab = table_of_three();

    assert_eq!(None, symtab.lookup_symbol(100));
    assert_eq!(Some(&(123, "Abc".to_string())), symtab.lookup_symbol(123));
    assert_eq!(Some(&(123, "Abc".to_string())), symtab.lookup_symbol(200));
    assert_eq!(Some(&(123, "Abc".to_string())), symtab.lookup_symbol(455));
    assert_eq!(Some(&(456, "Def".to_string())), symtab.lookup_symbol(456));
    assert_eq!(Some(&(789, "Xyz".to_string())), symtab.lookup_symbol(800));
}

#[test]
fn empty_table_finds_nothing() {
    let symtab = SymbolTable::new();
    assert!(symtab.is_empty());
    assert_eq!(0, symtab.len());
    assert_eq!(None, symtab.lookup_symbol(0));
    assert_eq!(None, symtab.lookup_symbol(u64::MAX));
}

#[test]
fn from_entries_sorts_by_address_then_name() {
    let symtab = SymbolTable::from_entries(vec![
        (30, "c".to_string()),
        (10, "b".to_string()),
        (20, "x".to_string()),
        (10, "a".to_string()),
    ]);
    assert_eq!(4, symtab.len());
    assert_eq!(Some(&(10, "a".to_string())), symtab.get(0));
    assert_eq!(Some(&(10, "b".to_string())), symtab.get(1));
    assert_eq!(Some(&(20, "x".to_string())), symtab.get(2));
    assert_eq!(Some(&(30, "c".to_string())), symtab.get(3));
    assert_eq!(None, symtab.get(4));
}

#[test]
fn duplicate_address_finds_the_last_in_table_order() {
    let symtab = SymbolTable::from_entries(vec![
        (10, "second".to_string()),
        (10, "first".to_string()),
        (5, "low".to_string()),
    ]);
    assert_eq!(Some(&(10, "second".to_string())), symtab.lookup_symbol(10));
    assert_eq!(Some(&(10, "second".to_string())), symtab.lookup_symbol(11));
    assert_eq!(Some(&(5, "low".to_string())), symtab.lookup_symbol(9));
}

#[test]
fn load_mapping_translates_addresses_in_range() {
    let mut symtab = SymbolTable::from_entries(vec![
        (0x500, "start".to_string()),
        (0x540, "inner".to_string()),
        (0x600, "after".to_string()),
        (0x1040, "runtime".to_string()),
    ]);
    let mapping = LoadMapping { runtime_start: 0x1000, runtime_end: 0x2000, file_offset: 0x500 };
    assert!(symtab.set_load_mapping(mapping));

    // 0x1050 - 0x1000 + 0x500 = 0x550
    assert_eq!(0x550, symtab.translate(0x1050));
    assert_eq!(Some(&(0x540, "inner".to_string())), symtab.lookup_symbol(0x1050));
    // the first address of the range
    assert_eq!(0x500, symtab.translate(0x1000));
    assert_eq!(Some(&(0x500, "start".to_string())), symtab.lookup_symbol(0x1000));
    // the range is half open: its end is searched as it comes
    assert_eq!(0x2000, symtab.translate(0x2000));
    assert_eq!(Some(&(0x1040, "runtime".to_string())), symtab.lookup_symbol(0x2000));
    // below the range
    assert_eq!(0x600, symtab.translate(0x600));
    assert_eq!(Some(&(0x600, "after".to_string())), symtab.lookup_symbol(0x600));
    assert_eq!(None, symtab.lookup_symbol(0x4ff));

    symtab.clear_load_mapping();
    assert_eq!(0x1050, symtab.translate(0x1050));
    assert_eq!(Some(&(0x1040, "runtime".to_string())), symtab.lookup_symbol(0x1050));
}

#[test]
fn unusable_load_mapping_is_refused() {
    let mut symtab = table_of_three();
    let inverted = LoadMapping { runtime_start: 0x2000, runtime_end: 0x1000, file_offset: 0 };
    assert!(!inverted.is_valid());
    assert!(!symtab.set_load_mapping(inverted));
    let overflowing =
        LoadMapping { runtime_start: 0, runtime_end: 0x10, file_offset: u64::MAX - 0xe };
    assert!(!overflowing.is_valid());
    assert!(!symtab.set_load_mapping(overflowing));
    // the last address of the range is moved to the last address there is
    let widest = LoadMapping { runtime_start: 0, runtime_end: 0x10, file_offset: u64::MAX - 0xf };
    assert!(widest.is_valid());
    assert!(symtab.set_load_mapping(widest));
    assert_eq!(u64::MAX, symtab.translate(0xf));
    assert_eq!(u64::MAX - 0xf, symtab.translate(0));
    assert_eq!(0x10, symtab.translate(0x10));
    // an empty range moves nothing
    let empty = LoadMapping { runtime_start: 5, runtime_end: 5, file_offset: u64::MAX };
    assert!(empty.is_valid());
    assert!(symtab.set_load_mapping(empty));
    assert_eq!(5, symtab.translate(5));
    // the refused mappings left the table as it was
    assert_eq!(3, symtab.len());
}

#[test]
fn read_nm_keeps_text_symbols_and_sorts_them() {
    let listing = b"0000000000002000 T main\n\
                    0000000000001000 t helper\n\
                    0000000000003000 D some_data\n\
                    \x20                U printf\n\
                    0000000000001800 T two words\n\
                    \n\
                    short line\n";
    let mut symtab = SymbolTable::new();
    assert_eq!(Ok(()), symtab.read_nm(listing));
    assert_eq!(3, symtab.len());
    assert_eq!(Some(&(0x1000, "helper".to_string())), symtab.get(0));
    assert_eq!(Some(&(0x1800, "two words".to_string())), symtab.get(1));
    assert_eq!(Some(&(0x2000, "main".to_string())), symtab.get(2));
    assert_eq!(Some(&(0x1800, "two words".to_string())), symtab.lookup_symbol(0x1fff));
}

#[test]
fn read_nm_demangles_names() {
    let mut symtab = SymbolTable::new();
    assert_eq!(Ok(()), symtab.read_nm(b"10 T _ZN3foo3barE\n20 t plain_c_name\n"));
    assert_eq!(Some(&(0x10, "foo::bar".to_string())), symtab.get(0));
    assert_eq!(Some(&(0x20, "plain_c_name".to_string())), symtab.get(1));
}

#[test]
fn read_nm_ignores_line_order() {
    let forward = b"1000 T a\n2000 T b\n2000 T a2\n3000 t c\n";
    let backward = b"3000 t c\n2000 T a2\n2000 T b\n1000 T a\n";
    let mut first = SymbolTable::new();
    let mut second = SymbolTable::new();
    assert_eq!(Ok(()), first.read_nm(forward));
    assert_eq!(Ok(()), second.read_nm(backward));
    assert_eq!(4, first.len());
    assert_eq!(first.len(), second.len());
    for i in 0..first.len() {
        assert_eq!(first.get(i), second.get(i));
    }
    assert_eq!(Some(&(0x2000, "a2".to_string())), first.get(1));
    assert_eq!(Some(&(0x2000, "b".to_string())), first.get(2));
}

#[test]
fn read_nm_adds_to_what_the_table_holds() {
    let mut symtab = SymbolTable::from_entries(vec![(0x1500, "old".to_string())]);
    assert_eq!(Ok(()), symtab.read_nm(b"2000 T late\n1000 T early"));
    assert_eq!(3, symtab.len());
    assert_eq!(Some(&(0x1000, "early".to_string())), symtab.get(0));
    assert_eq!(Some(&(0x1500, "old".to_string())), symtab.get(1));
    assert_eq!(Some(&(0x2000, "late".to_string())), symtab.get(2));
}

#[test]
fn read_nm_fails_on_a_malformed_address() {
    let mut symtab = SymbolTable::from_entries(vec![(7, "kept".to_string())]);
    assert_eq!(
        Err(SymbolParseError::MalformedAddress),
        symtab.read_nm(b"1000 T fine\nxyz T broken\n")
    );
    // more than 64 bits
    assert_eq!(
        Err(SymbolParseError::MalformedAddress),
        symtab.read_nm(b"10000000000000000 T wide\n")
    );
    // a malformed address fails even where the type would be passed over
    assert_eq!(Err(SymbolParseError::MalformedAddress), symtab.read_nm(b"0x10 D data\n"));
    assert_eq!(1, symtab.len());
    assert_eq!(Some(&(7, "kept".to_string())), symtab.get(0));
    // the widest address
    assert_eq!(Ok(()), symtab.read_nm(b"ffffffffffffffff T top\n"));
    assert_eq!(Some(&(u64::MAX, "top".to_string())), symtab.get(1));
}

//! The address-sorted directory of function symbols, and the lookup of the
//! symbol that encloses an address.

use crate::error::SymbolParseError;
use crate::maps::{find_load_mapping, first_code_mapping};
use crate::nm::{
    lemma_symbols_are_named, name_symbols, nm_line, nm_lines, nm_malformed, nm_symbol, nm_symbols,
    parse_nm,
};
use crate::text::split;
use vstd::multiset::*;
use vstd::prelude::*;
use vstd::relations::*;
use vstd::seq_lib::*;
use vstd::utf8::*;

verus! {

/// Where the code segment of the executable sits in the running process:
/// the runtime range `[runtime_start, runtime_end)` holds what the file has
/// from `file_offset` on.
#[derive(Clone, Copy, Debug, PartialEq, Eq, Structural)]
pub struct LoadMapping {
    pub runtime_start: u64,
    pub runtime_end: u64,
    pub file_offset: u64,
}

impl LoadMapping {
    /// A mapping is usable when its range is not inverted and every address
    /// of the range has an address in the file, that is, when moving the
    /// last address of the range stays within 64 bits.
    pub open spec fn valid(self) -> bool {
        self.runtime_start <= self.runtime_end && (self.runtime_start == self.runtime_end || (
        self.runtime_end - self.runtime_start - 1) + self.file_offset <= u64::MAX)
    }

    /// Whether `addr` lies in the runtime range.
    pub open spec fn covers(self, addr: u64) -> bool {
        self.runtime_start <= addr < self.runtime_end
    }

    /// Tells whether the mapping is usable.
    pub fn is_valid(&self) -> (r: bool)
        ensures
            r == self.valid(),
    {
        self.runtime_start <= self.runtime_end && (self.runtime_start == self.runtime_end
            || self.runtime_end - self.runtime_start - 1 <= u64::MAX - self.file_offset)
    }
}

/// The address that is searched for when `addr` is looked up: an address in
/// the runtime range is moved to where the file has it, any other is left
/// as it is.
pub open spec fn translated(mapping: Option<LoadMapping>, addr: u64) -> u64 {
    match mapping {
        Some(m) => if m.valid() && m.covers(addr) {
            (addr - m.runtime_start + m.file_offset) as u64
        } else {
            addr
        },
        None => addr,
    }
}

/// Address translation: with a usable load mapping, an address of the
/// runtime range is searched at its distance from the start of the range
/// added to the file offset, exactly, and any other address is searched as
/// it comes; so is every address where there is no load mapping.
pub proof fn lemma_translation(mapping: LoadMapping, addr: u64)
    requires
        mapping.valid(),
    ensures
        mapping.covers(addr) ==> translated(Some(mapping), addr) == addr - mapping.runtime_start
            + mapping.file_offset,
        !mapping.covers(addr) ==> translated(Some(mapping), addr) == addr,
        translated(None, addr) == addr,
{
}

/// Lexicographic order on byte strings; a proper prefix comes first.
pub open spec fn bytes_leq(a: Seq<u8>, b: Seq<u8>) -> bool
    decreases a.len(),
{
    if a.len() == 0 {
        true
    } else if b.len() == 0 {
        false
    } else if a[0] != b[0] {
        a[0] < b[0]
    } else {
        bytes_leq(a.drop_first(), b.drop_first())
    }
}

/// The order of the table: by address, and among equal addresses by the
/// bytes of the name.
pub open spec fn entry_leq(a: (u64, Seq<char>), b: (u64, Seq<char>)) -> bool {
    a.0 < b.0 || (a.0 == b.0 && bytes_leq(encode_utf8(a.1), encode_utf8(b.1)))
}

/// `entry_leq` as a relation.
pub open spec fn entry_order() -> spec_fn((u64, Seq<char>), (u64, Seq<char>)) -> bool {
    |a: (u64, Seq<char>), b: (u64, Seq<char>)| entry_leq(a, b)
}

/// Whether addresses never go down along `s`.
pub open spec fn sorted_by_address(s: Seq<(u64, Seq<char>)>) -> bool {
    forall|i: int, j: int| 0 <= i < j < s.len() ==> (#[trigger] s[i]).0 <= (#[trigger] s[j]).0
}

/// The last entry of `s` whose address does not exceed `addr`.
pub open spec fn floor_entry(s: Seq<(u64, Seq<char>)>, addr: u64) -> Option<(u64, Seq<char>)>
    decreases s.len(),
{
    if s.len() == 0 {
        None
    } else if s.last().0 <= addr {
        Some(s.last())
    } else {
        floor_entry(s.drop_last(), addr)
    }
}

/// The view of an entry: the address and the characters of the
/// name.
pub open spec fn entry_view(e: (u64, String)) -> (u64, Seq<char>) {
    (e.0, e.1@)
}

/// The view of what a lookup found.
pub open spec fn found_view(found: Option<&(u64, String)>) -> Option<(u64, Seq<char>)> {
    match found {
        Some(e) => Some(entry_view(*e)),
        None => None,
    }
}

/// The view of a list of entries.
pub open spec fn entries_view(s: Seq<(u64, String)>) -> Seq<(u64, Seq<char>)> {
    s.map_values(|e: (u64, String)| entry_view(e))
}

/// A byte string comes no later than itself.
pub proof fn lemma_bytes_leq_reflexive(a: Seq<u8>)
    ensures
        bytes_leq(a, a),
    decreases a.len(),
{
    if a.len() > 0 {
        lemma_bytes_leq_reflexive(a.drop_first());
    }
}

/// Of two byte strings one comes no later than the other.
pub proof fn lemma_bytes_leq_total(a: Seq<u8>, b: Seq<u8>)
    ensures
        bytes_leq(a, b) || bytes_leq(b, a),
    decreases a.len(),
{
    if a.len() > 0 && b.len() > 0 && a[0] == b[0] {
        lemma_bytes_leq_total(a.drop_first(), b.drop_first());
    }
}

/// Two byte strings that come no later than each other are the same.
pub proof fn lemma_bytes_leq_antisymmetric(a: Seq<u8>, b: Seq<u8>)
    requires
        bytes_leq(a, b),
        bytes_leq(b, a),
    ensures
        a == b,
    decreases a.len(),
{
    if a.len() == 0 {
        assert(a =~= b);
    } else {
        lemma_bytes_leq_antisymmetric(a.drop_first(), b.drop_first());
        assert(a =~= seq![a[0]] + a.drop_first());
        assert(b =~= seq![b[0]] + b.drop_first());
    }
}

/// The order of byte strings is transitive.
pub proof fn lemma_bytes_leq_transitive(a: Seq<u8>, b: Seq<u8>, c: Seq<u8>)
    requires
        bytes_leq(a, b),
        bytes_leq(b, c),
    ensures
        bytes_leq(a, c),
    decreases a.len(),
{
    if a.len() > 0 && a[0] == b[0] && b[0] == c[0] {
        lemma_bytes_leq_transitive(a.drop_first(), b.drop_first(), c.drop_first());
    }
}

/// The order of the table is a total order: two entries that come before
/// each other are the same entry.
pub proof fn lemma_entry_order_total()
    ensures
        total_ordering(entry_order()),
{
    let leq = entry_order();
    assert forall|x: (u64, Seq<char>)| #[trigger] leq(x, x) by {
        lemma_bytes_leq_reflexive(encode_utf8(x.1));
    }
    assert forall|x: (u64, Seq<char>), y: (u64, Seq<char>)| #[trigger]
        leq(x, y) && #[trigger] leq(y, x) implies x == y by {
        lemma_bytes_leq_antisymmetric(encode_utf8(x.1), encode_utf8(y.1));
        encode_utf8_decode_utf8(x.1);
        encode_utf8_decode_utf8(y.1);
    }
    assert forall|x: (u64, Seq<char>), y: (u64, Seq<char>), z: (u64, Seq<char>)| #[trigger]
        leq(x, y) && #[trigger] leq(y, z) implies leq(x, z) by {
        if x.0 == y.0 && y.0 == z.0 {
            lemma_bytes_leq_transitive(encode_utf8(x.1), encode_utf8(y.1), encode_utf8(z.1));
        }
    }
    assert forall|x: (u64, Seq<char>), y: (u64, Seq<char>)| #[trigger]
        leq(x, y) || #[trigger] leq(y, x) by {
        lemma_bytes_leq_total(encode_utf8(x.1), encode_utf8(y.1));
    }
}

/// A list in table order has its addresses in order.
pub proof fn lemma_sorted_entries_sorted_addresses(s: Seq<(u64, Seq<char>)>)
    requires
        sorted_by(s, entry_order()),
    ensures
        sorted_by_address(s),
{
    assert forall|i: int, j: int| 0 <= i < j < s.len() implies (#[trigger] s[i]).0 <= (
    #[trigger] s[j]).0 by {
        assert(entry_order()(s[i], s[j]));
    }
}

/// Where the search ends: the entry at `i` is the floor of `addr` when it
/// does not exceed `addr` and everything behind it does.
pub proof fn lemma_floor_entry_at(s: Seq<(u64, Seq<char>)>, addr: u64, i: int)
    requires
        0 <= i < s.len(),
        s[i].0 <= addr,
        forall|j: int| i < j < s.len() ==> (#[trigger] s[j]).0 > addr,
    ensures
        floor_entry(s, addr) == Some(s[i]),
    decreases s.len(),
{
    if i < s.len() - 1 {
        assert(s.last() == s[s.len() - 1]);
        assert(s.drop_last()[i] == s[i]);
        assert forall|j: int| i < j < s.drop_last().len() implies (#[trigger] s.drop_last()[j]).0
            > addr by {
            assert(s.drop_last()[j] == s[j]);
        }
        lemma_floor_entry_at(s.drop_last(), addr, i);
    }
}

/// No entry is the floor of an address that every entry exceeds.
pub proof fn lemma_floor_entry_none(s: Seq<(u64, Seq<char>)>, addr: u64)
    requires
        forall|j: int| 0 <= j < s.len() ==> (#[trigger] s[j]).0 > addr,
    ensures
        floor_entry(s, addr) is None,
    decreases s.len(),
{
    if s.len() > 0 {
        assert(s.last() == s[s.len() - 1]);
        assert forall|j: int| 0 <= j < s.drop_last().len() implies (#[trigger] s.drop_last()[j]).0
            > addr by {
            assert(s.drop_last()[j] == s[j]);
        }
        lemma_floor_entry_none(s.drop_last(), addr);
    }
}

/// What `floor_entry` finds is an entry of the list that does not exceed
/// the address, and everything behind it does exceed it.
pub proof fn lemma_floor_entry_found(s: Seq<(u64, Seq<char>)>, addr: u64) -> (i: int)
    requires
        floor_entry(s, addr) is Some,
    ensures
        0 <= i < s.len(),
        floor_entry(s, addr) == Some(s[i]),
        s[i].0 <= addr,
        forall|j: int| i < j < s.len() ==> (#[trigger] s[j]).0 > addr,
    decreases s.len(),
{
    if s.last().0 <= addr {
        s.len() - 1
    } else {
        let i = lemma_floor_entry_found(s.drop_last(), addr);
        assert(s.drop_last()[i] == s[i]);
        assert forall|j: int| i < j < s.len() implies (#[trigger] s[j]).0 > addr by {
            if j < s.len() - 1 {
                assert(s.drop_last()[j] == s[j]);
            }
        }
        i
    }
}

/// Looking an address up in a sorted list: nothing is found below the first
/// address; an address of the list finds an entry with that very address;
/// any other address finds the entry with the greatest address below it.
pub proof fn lemma_lookup_in_sorted(s: Seq<(u64, Seq<char>)>, addr: u64)
    requires
        sorted_by_address(s),
    ensures
        (s.len() == 0 || addr < s[0].0) <==> floor_entry(s, addr) is None,
        (exists|i: int| 0 <= i < s.len() && (#[trigger] s[i]).0 == addr) ==> (floor_entry(
            s,
            addr,
        ) matches Some(e) && e.0 == addr),
        floor_entry(s, addr) matches Some(e) ==> s.contains(e) && e.0 <= addr && forall|j: int|
            0 <= j < s.len() && (#[trigger] s[j]).0 <= addr ==> s[j].0 <= e.0,
{
    if s.len() == 0 || addr < s[0].0 {
        assert forall|j: int| 0 <= j < s.len() implies (#[trigger] s[j]).0 > addr by {
            if j > 0 {
                assert(s[0].0 <= s[j].0);
            }
        }
        lemma_floor_entry_none(s, addr);
    } else {
        if floor_entry(s, addr) is None {
            lemma_floor_entry_none_means_all_above(s, addr);
            assert(s[0].0 > addr);
        }
    }
    if floor_entry(s, addr) is Some {
        let i = lemma_floor_entry_found(s, addr);
        let e = s[i];
        assert(s.contains(e));
        assert forall|j: int| 0 <= j < s.len() && (#[trigger] s[j]).0 <= addr implies s[j].0
            <= e.0 by {
            if j < i {
                assert(s[j].0 <= s[i].0);
            }
        }
        if exists|k: int| 0 <= k < s.len() && (#[trigger] s[k]).0 == addr {
            let k = choose|k: int| 0 <= k < s.len() && (#[trigger] s[k]).0 == addr;
            assert(s[k].0 <= e.0);
        }
    } else {
        lemma_floor_entry_none_means_all_above(s, addr);
    }
}

/// When no entry is the floor of `addr`, every entry exceeds `addr`.
pub proof fn lemma_floor_entry_none_means_all_above(s: Seq<(u64, Seq<char>)>, addr: u64)
    requires
        floor_entry(s, addr) is None,
    ensures
        forall|j: int| 0 <= j < s.len() ==> (#[trigger] s[j]).0 > addr,
    decreases s.len(),
{
    if s.len() > 0 {
        lemma_floor_entry_none_means_all_above(s.drop_last(), addr);
        assert forall|j: int| 0 <= j < s.len() implies (#[trigger] s[j]).0 > addr by {
            if j < s.len() - 1 {
                assert(s.drop_last()[j] == s[j]);
            }
        }
    }
}

/// A list in table order is the sorted form of any list with the same
/// entries.
pub proof fn lemma_sorted_is_sort(sorted: Seq<(u64, Seq<char>)>, source: Seq<(u64, Seq<char>)>)
    requires
        sorted_by(sorted, entry_order()),
        sorted.to_multiset() == source.to_multiset(),
    ensures
        sorted == source.sort_by(entry_order()),
{
    lemma_entry_order_total();
    source.lemma_sort_by_ensures(entry_order());
    lemma_sorted_unique(sorted, source.sort_by(entry_order()), entry_order());
}

/// Sorts with `slice::sort`. The standard library orders pairs by their
/// first part and then by their second, and strings by their bytes, which
/// is the table order. What is claimed and not proved: what comes out is in
/// table order and holds the entries that went in, each as often as before.
#[verifier::external_body]
fn sort_entries(entries: &mut Vec<(u64, String)>)
    ensures
        sorted_by(entries_view(final(entries)@), entry_order()),
        entries_view(final(entries)@).to_multiset() == entries_view(old(entries)@).to_multiset(),
{
    entries.sort();
}

/// Copies a list of entries.
fn clone_entries(entries: &Vec<(u64, String)>) -> (r: Vec<(u64, String)>)
    ensures
        entries_view(r@) == entries_view(entries@),
{
    let mut out: Vec<(u64, String)> = Vec::new();
    let mut i: usize = 0;
    while i < entries.len()
        invariant
            i <= entries.len(),
            out.len() == i,
            forall|j: int| 0 <= j < i ==> entry_view(#[trigger] out@[j]) == entry_view(entries@[j]),
        decreases entries.len() - i,
    {
        out.push((entries[i].0, entries[i].1.clone()));
        i += 1;
    }
    assert(entries_view(out@) =~= entries_view(entries@));
    out
}

/// The symbols of the running executable, in table order, with the load
/// mapping that corrects looked-up addresses where one is known.
#[derive(Debug)]
pub struct SymbolTable {
    sym: Vec<(u64, String)>,
    mapping: Option<LoadMapping>,
}

impl SymbolTable {
    #[verifier::type_invariant]
    spec fn well_formed(self) -> bool {
        &&& sorted_by(entries_view(self.sym@), entry_order())
        &&& (self.mapping matches Some(m) ==> m.valid())
    }

    /// The entries of the table, first to last.
    pub closed spec fn view(&self) -> Seq<(u64, Seq<char>)> {
        entries_view(self.sym@)
    }

    /// The load mapping of the table, if it has one.
    pub closed spec fn load_mapping(&self) -> Option<LoadMapping> {
        self.mapping
    }

    /// A table without entries and without a load mapping: every lookup in
    /// it finds nothing.
    pub fn new() -> (r: SymbolTable)
        ensures
            r@ == Seq::<(u64, Seq<char>)>::empty(),
            r.load_mapping() is None,
    {
        let sym: Vec<(u64, String)> = Vec::new();
        assert(entries_view(sym@) =~= Seq::<(u64, Seq<char>)>::empty());
        SymbolTable { sym, mapping: None }
    }

    /// A table of the given entries, put in table order, without a load
    /// mapping.
    pub fn from_entries(entries: Vec<(u64, String)>) -> (r: SymbolTable)
        ensures
            r@ == entries_view(entries@).sort_by(entry_order()),
            sorted_by(r@, entry_order()),
            r@.to_multiset() == entries_view(entries@).to_multiset(),
            r.load_mapping() is None,
    {
        let mut sym = entries;
        sort_entries(&mut sym);
        proof {
            lemma_sorted_is_sort(entries_view(sym@), entries_view(entries@));
        }
        SymbolTable { sym, mapping: None }
    }

    /// Builds the table of an executable from the listing of its symbols
    /// and, where the host could read it, from the memory-mapping table of
    /// the process. A listing with a malformed address gives no table. The
    /// load mapping is the one that the memory-mapping table has for the
    /// executable of path `exe_path`; without such a mapping, addresses are
    /// looked up as they come.
    pub fn build(listing: &[u8], maps: Option<&[u8]>, exe_path: &[u8]) -> (r: Result<
        SymbolTable,
        SymbolParseError,
    >)
        ensures
            r is Err <==> nm_malformed(nm_lines(listing@)),
            match r {
                Ok(table) => table@ == nm_symbols(nm_lines(listing@)).sort_by(entry_order())
                    && sorted_by(table@, entry_order()) && table.load_mapping() == match maps {
                    Some(m) => first_code_mapping(split(m@, 0x0a), exe_path@),
                    None => None,
                },
                Err(_) => true,
            },
    {
        let mut table = SymbolTable::new();
        match table.read_nm(listing) {
            Err(e) => {
                return Err(e);
            },
            Ok(()) => {},
        }
        assert(Seq::<(u64, Seq<char>)>::empty() + nm_symbols(nm_lines(listing@)) =~= nm_symbols(
            nm_lines(listing@),
        ));
        match maps {
            Some(m) => {
                match find_load_mapping(m, exe_path) {
                    Some(mapping) => {
                        table.set_load_mapping(mapping);
                    },
                    None => {},
                }
            },
            None => {},
        }
        Ok(table)
    }

    /// Builds the table as `build` does, and falls back to the empty table,
    /// in which nothing is ever found, where there is no listing or the
    /// listing is malformed: profiling is a diagnostic aid, and its failure
    /// is no reason to stop the service.
    pub fn build_or_empty(listing: Option<&[u8]>, maps: Option<&[u8]>, exe_path: &[u8]) -> (r:
        SymbolTable)
        ensures
            match listing {
                Some(l) if !nm_malformed(nm_lines(l@)) => r@ == nm_symbols(nm_lines(l@)).sort_by(
                    entry_order(),
                ) && r.load_mapping() == match maps {
                    Some(m) => first_code_mapping(split(m@, 0x0a), exe_path@),
                    None => None,
                },
                _ => r@ == Seq::<(u64, Seq<char>)>::empty() && r.load_mapping() is None,
            },
    {
        match listing {
            Some(l) => match SymbolTable::build(l, maps, exe_path) {
                Ok(table) => table,
                Err(_) => SymbolTable::new(),
            },
            None => SymbolTable::new(),
        }
    }

    /// Adds entries to the table and puts the table in order again.
    pub fn add_entries(&mut self, entries: Vec<(u64, String)>)
        ensures
            final(self)@ == (old(self)@ + entries_view(entries@)).sort_by(entry_order()),
            final(self)@.to_multiset() == (old(self)@ + entries_view(entries@)).to_multiset(),
            sorted_by(final(self)@, entry_order()),
            final(self).load_mapping() == old(self).load_mapping(),
    {
        proof {
            use_type_invariant(&*self);
        }
        let mut merged = clone_entries(&self.sym);
        let mut added = entries;
        merged.append(&mut added);
        assert(entries_view(merged@) =~= old(self)@ + entries_view(entries@));
        let ghost unsorted = entries_view(merged@);
        sort_entries(&mut merged);
        proof {
            lemma_sorted_is_sort(entries_view(merged@), unsorted);
        }
        self.sym = merged;
    }

    /// Adds the symbols of a listing to the table, each under its readable
    /// name, and puts the table in order again. A line with a malformed
    /// address fails the whole listing, and the table stays as it was.
    #[inline]
    pub fn read_nm(&mut self, output: &[u8]) -> (r: Result<(), SymbolParseError>)
        ensures
            r is Err <==> nm_malformed(nm_lines(output@)),
            r is Err ==> final(self)@ == old(self)@,
            r is Ok ==> final(self)@ == (old(self)@ + nm_symbols(nm_lines(output@))).sort_by(
                entry_order(),
            ),
            r is Ok ==> final(self)@.to_multiset() == (old(self)@ + nm_symbols(
                nm_lines(output@),
            )).to_multiset(),
            sorted_by(final(self)@, entry_order()),
            final(self).load_mapping() == old(self).load_mapping(),
    {
        proof {
            use_type_invariant(&*self);
        }
        let symbols = match parse_nm(output) {
            Ok(symbols) => symbols,
            Err(e) => {
                return Err(e);
            },
        };
        let entries = name_symbols(&symbols);
        proof {
            lemma_symbols_are_named(nm_lines(output@));
        }
        self.add_entries(entries);
        Ok(())
    }

    /// The number of entries.
    #[must_use]
    #[inline]
    pub fn len(&self) -> (r: usize)
        ensures
            r == self@.len(),
    {
        self.sym.len()
    }

    /// Whether the table has no entry.
    #[must_use]
    #[inline]
    pub fn is_empty(&self) -> (r: bool)
        ensures
            r == (self@.len() == 0),
    {
        self.sym.len() == 0
    }

    /// The entry at position `index`, if there is one.
    pub fn get(&self, index: usize) -> (r: Option<&(u64, String)>)
        ensures
            match r {
                Some(e) => index < self@.len() && entry_view(*e) == self@[index as int],
                None => index >= self@.len(),
            },
    {
        if index < self.sym.len() {
            Some(&self.sym[index])
        } else {
            None
        }
    }

    /// Sets the load mapping, unless it is unusable: then the table keeps
    /// what it had and `false` comes back.
    pub fn set_load_mapping(&mut self, mapping: LoadMapping) -> (accepted: bool)
        ensures
            accepted == mapping.valid(),
            final(self)@ == old(self)@,
            final(self).load_mapping() == if accepted {
                Some(mapping)
            } else {
                old(self).load_mapping()
            },
    {
        proof {
            use_type_invariant(&*self);
        }
        if mapping.is_valid() {
            self.mapping = Some(mapping);
            true
        } else {
            false
        }
    }

    /// Forgets the load mapping: addresses are then searched as they come.
    pub fn clear_load_mapping(&mut self)
        ensures
            final(self)@ == old(self)@,
            final(self).load_mapping() is None,
    {
        proof {
            use_type_invariant(&*self);
        }
        self.mapping = None;
    }

    /// The address that a lookup of `addr` searches for.
    pub fn translate(&self, addr: u64) -> (r: u64)
        ensures
            r == translated(self.load_mapping(), addr),
    {
        proof {
            use_type_invariant(self);
        }
        match self.mapping {
            Some(m) => {
                if m.runtime_start <= addr && addr < m.runtime_end {
                    addr - m.runtime_start + m.file_offset
                } else {
                    addr
                }
            },
            None => addr,
        }
    }

    /// Finds the symbol that encloses `addr`: the last entry whose address
    /// does not exceed the translated address. Nothing is found when the
    /// table is empty or the address lies before the first entry; an
    /// address of the table finds an entry with that very address; any
    /// other address finds the entry with the greatest address below it.
    #[must_use]
    #[inline]
    pub fn lookup_symbol(&self, addr: u64) -> (r: Option<&(u64, String)>)
        ensures
            found_view(r) == floor_entry(self@, translated(self.load_mapping(), addr)),
            sorted_by_address(self@),
            r is None <==> (self@.len() == 0 || translated(self.load_mapping(), addr)
                < self@[0].0),
            r matches Some(e) ==> self@.contains(entry_view(*e)) && e.0 <= translated(
                self.load_mapping(),
                addr,
            ) && forall|j: int|
                0 <= j < self@.len() && (#[trigger] self@[j]).0 <= translated(
                    self.load_mapping(),
                    addr,
                ) ==> self@[j].0 <= e.0,
    {
        let target = self.translate(addr);
        proof {
            use_type_invariant(self);
            lemma_sorted_entries_sorted_addresses(self@);
        }
        let mut lo: usize = 0;
        let mut hi: usize = self.sym.len();
        while lo < hi
            invariant
                lo <= hi <= self.sym.len(),
                self@ == entries_view(self.sym@),
                sorted_by_address(self@),
                forall|j: int| 0 <= j < lo ==> (#[trigger] self@[j]).0 <= target,
                forall|j: int| hi <= j < self@.len() ==> (#[trigger] self@[j]).0 > target,
            decreases hi - lo,
        {
            let mid: usize = lo + (hi - lo) / 2;
            assert(self@[mid as int].0 == self.sym@[mid as int].0);
            if self.sym[mid].0 <= target {
                assert forall|j: int| 0 <= j < mid + 1 implies (#[trigger] self@[j]).0
                    <= target by {
                    if j < mid {
                        assert(self@[j].0 <= self@[mid as int].0);
                    }
                }
                lo = mid + 1;
            } else {
                assert forall|j: int| mid <= j < self@.len() implies (#[trigger] self@[j]).0
                    > target by {
                    if j > mid {
                        assert(self@[mid as int].0 <= self@[j].0);
                    }
                }
                hi = mid;
            }
        }
        proof {
            lemma_lookup_in_sorted(self@, target);
        }
        if lo == 0 {
            proof {
                lemma_floor_entry_none(self@, target);
            }
            None
        } else {
            proof {
                lemma_floor_entry_at(self@, target, lo - 1);
            }
            Some(&self.sym[lo - 1])
        }
    }
}

impl Default for SymbolTable {
    /// The empty table.
    fn default() -> (r: SymbolTable)
        ensures
            r@ == Seq::<(u64, Seq<char>)>::empty(),
            r.load_mapping() is None,
    {
        SymbolTable::new()
    }
}

/// Adds to `acc` the entry that `line` gives, if it gives one.
pub open spec fn add_symbol(line: Seq<u8>, acc: Multiset<(u64, Seq<char>)>) -> Multiset<
    (u64, Seq<char>),
> {
    match nm_symbol(line) {
        Some(entry) => acc.insert(entry),
        None => acc,
    }
}

/// Gathering the entries line by line gives the entries of the lines, in
/// whatever order the lines are taken.
proof fn lemma_symbols_fold(lines: Seq<Seq<u8>>, acc: Multiset<(u64, Seq<char>)>)
    ensures
        lines.fold_right(|l: Seq<u8>, m: Multiset<(u64, Seq<char>)>| add_symbol(l, m), acc)
            == acc.add(nm_symbols(lines).to_multiset()),
    decreases lines.len(),
{
    broadcast use group_multiset_axioms;
    broadcast use group_to_multiset_ensures;

    let f = |l: Seq<u8>, m: Multiset<(u64, Seq<char>)>| add_symbol(l, m);
    if lines.len() == 0 {
        assert(nm_symbols(lines) =~= Seq::<(u64, Seq<char>)>::empty());
        assert(acc.add(nm_symbols(lines).to_multiset()) =~= acc);
    } else {
        let rest = lines.drop_last();
        lemma_symbols_fold(rest, f(lines.last(), acc));
        match nm_symbol(lines.last()) {
            Some(entry) => {
                assert(nm_symbols(lines) =~= nm_symbols(rest).push(entry));
                assert(acc.insert(entry).add(nm_symbols(rest).to_multiset()) =~= acc.add(
                    nm_symbols(rest).push(entry).to_multiset(),
                ));
            },
            None => {
                assert(nm_symbols(lines) =~= nm_symbols(rest));
            },
        }
    }
}

/// The order of the lines of a listing does not matter: two listings with
/// the same lines, each as often in one as in the other, fail alike, and
/// added to the same table they give the same table.
pub proof fn lemma_line_order_is_irrelevant(
    table: Seq<(u64, Seq<char>)>,
    first: Seq<u8>,
    second: Seq<u8>,
)
    requires
        nm_lines(first).to_multiset() == nm_lines(second).to_multiset(),
    ensures
        nm_malformed(nm_lines(first)) == nm_malformed(nm_lines(second)),
        (table + nm_symbols(nm_lines(first))).sort_by(entry_order()) == (table + nm_symbols(
            nm_lines(second),
        )).sort_by(entry_order()),
{
    broadcast use group_multiset_axioms;
    broadcast use group_to_multiset_ensures;

    let a = nm_lines(first);
    let b = nm_lines(second);
    if nm_malformed(a) {
        let i = choose|i: int| 0 <= i < a.len() && nm_line(#[trigger] a[i]) is Malformed;
        assert(a.contains(a[i]));
        assert(b.to_multiset().count(a[i]) > 0);
        assert(b.contains(a[i]));
    }
    if nm_malformed(b) {
        let i = choose|i: int| 0 <= i < b.len() && nm_line(#[trigger] b[i]) is Malformed;
        assert(b.contains(b[i]));
        assert(a.to_multiset().count(b[i]) > 0);
        assert(a.contains(b[i]));
    }
    let f = |l: Seq<u8>, m: Multiset<(u64, Seq<char>)>| add_symbol(l, m);
    assert(commutative_foldr(f)) by {
        assert forall|x: Seq<u8>, y: Seq<u8>, v: Multiset<(u64, Seq<char>)>| #[trigger]
            f(x, f(y, v)) == f(y, f(x, v)) by {
            assert(f(x, f(y, v)) =~= f(y, f(x, v)));
        }
    }
    let none = Multiset::<(u64, Seq<char>)>::empty();
    lemma_fold_right_permutation(a, b, f, none);
    lemma_symbols_fold(a, none);
    lemma_symbols_fold(b, none);
    assert(nm_symbols(a).to_multiset() =~= none.add(nm_symbols(a).to_multiset()));
    assert(nm_symbols(b).to_multiset() =~= none.add(nm_symbols(b).to_multiset()));
    lemma_multiset_commutative(table, nm_symbols(a));
    lemma_multiset_commutative(table, nm_symbols(b));
    let left = (table + nm_symbols(a)).sort_by(entry_order());
    lemma_entry_order_total();
    (table + nm_symbols(a)).lemma_sort_by_ensures(entry_order());
    lemma_sorted_is_sort(left, table + nm_symbols(b));
}

} // verus!

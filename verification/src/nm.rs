//! Reading the output of the symbol lister: one symbol a line, as
//! `address type name`, the address in hexadecimal.

use crate::error::SymbolParseError;
use crate::fields::{fields, fields_from, find_field, join, join_fields, lemma_fields_from};
use crate::symbol_table::{entries_view, entry_view};
use crate::text::{find_byte, hex_u64, lemma_split_from, parse_hex_u64, split, split_from};
use std::fmt::Write;
use vstd::prelude::*;
use vstd::slice::*;
use vstd::string::*;

verus! {

/// The program that lists the symbols of an executable.
pub const LISTER: &'static str = "nm";

/// The argument that asks the lister to sort by address.
pub const LISTER_NUMERIC_SORT: &'static str = "--numeric-sort";

/// The argument that asks the lister for names as the executable has them.
pub const LISTER_NO_DEMANGLE: &'static str = "--no-demangle";

/// What a line of the symbol listing holds.
#[derive(Debug, Clone, PartialEq, Eq)]
pub enum NmLine {
    /// Nothing for the table: too few fields, an undefined symbol, or a
    /// symbol outside the text segment.
    Skipped,
    /// A symbol line whose address field is no hexadecimal number.
    Malformed,
    /// A symbol defined in the text segment, with its name as listed.
    Symbol(u64, Vec<u8>),
}

/// The view of an `NmLine`: the same line over mathematical values.
pub enum NmLineView {
    Skipped,
    Malformed,
    Symbol(u64, Seq<u8>),
}

impl View for NmLine {
    type V = NmLineView;

    open spec fn view(&self) -> NmLineView {
        match self {
            NmLine::Skipped => NmLineView::Skipped,
            NmLine::Malformed => NmLineView::Malformed,
            NmLine::Symbol(address, name) => NmLineView::Symbol(*address, name@),
        }
    }
}

/// Whether the type field marks a symbol defined in the text segment: `T`
/// for a global one, `t` for a local one.
pub open spec fn is_text_marker(field: Seq<u8>) -> bool {
    field == seq![0x54u8] || field == seq![0x74u8]
}

/// Whether the field is the marker of an undefined symbol, `U`.
pub open spec fn is_undefined_marker(field: Seq<u8>) -> bool {
    field == seq![0x55u8]
}

/// What the line `line` holds. A line of fewer than three fields, or one
/// that begins with the marker of an undefined symbol, is passed over. Any
/// other line must begin with an address; it gives a symbol when its
/// second field marks the text segment. The name is everything from the
/// third field on, its fields joined by single spaces.
pub open spec fn nm_line(line: Seq<u8>) -> NmLineView {
    let f = fields(line);
    if f.len() < 3 || is_undefined_marker(f[0]) {
        NmLineView::Skipped
    } else {
        match hex_u64(f[0]) {
            None => NmLineView::Malformed,
            Some(address) => if is_text_marker(f[1]) {
                NmLineView::Symbol(address, join(f.skip(2), 0x20))
            } else {
                NmLineView::Skipped
            },
        }
    }
}

/// Reads one line of the symbol listing.
pub fn parse_nm_line(line: &[u8]) -> (r: NmLine)
    ensures
        r@ == nm_line(line@),
{
    proof {
        lemma_fields_from(line@, 0);
    }
    let (start0, end0) = match find_field(line, 0) {
        Some(range) => range,
        None => {
            return NmLine::Skipped;
        },
    };
    proof {
        lemma_fields_from(line@, end0 as int);
    }
    let (start1, end1) = match find_field(line, end0) {
        Some(range) => range,
        None => {
            return NmLine::Skipped;
        },
    };
    proof {
        lemma_fields_from(line@, end1 as int);
    }
    if find_field(line, end1).is_none() {
        return NmLine::Skipped;
    }
    let first = slice_subrange(line, start0, end0);
    let second = slice_subrange(line, start1, end1);
    proof {
        let f = fields(line@);
        let tail = fields_from(line@, end1 as int);
        assert(f == seq![first@] + (seq![second@] + tail));
        assert(f.len() >= 3);
        assert(f[0] == first@);
        assert(f[1] == second@);
        assert(f.skip(2) =~= tail);
    }
    if first.len() == 1 && first[0] == 0x55 {
        assert(first@ =~= seq![0x55u8]);
        return NmLine::Skipped;
    }
    let address = match parse_hex_u64(first) {
        Some(address) => address,
        None => {
            return NmLine::Malformed;
        },
    };
    if second.len() == 1 && (second[0] == 0x54 || second[0] == 0x74) {
        assert(second@ =~= seq![second@[0]]);
        NmLine::Symbol(address, join_fields(line, end1))
    } else {
        NmLine::Skipped
    }
}

/// The readable form of the raw symbol name `raw`: what the `backtrace`
/// crate prints for a symbol of that name.
pub uninterp spec fn demangled_name(raw: Seq<u8>) -> Seq<char>;

/// Calls `backtrace::SymbolName::new` on the raw name and prints the result
/// with its `Display`, which writes a mangled Rust symbol in its readable
/// form and any other name that is UTF-8 as it stands. What is claimed is
/// only that the printed text is a function of the bytes; which text it
/// is, is not stated here and not proved.
#[verifier::external_body]
fn demangle(raw: &[u8]) -> (name: String)
    ensures
        name@ == demangled_name(raw@),
{
    let mut name = String::new();
    let _ = write!(name, "{}", backtrace::SymbolName::new(raw));
    name
}

/// The symbol that a line gives, if it gives one: the address, and the
/// name as listed.
pub open spec fn nm_raw_symbol(line: Seq<u8>) -> Option<(u64, Seq<u8>)> {
    match nm_line(line) {
        NmLineView::Symbol(address, raw) => Some((address, raw)),
        _ => None,
    }
}

/// The table entry of a symbol: the address, and the name in its readable
/// form.
pub open spec fn named(symbol: (u64, Seq<u8>)) -> (u64, Seq<char>) {
    (symbol.0, demangled_name(symbol.1))
}

/// The table entries of a list of symbols.
pub open spec fn named_all(symbols: Seq<(u64, Seq<u8>)>) -> Seq<(u64, Seq<char>)> {
    symbols.map_values(|symbol: (u64, Seq<u8>)| named(symbol))
}

/// The table entry that a line gives, if it gives one.
pub open spec fn nm_symbol(line: Seq<u8>) -> Option<(u64, Seq<char>)> {
    match nm_raw_symbol(line) {
        Some(symbol) => Some(named(symbol)),
        None => None,
    }
}

/// The lines of a listing.
pub open spec fn nm_lines(text: Seq<u8>) -> Seq<Seq<u8>> {
    split(text, 0x0a)
}

/// The symbols that the lines give, in the order of the lines.
pub open spec fn nm_raw_symbols(lines: Seq<Seq<u8>>) -> Seq<(u64, Seq<u8>)> {
    lines.filter_map(|line: Seq<u8>| nm_raw_symbol(line))
}

/// The table entries that the lines give, in the order of the lines.
pub open spec fn nm_symbols(lines: Seq<Seq<u8>>) -> Seq<(u64, Seq<char>)> {
    lines.filter_map(|line: Seq<u8>| nm_symbol(line))
}

/// Whether one of the lines has a malformed address.
pub open spec fn nm_malformed(lines: Seq<Seq<u8>>) -> bool {
    exists|i: int| 0 <= i < lines.len() && nm_line(#[trigger] lines[i]) is Malformed
}

/// The table entries of a listing are the entries of its symbols.
pub proof fn lemma_symbols_are_named(lines: Seq<Seq<u8>>)
    ensures
        nm_symbols(lines) == named_all(nm_raw_symbols(lines)),
    decreases lines.len(),
{
    if lines.len() == 0 {
        assert(nm_symbols(lines) =~= named_all(nm_raw_symbols(lines)));
    } else {
        lemma_symbols_are_named(lines.drop_last());
        assert(nm_symbols(lines) =~= named_all(nm_raw_symbols(lines)));
    }
}

/// The view of a symbol.
pub open spec fn raw_view(symbol: (u64, Vec<u8>)) -> (u64, Seq<u8>) {
    (symbol.0, symbol.1@)
}

/// The view of a list of symbols.
pub open spec fn raws_view(symbols: Seq<(u64, Vec<u8>)>) -> Seq<(u64, Seq<u8>)> {
    symbols.map_values(|symbol: (u64, Vec<u8>)| raw_view(symbol))
}

/// Reads a listing: the symbols of its lines, in the order of the lines. A
/// line with a malformed address fails the whole listing.
pub fn parse_nm(output: &[u8]) -> (r: Result<Vec<(u64, Vec<u8>)>, SymbolParseError>)
    ensures
        r is Err <==> nm_malformed(nm_lines(output@)),
        r matches Ok(symbols) ==> raws_view(symbols@) == nm_raw_symbols(nm_lines(output@)),
{
    let mut symbols: Vec<(u64, Vec<u8>)> = Vec::new();
    let ghost lines = nm_lines(output@);
    let ghost mut done: Seq<Seq<u8>> = Seq::empty();
    let mut pos: usize = 0;
    assert(raws_view(symbols@) =~= nm_raw_symbols(done));
    loop
        invariant_except_break
            pos <= output.len(),
            lines == done + split_from(output@, 0x0a, pos as int),
        invariant
            lines == nm_lines(output@),
            raws_view(symbols@) == nm_raw_symbols(done),
            forall|i: int| 0 <= i < done.len() ==> !(nm_line(#[trigger] done[i]) is Malformed),
        ensures
            lines == done,
        decreases output.len() - pos,
    {
        let end = find_byte(output, 0x0a, pos);
        let line = slice_subrange(output, pos, end);
        proof {
            lemma_split_from(output@, 0x0a, pos as int);
            assert(done.push(line@).drop_last() =~= done);
        }
        match parse_nm_line(line) {
            NmLine::Malformed => {
                proof {
                    assert(lines[done.len() as int] == line@);
                }
                return Err(SymbolParseError::MalformedAddress);
            },
            NmLine::Skipped => {},
            NmLine::Symbol(address, raw) => {
                let ghost before = symbols@;
                symbols.push((address, raw));
                proof {
                    assert(raws_view(symbols@) =~= raws_view(before).push((address, raw@)));
                }
            },
        }
        proof {
            assert(raws_view(symbols@) =~= nm_raw_symbols(done.push(line@)));
            if end < output.len() {
                assert(done.push(line@) + split_from(output@, 0x0a, end + 1) =~= done + (seq![
                    line@,
                ] + split_from(output@, 0x0a, end + 1)));
            } else {
                assert(done.push(line@) =~= done + seq![line@]);
            }
            done = done.push(line@);
        }
        if end >= output.len() {
            break ;
        }
        pos = end + 1;
    }
    Ok(symbols)
}

/// Gives each symbol its readable name.
pub fn name_symbols(symbols: &Vec<(u64, Vec<u8>)>) -> (r: Vec<(u64, String)>)
    ensures
        entries_view(r@) == named_all(raws_view(symbols@)),
{
    let mut entries: Vec<(u64, String)> = Vec::new();
    let mut i: usize = 0;
    while i < symbols.len()
        invariant
            i <= symbols.len(),
            entries.len() == i,
            forall|j: int|
                0 <= j < i ==> entry_view(#[trigger] entries@[j]) == named(raw_view(symbols@[j])),
        decreases symbols.len() - i,
    {
        let name = demangle(symbols[i].1.as_slice());
        entries.push((symbols[i].0, name));
        i += 1;
    }
    assert(entries_view(entries@) =~= named_all(raws_view(symbols@)));
    entries
}

} // verus!

//! Finding the load mapping in the memory-mapping table of the process.
//!
//! The table has a line for each mapping: the address range as
//! `start-end`, the permissions, the offset in the file, the device, the
//! inode, and the path of the file, all numbers in hexadecimal.

use crate::fields::{fields, fields_from, find_field, join, join_fields, lemma_fields_from};
use crate::symbol_table::LoadMapping;
use crate::text::{
    bytes_eq, find_byte, hex_u64, lemma_split_from, next_index_of, parse_hex_u64, split,
    split_from,
};
use vstd::prelude::*;
use vstd::slice::*;

verus! {

/// The range that an address field writes: two hexadecimal numbers with a
/// dash between them.
pub open spec fn address_range(field: Seq<u8>) -> Option<(u64, u64)> {
    let dash = next_index_of(field, 0x2d, 0);
    if 0 <= dash < field.len() {
        match (hex_u64(field.subrange(0, dash)), hex_u64(field.subrange(dash + 1, field.len() as int))) {
            (Some(start), Some(end)) => Some((start, end)),
            _ => None,
        }
    } else {
        None
    }
}

/// Whether the permissions field marks a mapping as executable: four
/// characters, the third of them `x`.
pub open spec fn is_executable(permissions: Seq<u8>) -> bool {
    permissions.len() == 4 && permissions[2] == 0x78
}

/// The load mapping that a line of the table gives for the executable of
/// path `exe`: the line must have a path, which is everything from the
/// sixth field on, and the path must be `exe`; the mapping must be
/// executable; range and offset must be well-formed and make a usable
/// mapping.
pub open spec fn code_mapping(line: Seq<u8>, exe: Seq<u8>) -> Option<LoadMapping> {
    let f = fields(line);
    if f.len() >= 6 && is_executable(f[1]) && join(f.skip(5), 0x20) == exe {
        match (address_range(f[0]), hex_u64(f[2])) {
            (Some((start, end)), Some(offset)) => {
                let mapping = LoadMapping {
                    runtime_start: start,
                    runtime_end: end,
                    file_offset: offset,
                };
                if mapping.valid() {
                    Some(mapping)
                } else {
                    None
                }
            },
            _ => None,
        }
    } else {
        None
    }
}

/// The load mapping of the first line that gives one.
pub open spec fn first_code_mapping(lines: Seq<Seq<u8>>, exe: Seq<u8>) -> Option<LoadMapping>
    decreases lines.len(),
{
    if lines.len() == 0 {
        None
    } else {
        match code_mapping(lines[0], exe) {
            Some(mapping) => Some(mapping),
            None => first_code_mapping(lines.drop_first(), exe),
        }
    }
}

/// Reads the address field of a line.
fn parse_address_range(field: &[u8]) -> (r: Option<(u64, u64)>)
    ensures
        r == address_range(field@),
{
    let dash = find_byte(field, 0x2d, 0);
    if dash >= field.len() {
        return None;
    }
    let start = parse_hex_u64(slice_subrange(field, 0, dash));
    let end = parse_hex_u64(slice_subrange(field, dash + 1, field.len()));
    match (start, end) {
        (Some(start), Some(end)) => Some((start, end)),
        _ => None,
    }
}

/// Reads one line of the memory-mapping table.
pub fn parse_maps_line(line: &[u8], exe_path: &[u8]) -> (r: Option<LoadMapping>)
    ensures
        r == code_mapping(line@, exe_path@),
{
    let mut ranges: Vec<(usize, usize)> = Vec::new();
    let mut pos: usize = 0;
    let ghost f = fields(line@);
    while ranges.len() < 5
        invariant
            ranges.len() <= 5,
            pos <= line.len(),
            f == fields(line@),
            f.len() >= ranges.len(),
            f.skip(ranges.len() as int) =~= fields_from(line@, pos as int),
            forall|k: int|
                0 <= k < ranges.len() ==> (#[trigger] ranges@[k]).0 <= ranges@[k].1 <= line.len()
                    && f[k] == line@.subrange(ranges@[k].0 as int, ranges@[k].1 as int),
        decreases 5 - ranges.len(),
    {
        proof {
            lemma_fields_from(line@, pos as int);
        }
        match find_field(line, pos) {
            Some((start, end)) => {
                proof {
                    let rest = fields_from(line@, end as int);
                    let here = fields_from(line@, pos as int);
                    assert(here[0] == line@.subrange(start as int, end as int));
                    assert(f[ranges.len() as int] == f.skip(ranges.len() as int)[0]);
                    assert(f.skip(ranges.len() + 1) =~= f.skip(ranges.len() as int).drop_first());
                    assert(here.drop_first() =~= rest);
                }
                ranges.push((start, end));
                pos = end;
            },
            None => {
                assert(f.len() == ranges.len());
                return None;
            },
        }
    }
    proof {
        lemma_fields_from(line@, pos as int);
    }
    if find_field(line, pos).is_none() {
        assert(f.len() == 5);
        return None;
    }
    assert(f.len() >= 6);
    let permissions = slice_subrange(line, ranges[1].0, ranges[1].1);
    if !(permissions.len() == 4 && permissions[2] == 0x78) {
        return None;
    }
    let path = join_fields(line, pos);
    if !bytes_eq(path.as_slice(), exe_path) {
        return None;
    }
    let range = parse_address_range(slice_subrange(line, ranges[0].0, ranges[0].1));
    let offset = parse_hex_u64(slice_subrange(line, ranges[2].0, ranges[2].1));
    match (range, offset) {
        (Some((start, end)), Some(offset)) => {
            let mapping = LoadMapping { runtime_start: start, runtime_end: end, file_offset: offset };
            if mapping.is_valid() {
                Some(mapping)
            } else {
                None
            }
        },
        _ => None,
    }
}

/// Finds the load mapping of the executable of path `exe_path` in the
/// memory-mapping table `maps`: that of the first line that maps the
/// executable as code. Where no line does, there is no load mapping, and
/// addresses are looked up as they come.
pub fn find_load_mapping(maps: &[u8], exe_path: &[u8]) -> (r: Option<LoadMapping>)
    ensures
        r == first_code_mapping(split(maps@, 0x0a), exe_path@),
        r matches Some(mapping) ==> mapping.valid(),
{
    let mut pos: usize = 0;
    loop
        invariant
            pos <= maps.len(),
            first_code_mapping(split(maps@, 0x0a), exe_path@) == first_code_mapping(
                split_from(maps@, 0x0a, pos as int),
                exe_path@,
            ),
        decreases maps.len() - pos,
    {
        let end = find_byte(maps, 0x0a, pos);
        let line = slice_subrange(maps, pos, end);
        proof {
            lemma_split_from(maps@, 0x0a, pos as int);
            let remaining = split_from(maps@, 0x0a, pos as int);
            assert(remaining[0] == line@);
            if end < maps.len() {
                assert(remaining.drop_first() =~= split_from(maps@, 0x0a, end + 1));
            } else {
                assert(remaining.drop_first() =~= Seq::<Seq<u8>>::empty());
            }
        }
        match parse_maps_line(line, exe_path) {
            Some(mapping) => {
                return Some(mapping);
            },
            None => {},
        }
        if end >= maps.len() {
            assert(first_code_mapping(Seq::<Seq<u8>>::empty(), exe_path@) is None);
            return None;
        }
        pos = end + 1;
    }
}

} // verus!

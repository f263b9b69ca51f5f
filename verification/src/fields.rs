//! Lines and blank-separated fields of tool output.

use vstd::prelude::*;
use vstd::slice::*;

verus! {

/// Whether `b` is ASCII white space: a space, a tab, a line feed, a form
/// feed or a carriage return.
pub open spec fn is_blank(b: u8) -> bool {
    b == 0x20 || b == 0x09 || b == 0x0a || b == 0x0c || b == 0x0d
}

/// The first position at or after `from` that holds no blank, or the end.
pub open spec fn skip_blanks(s: Seq<u8>, from: int) -> int
    decreases s.len() - from,
{
    if from >= s.len() {
        s.len() as int
    } else if !is_blank(s[from]) {
        from
    } else {
        skip_blanks(s, from + 1)
    }
}

/// The first position at or after `from` that holds a blank, or the end.
pub open spec fn skip_word(s: Seq<u8>, from: int) -> int
    decreases s.len() - from,
{
    if from >= s.len() {
        s.len() as int
    } else if is_blank(s[from]) {
        from
    } else {
        skip_word(s, from + 1)
    }
}

/// The fields of `s` from position `from` on: the maximal runs of bytes
/// that are not blank, in order.
pub open spec fn fields_from(s: Seq<u8>, from: int) -> Seq<Seq<u8>>
    decreases s.len() - from,
{
    let start = skip_blanks(s, from);
    let end = skip_word(s, start);
    if from <= start < end <= s.len() {
        seq![s.subrange(start, end)] + fields_from(s, end)
    } else {
        Seq::empty()
    }
}

/// The fields of `s`.
pub open spec fn fields(s: Seq<u8>) -> Seq<Seq<u8>> {
    fields_from(s, 0)
}

/// The pieces joined into one string, a single `sep` between neighbours.
pub open spec fn join(pieces: Seq<Seq<u8>>, sep: u8) -> Seq<u8>
    decreases pieces.len(),
{
    if pieces.len() == 0 {
        Seq::empty()
    } else if pieces.len() == 1 {
        pieces[0]
    } else {
        pieces[0] + seq![sep] + join(pieces.drop_first(), sep)
    }
}

/// A word that begins at `from` ends behind `from`, and within `s`.
pub proof fn lemma_skip_word(s: Seq<u8>, from: int)
    requires
        0 <= from <= s.len(),
    ensures
        from <= skip_word(s, from) <= s.len(),
        from < s.len() && !is_blank(s[from]) ==> from < skip_word(s, from),
    decreases s.len() - from,
{
    if from < s.len() && !is_blank(s[from]) {
        lemma_skip_word(s, from + 1);
    }
}

/// The next field at or after `from`, as the range of its positions.
pub open spec fn next_field(s: Seq<u8>, from: int) -> Option<(int, int)> {
    let start = skip_blanks(s, from);
    let end = skip_word(s, start);
    if from <= start < end <= s.len() {
        Some((start, end))
    } else {
        None
    }
}

/// How the fields unfold: the next field, then the fields behind it.
pub proof fn lemma_fields_from(s: Seq<u8>, from: int)
    ensures
        match next_field(s, from) {
            Some((start, end)) => from <= start < end <= s.len() && fields_from(s, from) == seq![
                s.subrange(start, end),
            ] + fields_from(s, end),
            None => fields_from(s, from) == Seq::<Seq<u8>>::empty(),
        },
{
}

/// Finds the next field of `s` at or after `from`.
pub fn find_field(s: &[u8], from: usize) -> (r: Option<(usize, usize)>)
    ensures
        match r {
            Some((start, end)) => next_field(s@, from as int) == Some((start as int, end as int))
                && from <= start < end <= s.len(),
            None => next_field(s@, from as int) is None,
        },
{
    if from >= s.len() {
        return None;
    }
    let mut start: usize = from;
    while start < s.len() && is_blank_byte(s[start])
        invariant
            from <= start <= s.len(),
            skip_blanks(s@, from as int) == skip_blanks(s@, start as int),
        decreases s.len() - start,
    {
        start += 1;
    }
    if start >= s.len() {
        return None;
    }
    let mut end: usize = start;
    while end < s.len() && !is_blank_byte(s[end])
        invariant
            start <= end <= s.len(),
            start < s.len(),
            !is_blank(s@[start as int]),
            skip_word(s@, start as int) == skip_word(s@, end as int),
        decreases s.len() - end,
    {
        end += 1;
    }
    proof {
        lemma_skip_word(s@, start as int);
    }
    Some((start, end))
}

/// Tells whether `b` is ASCII white space.
pub fn is_blank_byte(b: u8) -> (r: bool)
    ensures
        r == is_blank(b),
{
    b == 0x20 || b == 0x09 || b == 0x0a || b == 0x0c || b == 0x0d
}

/// Joins the fields of `s` from position `from` on with single spaces.
pub fn join_fields(s: &[u8], from: usize) -> (r: Vec<u8>)
    ensures
        r@ == join(fields_from(s@, from as int), 0x20),
{
    let mut out: Vec<u8> = Vec::new();
    let mut pos: usize = from;
    let mut first: bool = true;
    loop
        invariant_except_break
            from <= pos,
            first ==> out@.len() == 0 && pos == from,
            !first ==> fields_from(s@, pos as int).len() > 0 ==> join(
                fields_from(s@, from as int),
                0x20,
            ) == out@ + seq![0x20u8] + join(fields_from(s@, pos as int), 0x20),
            !first ==> fields_from(s@, pos as int).len() == 0 ==> join(
                fields_from(s@, from as int),
                0x20,
            ) == out@,
        ensures
            out@ == join(fields_from(s@, from as int), 0x20),
        decreases s.len() - pos,
    {
        proof {
            lemma_fields_from(s@, pos as int);
        }
        match find_field(s, pos) {
            None => {
                break ;
            },
            Some((start, end)) => {
                let ghost before = out@;
                let ghost rest = fields_from(s@, end as int);
                let ghost all = fields_from(s@, pos as int);
                proof {
                    assert(all == seq![s@.subrange(start as int, end as int)] + rest);
                    assert(all[0] == s@.subrange(start as int, end as int));
                    assert(all.drop_first() =~= rest);
                }
                if !first {
                    out.push(0x20);
                }
                out.extend_from_slice(slice_subrange(s, start, end));
                proof {
                    let field = s@.subrange(start as int, end as int);
                    if rest.len() == 0 {
                        assert(join(all, 0x20) == field);
                    } else {
                        assert(join(all, 0x20) == field + seq![0x20u8] + join(rest, 0x20));
                    }
                    if first {
                        assert(out@ =~= field);
                    } else {
                        assert(out@ =~= before + seq![0x20u8] + field);
                        if rest.len() > 0 {
                            assert(before + seq![0x20u8] + join(all, 0x20) =~= out@ + seq![0x20u8]
                                + join(rest, 0x20));
                        }
                    }
                }
                first = false;
                pos = end;
            },
        }
    }
    out
}

} // verus!

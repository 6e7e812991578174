//! Windows onto long rows, so that an answer stays readable.
use crate::list::{List, Same};
use vstd::prelude::*;

verus! {

/// Where a window starts: at the offset, or at the end of a shorter row.
pub open spec fn page_from(len: nat, offset: Option<u32>) -> int {
    match offset {
        Some(o) => if o <= len {
            o as int
        } else {
            len as int
        },
        None => 0,
    }
}

/// Where a window ends.
pub open spec fn page_to(len: nat, offset: Option<u32>, limit: Option<u32>) -> int {
    match limit {
        Some(l) => if page_from(len, offset) + l <= len {
            page_from(len, offset) + l
        } else {
            len as int
        },
        None => len as int,
    }
}

/// The part of a row that a window shows.
pub open spec fn paged<T>(s: Seq<T>, offset: Option<u32>, limit: Option<u32>) -> Seq<T> {
    s.subrange(page_from(s.len(), offset), page_to(s.len(), offset, limit))
}

/// The bounds of a window.
pub fn page_window(len: usize, offset: Option<u32>, limit: Option<u32>) -> (r: (usize, usize))
    ensures
        r.0 == page_from(len as nat, offset),
        r.1 == page_to(len as nat, offset, limit),
        r.0 <= r.1 <= len,
{
    let from: usize = match offset {
        Some(o) => if (o as usize) <= len {
            o as usize
        } else {
            len
        },
        None => 0,
    };
    let to: usize = match limit {
        Some(l) => if (l as usize) <= len - from {
            from + l as usize
        } else {
            len
        },
        None => len,
    };
    (from, to)
}

/// The part of a row that a window shows.
pub fn page_of<T: Same>(row: &List<T>, offset: Option<u32>, limit: Option<u32>) -> (r: Vec<T>)
    ensures
        r@ == paged(row@, offset, limit),
{
    let (from, to) = page_window(row.len(), offset, limit);
    let mut out: Vec<T> = Vec::new();
    let mut i: usize = from;
    while i < to
        invariant
            from <= i <= to <= row@.len(),
            out@ == row@.subrange(from as int, i as int),
        decreases to - i,
    {
        out.push(row.at(i).same());
        i += 1;
        assert(out@ =~= row@.subrange(from as int, i as int));
    }
    out
}

/// Windows that follow one another show the whole row: each item once.
pub proof fn law_pages_cover_the_row<T>(s: Seq<T>, at: u32, size: u32)
    requires
        at + size <= u32::MAX,
    ensures
        paged(s, Some(at), Some(size)) + paged(s, Some((at + size) as u32), None) == paged(
            s,
            Some(at),
            None,
        ),
{
    let len = s.len();
    let mid = page_to(len, Some(at), Some(size));
    assert(mid == page_from(len, Some((at + size) as u32)));
    assert(s.subrange(page_from(len, Some(at)), mid) + s.subrange(mid, len as int) =~= s.subrange(
        page_from(len, Some(at)),
        len as int,
    ));
}

} // verus!

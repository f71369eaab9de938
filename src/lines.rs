use vstd::prelude::*;
use vstd::string::StringSliceAdditionalSpecFns;

verus! {

/// The byte of a line feed.
pub const NEWLINE: u8 = 10;

/// `ranges` cut `b` into its lines: the spans between line feeds, in order, the first
/// starting at the beginning and the last ending at the end, none holding a line
/// feed. Text without a line feed is one line; a trailing line feed ends with an
/// empty line.
pub open spec fn splits_lines(b: Seq<u8>, ranges: Seq<(usize, usize)>) -> bool {
    &&& ranges.len() >= 1
    &&& ranges[0].0 == 0
    &&& ranges.last().1 == b.len()
    &&& forall|k: int| 0 <= k < ranges.len() ==> (#[trigger] ranges[k]).0 <= ranges[k].1 <= b.len()
    &&& forall|k: int, p: int|
        #![trigger b[p], ranges[k]]
        0 <= k < ranges.len() && ranges[k].0 <= p < ranges[k].1 ==> b[p] != NEWLINE
    &&& forall|k: int|
        0 <= k < ranges.len() - 1 ==> b[(#[trigger] ranges[k]).1 as int] == NEWLINE
            && ranges[k + 1].0 == ranges[k].1 + 1
}

/// Splits `text` at each line feed into the byte spans of its lines.
pub fn line_ranges(text: &str) -> (r: Vec<(usize, usize)>)
    ensures
        splits_lines(text.spec_bytes(), r@),
{
    let b = text.as_bytes();
    let n = b.len();
    let mut r: Vec<(usize, usize)> = Vec::new();
    let mut start: usize = 0;
    let mut i: usize = 0;
    while i < n
        invariant
            n == b@.len(),
            b@ == text.spec_bytes(),
            start <= i <= n,
            r@.len() == 0 ==> start == 0,
            r@.len() > 0 ==> r@.last().1 + 1 == start,
            forall|p: int| start <= p < i ==> b@[p] != NEWLINE,
            forall|k: int| 0 <= k < r@.len() ==> (#[trigger] r@[k]).0 <= r@[k].1 < start,
            r@.len() > 0 ==> r@[0].0 == 0,
            forall|k: int, p: int|
                #![trigger b@[p], r@[k]]
                0 <= k < r@.len() && r@[k].0 <= p < r@[k].1 ==> b@[p] != NEWLINE,
            forall|k: int|
                0 <= k < r@.len() ==> b@[(#[trigger] r@[k]).1 as int] == NEWLINE,
            forall|k: int|
                0 <= k < r@.len() - 1 ==> r@[k + 1].0 == (#[trigger] r@[k]).1 + 1,
        decreases n - i,
    {
        if b[i] == NEWLINE {
            r.push((start, i));
            start = i + 1;
        }
        i = i + 1;
    }
    r.push((start, n));
    r
}

} // verus!

//! Mapping byte offsets to source lines.
use vstd::prelude::*;

verus! {

/// Sum of the first `k` line lengths.
pub open spec fn prefix_sum(lines: Seq<usize>, k: int) -> int
    decreases k,
{
    if k <= 0 || k > lines.len() {
        0
    } else {
        prefix_sum(lines, k - 1) + lines[k - 1]
    }
}

/// Whether byte offset `loc` lies on the 1-based line `k`, where `lines`
/// gives the length of each line (its newline included).
pub open spec fn on_line(loc: usize, lines: Seq<usize>, k: int) -> bool {
    1 <= k <= lines.len() && prefix_sum(lines, k - 1) <= loc < prefix_sum(lines, k)
}

/// The line holding byte offset `loc`, if any.
pub open spec fn line_of(loc: usize, lines: Seq<usize>) -> Option<usize> {
    if exists|k: int| #[trigger] on_line(loc, lines, k) {
        Some((choose|k: int| #[trigger] on_line(loc, lines, k)) as usize)
    } else {
        None
    }
}

pub proof fn lemma_prefix_mono(lines: Seq<usize>, j: int, k: int)
    requires
        0 <= j <= k <= lines.len(),
    ensures
        prefix_sum(lines, j) <= prefix_sum(lines, k),
    decreases k - j,
{
    if j < k {
        lemma_prefix_mono(lines, j, k - 1);
    }
}

/// The 1-based line holding byte offset `loc`; `None` past the last line.
pub fn line_from(loc: usize, lines: &Vec<usize>) -> (r: Option<usize>)
    ensures
        match r {
            Some(k) => 1 <= k <= lines.len() && prefix_sum(lines@, k - 1) <= loc < prefix_sum(lines@, k as int),
            None => loc >= prefix_sum(lines@, lines.len() as int),
        },
        r == line_of(loc, lines@),
{
    let mut count: usize = 0;
    let mut i: usize = 0;
    while i < lines.len()
        invariant
            i <= lines.len(),
            count == prefix_sum(lines@, i as int),
            count <= loc,
        decreases lines.len() - i,
    {
        if loc - count < lines[i] {
            let k = i + 1;
            proof {
                assert(on_line(loc, lines@, k as int));
                assert forall|j: int| #[trigger] on_line(loc, lines@, j) implies j == k by {
                    if j < k {
                        lemma_prefix_mono(lines@, j, k - 1);
                    } else if j > k {
                        lemma_prefix_mono(lines@, k as int, j - 1);
                    }
                }
            }
            return Some(k);
        }
        count = count + lines[i];
        i += 1;
    }
    proof {
        assert forall|j: int| !#[trigger] on_line(loc, lines@, j) by {
            if 1 <= j <= lines.len() {
                lemma_prefix_mono(lines@, j, lines.len() as int);
            }
        }
    }
    None
}

} // verus!

//! The record locator: find the half-open range of document lines that
//! belongs to the target date, bounded by the first later line that starts
//! with the successor label — or by the end of the document when the caller
//! says no successor boundary exists.

use vstd::prelude::*;
use crate::errors::PipelineError;
use crate::text::has_prefix;
use crate::text::is_prefix;

verus! {

/// The first index at or after `from` whose line starts with `label`, or
/// `doc.len()` when no such line exists.
pub open spec fn first_match_from(doc: Seq<Seq<char>>, label: Seq<char>, from: int) -> int
    decreases doc.len() - from,
{
    if from < 0 || from >= doc.len() {
        doc.len() as int
    } else if is_prefix(label, doc[from]) {
        from
    } else {
        first_match_from(doc, label, from + 1)
    }
}

/// `first_match_from` is exactly the scan that stops at the first line with
/// the prefix.
pub proof fn lemma_first_match_at(doc: Seq<Seq<char>>, label: Seq<char>, from: int, i: int)
    requires
        0 <= from <= i <= doc.len(),
        forall|j: int| from <= j < i ==> !is_prefix(label, #[trigger] doc[j]),
        i < doc.len() ==> is_prefix(label, doc[i]),
    ensures
        first_match_from(doc, label, from) == if i < doc.len() {
            i
        } else {
            doc.len() as int
        },
    decreases i - from,
{
    if from < i {
        lemma_first_match_at(doc, label, from + 1, i);
    }
}

/// The successor labels a caller can hand the locator, seen abstractly.
pub open spec fn boundary_view(successor: Option<&str>) -> Option<Seq<char>> {
    match successor {
        Some(s) => Some(s@),
        None => None,
    }
}

/// The line range `[start, end)` of the record anchored at `target`:
/// `start` is the first line starting with `target`; `end` is the first
/// later line starting with `succ`, or the end of the document when the
/// boundary is `None`. `None` when either scan runs off the document.
pub open spec fn locate_range(
    doc: Seq<Seq<char>>,
    target: Seq<char>,
    succ: Option<Seq<char>>,
) -> Option<(int, int)> {
    let start = first_match_from(doc, target, 0);
    if start >= doc.len() {
        None
    } else {
        match succ {
            None => Some((start, doc.len() as int)),
            Some(label) => {
                let end = first_match_from(doc, label, start + 1);
                if end >= doc.len() {
                    None
                } else {
                    Some((start, end))
                }
            },
        }
    }
}

/// Locate the block of lines belonging to `target`: from the first line
/// starting with `target`, up to but excluding the first later line
/// starting with `successor` (to the end of the document when `successor`
/// is `None`). Fails with `RecordNotFound` exactly when the target line is
/// missing, or a demanded successor boundary never appears after it.
pub fn locate(lines: &Vec<String>, target: &str, successor: Option<&str>) -> (r: Result<
    Vec<String>,
    PipelineError,
>)
    ensures
        match r {
            Ok(block) => ({
                let range = locate_range(lines.deep_view(), target@, boundary_view(successor));
                &&& range is Some
                &&& block.deep_view() == lines.deep_view().subrange(
                    range->Some_0.0,
                    range->Some_0.1,
                )
            }),
            Err(e) => {
                &&& locate_range(lines.deep_view(), target@, boundary_view(successor)) is None
                &&& e == PipelineError::RecordNotFound
            },
        },
{
    let ghost dv = lines.deep_view();
    let n = lines.len();
    proof {
        assert(dv.len() == n);
    }
    let mut start: usize = 0;
    while start < n && !has_prefix(lines[start].as_str(), target)
        invariant
            n == lines@.len(),
            dv == lines.deep_view(),
            0 <= start <= n,
            forall|j: int| 0 <= j < start ==> !is_prefix(target@, #[trigger] dv[j]),
        decreases n - start,
    {
        start += 1;
    }
    proof {
        lemma_first_match_at(dv, target@, 0, start as int);
    }
    if start == n {
        return Err(PipelineError::RecordNotFound);
    }
    let end: usize = match successor {
        None => n,
        Some(label) => {
            let mut end: usize = start + 1;
            while end < n && !has_prefix(lines[end].as_str(), label)
                invariant
                    n == lines@.len(),
                    dv == lines.deep_view(),
                    start + 1 <= end <= n,
                    forall|j: int| start + 1 <= j < end ==> !is_prefix(label@, #[trigger] dv[j]),
                decreases n - end,
            {
                end += 1;
            }
            proof {
                lemma_first_match_at(dv, label@, start as int + 1, end as int);
            }
            if end == n {
                return Err(PipelineError::RecordNotFound);
            }
            end
        },
    };
    let mut block: Vec<String> = Vec::new();
    let mut i: usize = start;
    proof {
        assert(block.deep_view() =~~= dv.subrange(start as int, start as int));
    }
    while i < end
        invariant
            n == lines@.len(),
            dv == lines.deep_view(),
            start <= i <= end <= n,
            block.deep_view() == dv.subrange(start as int, i as int),
        decreases end - i,
    {
        let ghost pre = block.deep_view();
        block.push(lines[i].clone());
        proof {
            assert(block.deep_view() =~~= pre.push(dv[i as int]));
            assert(dv.subrange(start as int, i + 1) =~~= pre.push(dv[i as int]));
        }
        i += 1;
    }
    Ok(block)
}

} // verus!

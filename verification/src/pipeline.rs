//! The composed extraction: from a document's lines and a target day to the
//! segmented record, with the December 31 no-successor policy applied.

use vstd::prelude::*;
use crate::dates::DateLabel;
use crate::dates::lemma_succ_valid;
use crate::dates::render_label;
use crate::dates::succ_date;
use crate::errors::PipelineError;
use crate::locate::boundary_view;
use crate::locate::locate;
use crate::locate::locate_range;
use crate::segment::DailyRecord;
use crate::segment::segment;
use crate::segment::segment_fields;

verus! {

/// The successor boundary handed to the locator for day `(m, d)`: the next
/// day's rendered label, or `None` on the final day of the cycle
/// (December 31), whose entry runs to the end of the document.
pub open spec fn boundary_label(m: int, d: int) -> Option<Seq<char>> {
    if m == 12 && d == 31 {
        None
    } else {
        Some(render_label(succ_date(m, d).0, succ_date(m, d).1))
    }
}

/// Locate and segment the entry for `date`: the block starts at the first
/// line carrying the day's label and ends before the first later line
/// carrying the successor's label (at the document's end on December 31);
/// the block is then split into the five record fields. `RecordNotFound`
/// exactly when the locator finds no block, `MalformedRecord` exactly when
/// the block does not segment.
pub fn extract_entry(lines: &Vec<String>, date: &DateLabel) -> (r: Result<
    DailyRecord,
    PipelineError,
>)
    requires
        date.wf(),
    ensures
        ({
            let dv = lines.deep_view();
            let m = date.month as int;
            let d = date.day as int;
            match locate_range(dv, render_label(m, d), boundary_label(m, d)) {
                None => r matches Err(PipelineError::RecordNotFound),
                Some((s, e)) => match segment_fields(dv.subrange(s, e)) {
                    None => r matches Err(PipelineError::MalformedRecord),
                    Some(v) => r matches Ok(rec) && rec@ == v,
                },
            }
        }),
{
    let ghost m = date.month as int;
    let ghost d = date.day as int;
    let target = date.render();
    let boundary = date.successor_boundary();
    proof {
        lemma_succ_valid(m, d);
    }
    let boundary_text: Option<String> = match &boundary {
        Some(next) => Some(next.render()),
        None => None,
    };
    let boundary_ref: Option<&str> = match &boundary_text {
        Some(text) => Some(text.as_str()),
        None => None,
    };
    proof {
        assert(boundary_view(boundary_ref) == boundary_label(m, d));
    }
    let block = match locate(lines, target.as_str(), boundary_ref) {
        Ok(block) => block,
        Err(e) => {
            return Err(e);
        },
    };
    match segment(&block) {
        Ok(rec) => Ok(rec),
        Err(e) => Err(e),
    }
}

} // verus!

//! The field segmenter: split a located block of lines into date, title,
//! quote, attribution and explanation, pivoting on the first line that
//! starts with the attribution marker (an em dash).

use vstd::prelude::*;
use crate::errors::PipelineError;
use crate::locate::first_match_from;
use crate::locate::lemma_first_match_at;
use crate::text::is_prefix;
use crate::text::join_range;
use crate::text::joined;
use crate::text::trim;
use crate::text::trimmed;

verus! {

/// The attribution marker at the start of a line: an em dash.
pub open spec fn marker() -> Seq<char> {
    seq!['\u{2014}']
}

/// One day's structured record.
#[derive(Debug)]
pub struct DailyRecord {
    pub date: String,
    pub title: String,
    pub quote: String,
    pub attribution: String,
    pub explanation: String,
}

/// The abstract value of a record: its five fields as character sequences.
#[verifier::ext_equal]
pub ghost struct RecordView {
    pub date: Seq<char>,
    pub title: Seq<char>,
    pub quote: Seq<char>,
    pub attribution: Seq<char>,
    pub explanation: Seq<char>,
}

impl View for DailyRecord {
    type V = RecordView;

    open spec fn view(&self) -> RecordView {
        RecordView {
            date: self.date@,
            title: self.title@,
            quote: self.quote@,
            attribution: self.attribution@,
            explanation: self.explanation@,
        }
    }
}

/// The fields a block of lines segments into: line 0 is the date, line 1
/// the title; the first line from index 2 on that starts with the
/// attribution marker is the pivot; the quote is the lines before it joined
/// with single spaces, the explanation the lines after it likewise; every
/// field is trimmed. `None` when the block has fewer than two lines or no
/// marked line from index 2 on.
pub open spec fn segment_fields(doc: Seq<Seq<char>>) -> Option<RecordView> {
    if doc.len() < 2 {
        None
    } else {
        let pivot = first_match_from(doc, marker(), 2);
        if pivot >= doc.len() {
            None
        } else {
            Some(
                RecordView {
                    date: trimmed(doc[0]),
                    title: trimmed(doc[1]),
                    quote: trimmed(joined(doc.subrange(2, pivot), seq![' '])),
                    attribution: trimmed(doc[pivot]),
                    explanation: trimmed(
                        joined(doc.subrange(pivot + 1, doc.len() as int), seq![' ']),
                    ),
                },
            )
        }
    }
}

/// Whether the line starts with the attribution marker.
fn is_marked(line: &str) -> (b: bool)
    ensures
        b == is_prefix(marker(), line@),
{
    if line.unicode_len() == 0 {
        return false;
    }
    let b = line.get_char(0) == '\u{2014}';
    proof {
        if b {
            assert(line@.subrange(0, 1) =~= marker());
        } else {
            assert(line@.subrange(0, 1)[0] == line@[0]);
        }
    }
    b
}

/// Segment a located block into a record. Fails with `MalformedRecord`
/// exactly when the block has fewer than two lines or no line from index 2
/// on starts with the attribution marker.
pub fn segment(lines: &Vec<String>) -> (r: Result<DailyRecord, PipelineError>)
    ensures
        match r {
            Ok(rec) => segment_fields(lines.deep_view()) == Some(rec@),
            Err(e) => {
                &&& segment_fields(lines.deep_view()) is None
                &&& e == PipelineError::MalformedRecord
            },
        },
{
    let ghost dv = lines.deep_view();
    let n = lines.len();
    proof {
        assert(dv.len() == n);
    }
    if n < 2 {
        return Err(PipelineError::MalformedRecord);
    }
    let mut pivot: usize = 2;
    while pivot < n && !is_marked(lines[pivot].as_str())
        invariant
            n == lines@.len(),
            dv == lines.deep_view(),
            2 <= pivot <= n,
            forall|j: int| 2 <= j < pivot ==> !is_prefix(marker(), #[trigger] dv[j]),
        decreases n - pivot,
    {
        pivot += 1;
    }
    proof {
        lemma_first_match_at(dv, marker(), 2, pivot as int);
    }
    if pivot == n {
        return Err(PipelineError::MalformedRecord);
    }
    proof {
        reveal_strlit(" ");
        assert(" "@ =~= seq![' ']);
    }
    let quote_joined = join_range(lines, 2, pivot, " ");
    let explanation_joined = join_range(lines, pivot + 1, n, " ");
    let rec = DailyRecord {
        date: trim(lines[0].as_str()),
        title: trim(lines[1].as_str()),
        quote: trim(quote_joined.as_str()),
        attribution: trim(lines[pivot].as_str()),
        explanation: trim(explanation_joined.as_str()),
    };
    proof {
        assert(segment_fields(dv) == Some(rec@));
    }
    Ok(rec)
}

} // verus!

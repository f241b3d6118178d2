//! Work item identifiers, and the report on a resolved pull request.
use vstd::prelude::*;
use crate::resolver::PullRequest;
use crate::text::{i32_of_text, i32_text, int_text, parse_i32};

verus! {

/// The work item identifiers that the references denote, in order: a
/// reference without an identifier is passed over, and one identifier that is
/// not a decimal `i32` spoils the whole list.
pub open spec fn work_item_ids_spec(refs: Seq<Option<String>>) -> Option<Seq<i32>>
    decreases refs.len(),
{
    if refs.len() == 0 {
        Some(Seq::empty())
    } else {
        match work_item_ids_spec(refs.drop_last()) {
            None => None,
            Some(ids) => match refs.last() {
                None => Some(ids),
                Some(text) => match i32_of_text(text@) {
                    Some(id) => Some(ids.push(id)),
                    None => None,
                },
            },
        }
    }
}

proof fn lemma_failure_persists(refs: Seq<Option<String>>, k: int)
    requires
        0 <= k <= refs.len(),
        work_item_ids_spec(refs.subrange(0, k)) is None,
    ensures
        work_item_ids_spec(refs) is None,
    decreases refs.len() - k,
{
    if k < refs.len() {
        assert(refs.subrange(0, k + 1).drop_last() =~= refs.subrange(0, k));
        lemma_failure_persists(refs, k + 1);
    } else {
        assert(refs.subrange(0, k) =~= refs);
    }
}

/// Reads the identifiers of the work item references linked to a pull
/// request. `None` when one of them is not a decimal `i32`.
pub fn parse_work_item_ids(refs: &Vec<Option<String>>) -> (r: Option<Vec<i32>>)
    ensures
        match r {
            Some(ids) => work_item_ids_spec(refs@) == Some(ids@),
            None => work_item_ids_spec(refs@) is None,
        },
{
    let mut ids: Vec<i32> = Vec::new();
    let mut i: usize = 0;
    while i < refs.len()
        invariant
            i <= refs@.len(),
            work_item_ids_spec(refs@.subrange(0, i as int)) == Some(ids@),
        decreases refs.len() - i,
    {
        assert(refs@.subrange(0, i + 1).drop_last() =~= refs@.subrange(0, i as int));
        match &refs[i] {
            None => {},
            Some(text) => match parse_i32(text.as_str()) {
                Some(id) => ids.push(id),
                None => {
                    proof {
                        lemma_failure_persists(refs@, i + 1);
                    }
                    return None;
                },
            },
        }
        i += 1;
    }
    assert(refs@.subrange(0, i as int) =~= refs@);
    Some(ids)
}

/// One reference whose identifier is not a decimal `i32` spoils the reading
/// of all of them, wherever it stands.
pub proof fn lemma_unreadable_reference_spoils(refs: Seq<Option<String>>, k: int)
    requires
        0 <= k < refs.len(),
        refs[k] is Some,
        i32_of_text(refs[k]->0@) is None,
    ensures
        work_item_ids_spec(refs) is None,
{
    assert(refs.subrange(0, k + 1).drop_last() =~= refs.subrange(0, k));
    assert(refs.subrange(0, k + 1).last() == refs[k]);
    lemma_failure_persists(refs, k + 1);
}

/// The work items of a report: those read from the fetched references, or
/// none when the fetch or the reading failed.
pub open spec fn work_items_or_none(fetched: Option<Seq<Option<String>>>) -> Seq<i32> {
    match fetched {
        Some(refs) => match work_item_ids_spec(refs) {
            Some(ids) => ids,
            None => Seq::empty(),
        },
        None => Seq::empty(),
    }
}

pub open spec fn fetched_view(fetched: Option<Vec<Option<String>>>) -> Option<Seq<Option<String>>> {
    match fetched {
        Some(refs) => Some(refs@),
        None => None,
    }
}

/// The report on a resolved pull request: its identifier and the identifiers
/// of its linked work items, in the order the service gave them.
#[derive(Debug, PartialEq, Eq)]
pub struct AchInfo {
    pub pr: i32,
    pub work_items: Vec<i32>,
}

pub open spec fn pull_request_line(pr: i32) -> Seq<char> {
    "Pull-request #"@ + int_text(pr as int)
}

pub open spec fn work_item_line(id: i32) -> Seq<char> {
    "Work-item #"@ + int_text(id as int)
}

pub open spec fn not_found_line() -> Seq<char> {
    "no pr info found"@
}

/// The lines that report on a pull request and its work items.
pub open spec fn info_lines(pr: i32, work_items: Seq<i32>) -> Seq<Seq<char>> {
    seq![pull_request_line(pr)] + work_items.map_values(|id: i32| work_item_line(id))
}

pub open spec fn line_texts(lines: Seq<String>) -> Seq<Seq<char>> {
    lines.map_values(|l: String| l@)
}

impl AchInfo {
    /// Builds the report on the resolved pull request `pull_request` from the
    /// fetch of its work item references, `None` when that fetch failed. A
    /// failed fetch, or a reference that is not read, leaves the report with
    /// no work items: the pull request is still reported.
    pub fn assemble(pull_request: &PullRequest, fetched: Option<Vec<Option<String>>>) -> (r: AchInfo)
        ensures
            r.pr == pull_request.id,
            r.work_items@ == work_items_or_none(fetched_view(fetched)),
    {
        let work_items = match &fetched {
            Some(refs) => match parse_work_item_ids(refs) {
                Some(ids) => ids,
                None => Vec::new(),
            },
            None => Vec::new(),
        };
        AchInfo { pr: pull_request.id, work_items }
    }

    /// The lines that show this report: `Pull-request #<id>`, then one
    /// `Work-item #<id>` for each work item, in order.
    pub fn display_lines(&self) -> (r: Vec<String>)
        ensures
            line_texts(r@) == info_lines(self.pr, self.work_items@),
    {
        let mut lines: Vec<String> = Vec::new();
        let mut first = String::from_str("Pull-request #");
        let pr_text = i32_text(self.pr);
        first.append(pr_text.as_str());
        lines.push(first);
        let mut i: usize = 0;
        while i < self.work_items.len()
            invariant
                i <= self.work_items@.len(),
                line_texts(lines@) == info_lines(self.pr, self.work_items@.subrange(0, i as int)),
            decreases self.work_items.len() - i,
        {
            let mut line = String::from_str("Work-item #");
            let id_text = i32_text(self.work_items[i]);
            line.append(id_text.as_str());
            let ghost before = lines@;
            let ghost done = self.work_items@.subrange(0, i as int);
            lines.push(line);
            assert(self.work_items@.subrange(0, i + 1) =~= done.push(self.work_items@[i as int]));
            assert(line_texts(lines@) =~= line_texts(before).push(line@));
            assert(done.push(self.work_items@[i as int]).map_values(|id: i32| work_item_line(id))
                =~= done.map_values(|id: i32| work_item_line(id)).push(work_item_line(self.work_items@[i as int])));
            assert(line_texts(lines@) =~= info_lines(self.pr, self.work_items@.subrange(0, i + 1)));
            i += 1;
        }
        assert(self.work_items@.subrange(0, i as int) =~= self.work_items@);
        lines
    }
}

/// The lines that report the outcome of a run: those of the report, or
/// `no pr info found` when no pull request holds the commit.
pub fn report_lines(info: &Option<AchInfo>) -> (r: Vec<String>)
    ensures
        line_texts(r@) == match info {
            Some(i) => info_lines(i.pr, i.work_items@),
            None => seq![not_found_line()],
        },
{
    match info {
        Some(i) => i.display_lines(),
        None => {
            let mut lines: Vec<String> = Vec::new();
            lines.push(String::from_str("no pr info found"));
            assert(line_texts(lines@) =~= seq![not_found_line()]);
            lines
        },
    }
}

/// A resolved pull request is reported even when its work items cannot be
/// had: a failed fetch, or a reference that is not a decimal `i32`, leaves the
/// pull request's identifier with no work items.
pub proof fn lemma_partial_success(fetched: Option<Seq<Option<String>>>)
    requires
        fetched is None || work_item_ids_spec(fetched->0) is None,
    ensures
        work_items_or_none(fetched) == Seq::<i32>::empty(),
{
}

} // verus!

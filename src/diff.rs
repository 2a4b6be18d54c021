use vstd::prelude::*;
use crate::error::FlowError;
use crate::text::{lines_of, str_eq, str_lines};

verus! {

/// Settings for a textual diff.
#[derive(Debug)]
pub struct DiffOptions {
    pub context_lines: usize,
    pub ignore_whitespace: bool,
    pub ignore_case: bool,
}

impl Default for DiffOptions {
    fn default() -> (r: DiffOptions)
        ensures
            r.context_lines == 3,
            !r.ignore_whitespace,
            !r.ignore_case,
    {
        DiffOptions { context_lines: 3, ignore_whitespace: false, ignore_case: false }
    }
}

/// One line of a diff.
#[derive(Debug)]
pub enum DiffLine {
    Context(String),
    Addition(String),
    Deletion(String),
}

/// A diff line as plain values.
pub enum DiffLineView {
    Context(Seq<char>),
    Addition(Seq<char>),
    Deletion(Seq<char>),
}

impl View for DiffLine {
    type V = DiffLineView;

    open spec fn view(&self) -> DiffLineView {
        match self {
            DiffLine::Context(s) => DiffLineView::Context(s@),
            DiffLine::Addition(s) => DiffLineView::Addition(s@),
            DiffLine::Deletion(s) => DiffLineView::Deletion(s@),
        }
    }
}

/// The outcome of a diff: counts and the lines in order.
#[derive(Debug)]
pub struct DiffResult {
    pub additions: usize,
    pub deletions: usize,
    pub changes: Vec<DiffLine>,
}

/// The whole-text diff: nothing for equal texts, else every old line deleted
/// then every new line added.
pub open spec fn whole_text_diff(old: Seq<char>, new: Seq<char>) -> Seq<DiffLineView> {
    if old == new {
        seq![]
    } else {
        lines_of(old).map_values(|l: Seq<char>| DiffLineView::Deletion(l)) + lines_of(
            new,
        ).map_values(|l: Seq<char>| DiffLineView::Addition(l))
    }
}

/// Compares two texts line by line as a whole: equal texts give an empty
/// diff; otherwise all old lines are deletions and all new lines additions.
pub fn diff_strings(old: &str, new: &str, options: &DiffOptions) -> (r: Result<DiffResult, FlowError>)
    ensures
        r matches Ok(d) && d.changes@.map_values(|l: DiffLine| l@) == whole_text_diff(old@, new@)
            && d.deletions == if old@ == new@ {
            0
        } else {
            lines_of(old@).len()
        } && d.additions == if old@ == new@ {
            0
        } else {
            lines_of(new@).len()
        },
{
    if str_eq(old, new) {
        let r = DiffResult { additions: 0, deletions: 0, changes: Vec::new() };
        assert(r.changes@.map_values(|l: DiffLine| l@) =~= whole_text_diff(old@, new@));
        return Ok(r);
    }
    let old_lines = str_lines(old);
    let new_lines = str_lines(new);
    let mut changes: Vec<DiffLine> = Vec::new();
    let ghost dels = lines_of(old@).map_values(|l: Seq<char>| DiffLineView::Deletion(l));
    let ghost adds = lines_of(new@).map_values(|l: Seq<char>| DiffLineView::Addition(l));
    let mut i: usize = 0;
    while i < old_lines.len()
        invariant
            0 <= i <= old_lines.len(),
            old_lines@.map_values(|l: String| l@) == lines_of(old@),
            dels == lines_of(old@).map_values(|l: Seq<char>| DiffLineView::Deletion(l)),
            changes@.map_values(|l: DiffLine| l@) == dels.subrange(0, i as int),
        decreases old_lines.len() - i,
    {
        let line = DiffLine::Deletion(old_lines[i].clone());
        let ghost prev = changes@;
        changes.push(line);
        proof {
            assert(old_lines@[i as int]@ == lines_of(old@)[i as int]);
            assert(line@ == dels[i as int]);
            assert(changes@ == prev.push(line));
            assert(changes@.map_values(|l: DiffLine| l@) =~= prev.map_values(|l: DiffLine| l@).push(line@));
            assert(changes@.map_values(|l: DiffLine| l@) =~= dels.subrange(0, i as int + 1));
        }
        i = i + 1;
    }
    let deletions = i;
    let mut j: usize = 0;
    while j < new_lines.len()
        invariant
            0 <= j <= new_lines.len(),
            deletions == old_lines.len(),
            new_lines@.map_values(|l: String| l@) == lines_of(new@),
            adds == lines_of(new@).map_values(|l: Seq<char>| DiffLineView::Addition(l)),
            dels == lines_of(old@).map_values(|l: Seq<char>| DiffLineView::Deletion(l)),
            changes@.map_values(|l: DiffLine| l@) == dels + adds.subrange(0, j as int),
        decreases new_lines.len() - j,
    {
        let line = DiffLine::Addition(new_lines[j].clone());
        let ghost prev = changes@;
        changes.push(line);
        proof {
            assert(new_lines@[j as int]@ == lines_of(new@)[j as int]);
            assert(line@ == adds[j as int]);
            assert(changes@ == prev.push(line));
            assert(changes@.map_values(|l: DiffLine| l@) =~= prev.map_values(|l: DiffLine| l@).push(line@));
            assert(changes@.map_values(|l: DiffLine| l@) =~= dels + adds.subrange(0, j as int + 1));
        }
        j = j + 1;
    }
    assert(adds.subrange(0, adds.len() as int) =~= adds);
    assert(old_lines@.map_values(|l: String| l@).len() == old_lines@.len());
    assert(new_lines@.map_values(|l: String| l@).len() == new_lines@.len());
    Ok(DiffResult { additions: j, deletions, changes })
}

} // verus!

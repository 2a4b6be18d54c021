use std::ops::Deref;
use vstd::prelude::*;
use crate::intention::Intention;
use crate::text::{lower_of, str_eq, str_to_lowercase, str_words, strings_view, words_of};

verus! {

/// Two intentions this close in time, in seconds, count as near each other.
pub const SECONDS_PER_DAY: i64 = 86400;

/// The distinct lowercase words of a goal.
pub open spec fn goal_words(goal: Seq<char>) -> Set<Seq<char>> {
    words_of(lower_of(goal)).to_set()
}

pub open spec fn abs_diff(a: i64, b: i64) -> int {
    if a >= b {
        a - b
    } else {
        b - a
    }
}

/// What relates two intentions: their distinct goal words and tags, how many
/// of each they share, whether the author is the same, and whether they were
/// made within a day of each other.
#[derive(Debug, Clone, Copy)]
pub struct SimilarityFactors {
    pub self_words: usize,
    pub other_words: usize,
    pub shared_words: usize,
    pub self_tags: usize,
    pub other_tags: usize,
    pub shared_tags: usize,
    pub same_author: bool,
    pub within_a_day: bool,
}

fn contains_text(v: &Vec<String>, s: &str) -> (r: bool)
    ensures
        r == strings_view(v@).contains(s@),
{
    let mut i: usize = 0;
    while i < v.len()
        invariant
            0 <= i <= v.len(),
            forall|j: int| 0 <= j < i ==> strings_view(v@)[j] != s@,
        decreases v.len() - i,
    {
        if str_eq(v[i].deref(), s) {
            assert(strings_view(v@)[i as int] == s@);
            return true;
        }
        i = i + 1;
    }
    false
}

/// The strings without repeats, as a duplicate-free list.
fn distinct(v: &Vec<String>) -> (r: Vec<String>)
    ensures
        strings_view(r@).no_duplicates(),
        strings_view(r@).to_set() == strings_view(v@).to_set(),
{
    let mut r: Vec<String> = Vec::new();
    let mut i: usize = 0;
    while i < v.len()
        invariant
            0 <= i <= v.len(),
            strings_view(r@).no_duplicates(),
            strings_view(r@).to_set() == strings_view(v@).subrange(0, i as int).to_set(),
        decreases v.len() - i,
    {
        let ghost pre = strings_view(v@).subrange(0, i as int);
        let ghost x = strings_view(v@)[i as int];
        proof {
            assert(strings_view(v@).subrange(0, i as int + 1) =~= pre.push(x));
            pre.lemma_push_to_set_commute(x);
        }
        if !contains_text(&r, v[i].deref()) {
            let ghost before = strings_view(r@);
            r.push(v[i].clone());
            proof {
                assert(strings_view(r@) =~= before.push(x));
                before.lemma_push_to_set_commute(x);
            }
        } else {
            assert(strings_view(r@).to_set().contains(x));
            assert(pre.push(x).to_set() =~= strings_view(r@).to_set());
        }
        i = i + 1;
    }
    assert(strings_view(v@).subrange(0, v@.len() as int) =~= strings_view(v@));
    r
}

/// How many of `a`'s strings occur in `b`.
fn count_shared(a: &Vec<String>, b: &Vec<String>) -> (r: usize)
    requires
        strings_view(a@).no_duplicates(),
    ensures
        r == strings_view(a@).to_set().intersect(strings_view(b@).to_set()).len(),
{
    let ghost sb = strings_view(b@).to_set();
    assert(strings_view(a@).subrange(0, 0).to_set().intersect(sb) =~= Set::<Seq<char>>::empty());
    let mut count: usize = 0;
    let mut i: usize = 0;
    while i < a.len()
        invariant
            0 <= i <= a.len(),
            strings_view(a@).no_duplicates(),
            sb == strings_view(b@).to_set(),
            count <= i,
            count == strings_view(a@).subrange(0, i as int).to_set().intersect(sb).len(),
        decreases a.len() - i,
    {
        let ghost pre = strings_view(a@).subrange(0, i as int);
        let ghost x = strings_view(a@)[i as int];
        proof {
            assert(strings_view(a@).subrange(0, i as int + 1) =~= pre.push(x));
            pre.lemma_push_to_set_commute(x);
            assert(!pre.contains(x));
            assert(!pre.to_set().contains(x));
        }
        if contains_text(b, a[i].deref()) {
            assert(pre.push(x).to_set().intersect(sb) =~= pre.to_set().intersect(sb).insert(x));
            count = count + 1;
        } else {
            assert(pre.push(x).to_set().intersect(sb) =~= pre.to_set().intersect(sb));
        }
        i = i + 1;
    }
    assert(strings_view(a@).subrange(0, a@.len() as int) =~= strings_view(a@));
    count
}

/// Distinct counts of two string lists and of the strings they share.
fn overlap(a: &Vec<String>, b: &Vec<String>) -> (r: (usize, usize, usize))
    ensures
        r.0 == strings_view(a@).to_set().len(),
        r.1 == strings_view(b@).to_set().len(),
        r.2 == strings_view(a@).to_set().intersect(strings_view(b@).to_set()).len(),
{
    let da = distinct(a);
    let db = distinct(b);
    proof {
        strings_view(da@).unique_seq_to_set();
        strings_view(db@).unique_seq_to_set();
    }
    let shared = count_shared(&da, &db);
    (da.len(), db.len(), shared)
}

impl Intention {
    /// The factors the similarity of two intentions is scored from.
    pub fn similarity_factors(&self, other: &Intention) -> (r: SimilarityFactors)
        ensures
            r.self_words == goal_words(self.goal@).len(),
            r.other_words == goal_words(other.goal@).len(),
            r.shared_words == goal_words(self.goal@).intersect(goal_words(other.goal@)).len(),
            r.self_tags == strings_view(self.tags@).to_set().len(),
            r.other_tags == strings_view(other.tags@).to_set().len(),
            r.shared_tags == strings_view(self.tags@).to_set().intersect(
                strings_view(other.tags@).to_set(),
            ).len(),
            r.same_author == (self.author@ == other.author@),
            r.within_a_day == (abs_diff(self.timestamp, other.timestamp) < SECONDS_PER_DAY),
    {
        let self_lower = str_to_lowercase(self.goal.deref());
        let other_lower = str_to_lowercase(other.goal.deref());
        let self_words = str_words(self_lower.deref());
        let other_words = str_words(other_lower.deref());
        let (sw, ow, shw) = overlap(&self_words, &other_words);
        let (st, ot, sht) = overlap(&self.tags, &other.tags);
        let diff: i128 = self.timestamp as i128 - other.timestamp as i128;
        let distance: i128 = if diff < 0 {
            -diff
        } else {
            diff
        };
        SimilarityFactors {
            self_words: sw,
            other_words: ow,
            shared_words: shw,
            self_tags: st,
            other_tags: ot,
            shared_tags: sht,
            same_author: str_eq(self.author.deref(), other.author.deref()),
            within_a_day: distance < SECONDS_PER_DAY as i128,
        }
    }}

} // verus!

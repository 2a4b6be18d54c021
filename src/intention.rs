use std::ops::Deref;
use vstd::prelude::*;
use vstd::string::StrSliceExecFns;
use crate::error::FlowError;
use crate::objects::{random_uuid, UUID_V4_BITS, UUID_VERSION_VARIANT_MASK};
use crate::text::{
    has_substring, lower_of, push_text, str_contains, str_to_lowercase, str_trim, strings_view,
    trim_ws,
};

verus! {

/// Relies on chrono::Utc::now (with timestamp): the current time in whole
/// seconds since the Unix epoch, never before it (chrono panics on an earlier clock).
#[verifier::external_body]
pub(crate) fn now_seconds() -> (r: i64)
    ensures
        r >= 0,
{
    chrono::Utc::now().timestamp()
}

/// Confidence is held in thousandths: 0 stands for 0.0 and this for 1.0.
pub const CONFIDENCE_SCALE: i32 = 1000;

/// The longest goal accepted, in characters.
pub const MAX_GOAL_LEN: usize = 200;

/// The rationale recorded with a commit.
#[derive(Debug)]
pub struct Intention {
    pub id: u128,
    pub goal: String,
    pub context: Option<String>,
    pub impact: Option<String>,
    /// In thousandths, from 0 to `CONFIDENCE_SCALE`.
    pub confidence: i32,
    pub author: String,
    /// Seconds since the Unix epoch.
    pub timestamp: i64,
    pub tags: Vec<String>,
    pub related_intentions: Vec<u128>,
}

/// An intention as plain values.
pub struct IntentionView {
    pub id: u128,
    pub goal: Seq<char>,
    pub context: Option<Seq<char>>,
    pub impact: Option<Seq<char>>,
    pub confidence: i32,
    pub author: Seq<char>,
    pub timestamp: i64,
    pub tags: Seq<Seq<char>>,
    pub related_intentions: Seq<u128>,
}

pub open spec fn opt_text(o: Option<String>) -> Option<Seq<char>> {
    match o {
        Some(s) => Some(s@),
        None => None,
    }
}

impl View for Intention {
    type V = IntentionView;

    open spec fn view(&self) -> IntentionView {
        IntentionView {
            id: self.id,
            goal: self.goal@,
            context: opt_text(self.context),
            impact: opt_text(self.impact),
            confidence: self.confidence,
            author: self.author@,
            timestamp: self.timestamp,
            tags: strings_view(self.tags@),
            related_intentions: self.related_intentions@,
        }
    }
}

pub(crate) fn clone_opt_text(o: &Option<String>) -> (r: Option<String>)
    ensures
        opt_text(r) == opt_text(*o),
{
    match o {
        Some(s) => Some(s.clone()),
        None => None,
    }
}

pub(crate) fn clone_strings(v: &Vec<String>) -> (r: Vec<String>)
    ensures
        strings_view(r@) == strings_view(v@),
{
    let mut r: Vec<String> = Vec::new();
    let mut i: usize = 0;
    while i < v.len()
        invariant
            0 <= i <= v.len(),
            r@.len() == i,
            forall|j: int| 0 <= j < i ==> #[trigger] r@[j]@ == v@[j]@,
        decreases v.len() - i,
    {
        r.push(v[i].clone());
        i = i + 1;
    }
    assert(strings_view(r@) =~= strings_view(v@));
    r
}

impl Clone for Intention {
    fn clone(&self) -> (r: Self)
        ensures
            r@ == self@,
    {
        Intention {
            id: self.id,
            goal: self.goal.clone(),
            context: clone_opt_text(&self.context),
            impact: clone_opt_text(&self.impact),
            confidence: self.confidence,
            author: self.author.clone(),
            timestamp: self.timestamp,
            tags: clone_strings(&self.tags),
            related_intentions: self.related_intentions.clone(),
        }
    }
}

/// The one-tag list if the condition holds, else the empty list.
pub open spec fn tag_when(cond: bool, tag: Seq<char>) -> Seq<Seq<char>> {
    if cond {
        seq![tag]
    } else {
        seq![]
    }
}

/// The tags whose keywords occur in a (lowercase) text, in table order.
pub open spec fn keyword_tags(t: Seq<char>) -> Seq<Seq<char>> {
    tag_when(
        has_substring(t, "bug"@) || has_substring(t, "fix"@) || has_substring(t, "error"@),
        "bugfix"@,
    ) + tag_when(
        has_substring(t, "feature"@) || has_substring(t, "add"@) || has_substring(t, "implement"@),
        "feature"@,
    ) + tag_when(
        has_substring(t, "refactor"@) || has_substring(t, "cleanup"@) || has_substring(
            t,
            "optimize"@,
        ),
        "refactor"@,
    ) + tag_when(has_substring(t, "test"@), "test"@) + tag_when(
        has_substring(t, "doc"@) || has_substring(t, "comment"@),
        "documentation"@,
    ) + tag_when(
        has_substring(t, "security"@) || has_substring(t, "auth"@) || has_substring(t, "login"@),
        "security"@,
    ) + tag_when(
        has_substring(t, "performance"@) || has_substring(t, "speed"@) || has_substring(t, "fast"@),
        "performance"@,
    ) + tag_when(
        has_substring(t, "ui"@) || has_substring(t, "interface"@) || has_substring(t, "design"@),
        "ui"@,
    ) + tag_when(
        has_substring(t, "api"@) || has_substring(t, "endpoint"@) || has_substring(t, "service"@),
        "api"@,
    ) + tag_when(
        has_substring(t, "database"@) || has_substring(t, "db"@) || has_substring(t, "sql"@),
        "database"@,
    )
}

/// The tags of a text: the keyword tags, or `general` when none applies.
pub open spec fn derive_tags(t: Seq<char>) -> Seq<Seq<char>> {
    if keyword_tags(t).len() == 0 {
        seq!["general"@]
    } else {
        keyword_tags(t)
    }
}

pub open spec fn text_or_empty(o: Option<Seq<char>>) -> Seq<char> {
    match o {
        Some(s) => s,
        None => seq![],
    }
}

/// The text tags are derived from: goal, context and impact, separated by spaces.
pub open spec fn tag_source(goal: Seq<char>, context: Option<Seq<char>>, impact: Option<Seq<char>>) -> Seq<char> {
    goal + seq![' '] + text_or_empty(context) + seq![' '] + text_or_empty(impact)
}

fn push_tag_when(tags: &mut Vec<String>, cond: bool, tag: &str)
    ensures
        strings_view(final(tags)@) == strings_view(old(tags)@) + tag_when(cond, tag@),
{
    if cond {
        tags.push(tag.to_owned());
    }
    assert(strings_view(tags@) =~= strings_view(old(tags)@) + tag_when(cond, tag@));
}

/// The tags for an already lowercased text.
#[verifier::rlimit(50)]
pub fn tags_for_text(text: &str) -> (r: Vec<String>)
    ensures
        strings_view(r@) == derive_tags(text@),
{
    let mut tags: Vec<String> = Vec::new();
    let c = str_contains(text, "bug") || str_contains(text, "fix") || str_contains(text, "error");
    push_tag_when(&mut tags, c, "bugfix");
    assert(strings_view(tags@) =~= tag_when(c, "bugfix"@));
    let c = str_contains(text, "feature") || str_contains(text, "add") || str_contains(
        text,
        "implement",
    );
    push_tag_when(&mut tags, c, "feature");
    let c = str_contains(text, "refactor") || str_contains(text, "cleanup") || str_contains(
        text,
        "optimize",
    );
    push_tag_when(&mut tags, c, "refactor");
    let c = str_contains(text, "test");
    push_tag_when(&mut tags, c, "test");
    let c = str_contains(text, "doc") || str_contains(text, "comment");
    push_tag_when(&mut tags, c, "documentation");
    let c = str_contains(text, "security") || str_contains(text, "auth") || str_contains(
        text,
        "login",
    );
    push_tag_when(&mut tags, c, "security");
    let c = str_contains(text, "performance") || str_contains(text, "speed") || str_contains(
        text,
        "fast",
    );
    push_tag_when(&mut tags, c, "performance");
    let c = str_contains(text, "ui") || str_contains(text, "interface") || str_contains(
        text,
        "design",
    );
    push_tag_when(&mut tags, c, "ui");
    let c = str_contains(text, "api") || str_contains(text, "endpoint") || str_contains(
        text,
        "service",
    );
    push_tag_when(&mut tags, c, "api");
    let c = str_contains(text, "database") || str_contains(text, "db") || str_contains(text, "sql");
    push_tag_when(&mut tags, c, "database");
    if tags.len() == 0 {
        tags.push("general".to_owned());
        assert(strings_view(tags@) =~= seq!["general"@]);
    }
    tags
}

/// Whether a goal is empty once leading and trailing white space is removed.
pub open spec fn goal_is_blank(goal: Seq<char>) -> bool {
    trim_ws(goal).len() == 0
}

/// Whether a goal is longer than `MAX_GOAL_LEN` characters.
pub open spec fn goal_too_long(goal: Seq<char>) -> bool {
    goal.len() > MAX_GOAL_LEN
}

pub open spec fn confidence_in_range(c: i32) -> bool {
    0 <= c <= CONFIDENCE_SCALE
}

/// A confidence clamped into range.
pub open spec fn clamp_confidence(c: i32) -> i32 {
    if c < 0 {
        0
    } else if c > CONFIDENCE_SCALE {
        CONFIDENCE_SCALE
    } else {
        c
    }
}

impl Intention {
    /// Records a rationale with a fresh id and the current time; the
    /// confidence is clamped into range and the tags derived from the text.
    pub fn new(
        goal: String,
        context: Option<String>,
        impact: Option<String>,
        confidence: i32,
        author: String,
    ) -> (r: Intention)
        ensures
            r.id & UUID_VERSION_VARIANT_MASK == UUID_V4_BITS,
            r.goal@ == goal@,
            opt_text(r.context) == opt_text(context),
            opt_text(r.impact) == opt_text(impact),
            r.confidence == clamp_confidence(confidence),
            r.author@ == author@,
            strings_view(r.tags@) == derive_tags(
                lower_of(tag_source(goal@, opt_text(context), opt_text(impact))),
            ),
            r.related_intentions@.len() == 0,
            r.timestamp >= 0,
    {
        let tags = Self::generate_tags(goal.deref(), &context, &impact);
        let clamped = if confidence < 0 {
            0
        } else if confidence > CONFIDENCE_SCALE {
            CONFIDENCE_SCALE
        } else {
            confidence
        };
        Intention {
            id: random_uuid(),
            goal,
            context,
            impact,
            confidence: clamped,
            author,
            timestamp: now_seconds(),
            tags,
            related_intentions: Vec::new(),
        }
    }

    fn generate_tags(goal: &str, context: &Option<String>, impact: &Option<String>) -> (r: Vec<
        String,
    >)
        ensures
            strings_view(r@) == derive_tags(
                lower_of(tag_source(goal@, opt_text(*context), opt_text(*impact))),
            ),
    {
        let mut text = String::new();
        push_text(&mut text, goal);
        push_text(&mut text, " ");
        match context {
            Some(c) => push_text(&mut text, c.deref()),
            None => {},
        }
        push_text(&mut text, " ");
        match impact {
            Some(c) => push_text(&mut text, c.deref()),
            None => {},
        }
        proof {
            reveal_strlit(" ");
        }
        assert(text@ =~= tag_source(goal@, opt_text(*context), opt_text(*impact)));
        let lowered = str_to_lowercase(text.deref());
        tags_for_text(lowered.deref())
    }

    /// Checks the goal (not blank, at most `MAX_GOAL_LEN` characters) and the confidence range.
    pub fn validate(&self) -> (r: Result<(), FlowError>)
        ensures
            r is Ok <==> (!goal_is_blank(self.goal@) && !goal_too_long(self.goal@)
                && confidence_in_range(self.confidence)),
            goal_is_blank(self.goal@) ==> r matches Err(FlowError::InvalidIntention(_)),
            !goal_is_blank(self.goal@) && goal_too_long(self.goal@) ==> r matches Err(
                FlowError::InvalidIntention(_),
            ),
            !goal_is_blank(self.goal@) && !goal_too_long(self.goal@) && !confidence_in_range(
                self.confidence,
            ) ==> r == Err::<(), FlowError>(FlowError::InvalidConfidenceScore(self.confidence)),
    {
        if str_trim(self.goal.deref()).is_empty() {
            return Err(FlowError::InvalidIntention("Goal cannot be empty".to_owned()));
        }
        if self.goal.deref().unicode_len() > MAX_GOAL_LEN {
            return Err(FlowError::InvalidIntention("Goal too long (max 200 chars)".to_owned()));
        }
        if self.confidence < 0 || self.confidence > CONFIDENCE_SCALE {
            return Err(FlowError::InvalidConfidenceScore(self.confidence));
        }
        Ok(())
    }

}

} // verus!

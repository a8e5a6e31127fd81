//! The multi-shot protocol of the real-LLM benchmark: the fixed system prompt,
//! the feedback sent after a rejected round (generic in the BLIND condition,
//! the filter's first violation in the GATED one), the summary of an admissibility check,
//! the JSON span extracted from a raw reply, and the per-task dialogue session
//! that decides after every round whether to stop or to send feedback.

use vstd::prelude::*;
use crate::text::{decimal, append_decimal, text_equals};

verus! {

/// The system prompt that opens every dialogue.
pub open spec fn system_prompt_text() -> Seq<char> {
    "You are an expert concrete materials scientist with deep knowledge of thermodynamics, mix design, and structural engineering. You reason from physical first principles and never hallucinate numerical values. All responses are valid JSON only — no explanatory text outside the JSON."@
}

pub fn system_prompt() -> (s: String)
    ensures
        s@ == system_prompt_text(),
{
    String::from_str(
        "You are an expert concrete materials scientist with deep knowledge of thermodynamics, mix design, and structural engineering. You reason from physical first principles and never hallucinate numerical values. All responses are valid JSON only — no explanatory text outside the JSON.",
    )
}

/// The generic feedback of the BLIND condition after round `round`.
pub open spec fn blind_feedback_text(round: nat) -> Seq<char> {
    "Your Round "@ + decimal(round)
        + " prediction did not satisfy all requirements. Please revise your answer and try again."@
}

pub fn blind_feedback(round: usize) -> (s: String)
    ensures
        s@ == blind_feedback_text(round as nat),
{
    let mut s = String::from_str("Your Round ");
    append_decimal(&mut s, round);
    s.append(
        " prediction did not satisfy all requirements. Please revise your answer and try again.",
    );
    s
}

/// The feedback of the GATED condition: the filter's own violation message.
pub open spec fn gated_feedback_text(violation: Seq<char>, round: nat) -> Seq<char> {
    "Round "@ + decimal(round) + " gate decision: "@ + violation
        + "\nPlease revise your answer to address this specific physical constraint."@
}

pub fn gated_feedback(violation: &str, round: usize) -> (s: String)
    ensures
        s@ == gated_feedback_text(violation@, round as nat),
{
    let mut s = String::from_str("Round ");
    append_decimal(&mut s, round);
    s.append(" gate decision: ");
    s.append(violation);
    s.append("\nPlease revise your answer to address this specific physical constraint.");
    s
}

/// The experimental condition of a dialogue.
pub open spec fn is_gated_condition(condition: Seq<char>) -> bool {
    condition == "GATED"@
}

/// The feedback sent after a round: "ADMISSIBLE" when the filter admitted the
/// proposal, the filter's first violation in the GATED condition, and the
/// generic request to revise in every other condition.
pub open spec fn feedback_text(condition: Seq<char>, admissible: bool, violations: Seq<String>, round: nat) -> Seq<char> {
    if admissible {
        "ADMISSIBLE"@
    } else if is_gated_condition(condition) {
        gated_feedback_text(violations[0]@, round)
    } else {
        blind_feedback_text(round)
    }
}

pub fn feedback_for(condition: &str, admissible: bool, violations: &Vec<String>, round: usize) -> (s: String)
    requires
        admissible || !is_gated_condition(condition@) || violations@.len() > 0,
    ensures
        s@ == feedback_text(condition@, admissible, violations@, round as nat),
{
    if admissible {
        String::from_str("ADMISSIBLE")
    } else if text_equals(condition, "GATED") {
        gated_feedback(violations[0].as_str(), round)
    } else {
        blind_feedback(round)
    }
}

/// The summary line of an admissibility check with the given violations.
pub open spec fn correction_summary_text(violations: Seq<String>) -> Seq<char> {
    if violations.len() == 0 {
        "ADMISSIBLE: All thermodynamic and structural constraints satisfied."@
    } else {
        "REJECTED ("@ + decimal(violations.len()) + " violation"@
            + (if violations.len() > 1 { "s"@ } else { ""@ }) + "): "@ + violations[0]@
    }
}

/// Summarises an admissibility check: admissible exactly when there is no violation,
/// with the count of violations and the first one otherwise.
pub fn correction_summary(violations: &Vec<String>) -> (r: (bool, String))
    ensures
        r.0 == (violations@.len() == 0),
        r.1@ == correction_summary_text(violations@),
{
    if violations.len() == 0 {
        (true, String::from_str("ADMISSIBLE: All thermodynamic and structural constraints satisfied."))
    } else {
        let mut s = String::from_str("REJECTED (");
        append_decimal(&mut s, violations.len());
        s.append(" violation");
        if violations.len() > 1 {
            s.append("s");
        } else {
            s.append("");
        }
        s.append("): ");
        s.append(violations[0].as_str());
        (false, s)
    }
}

// ── The JSON span of a raw reply ──────────────────────────────────────────────

/// The position of the first `c` in `s`, if any.
pub open spec fn first_index_of(s: Seq<char>, c: char) -> Option<int>
    decreases s.len(),
{
    if s.len() == 0 {
        None
    } else if s[0] == c {
        Some(0)
    } else {
        match first_index_of(s.drop_first(), c) {
            Some(i) => Some(i + 1),
            None => None,
        }
    }
}

/// The position of the last `c` in `s`, if any.
pub open spec fn last_index_of(s: Seq<char>, c: char) -> Option<int>
    decreases s.len(),
{
    if s.len() == 0 {
        None
    } else if s.last() == c {
        Some(s.len() - 1)
    } else {
        last_index_of(s.drop_last(), c)
    }
}

/// Where the JSON object of a reply starts: its first '{', or the start.
pub open spec fn json_start(s: Seq<char>) -> int {
    match first_index_of(s, '{') {
        Some(i) => i,
        None => 0,
    }
}

/// Where the JSON object of a reply ends: after its last '}', or the end.
pub open spec fn json_end(s: Seq<char>) -> int {
    match last_index_of(s, '}') {
        Some(i) => i + 1,
        None => s.len() as int,
    }
}

proof fn lemma_first_index(s: Seq<char>, c: char, k: int)
    requires
        0 <= k <= s.len(),
        forall|i: int| 0 <= i < k ==> s[i] != c,
        k == s.len() || s[k] == c,
    ensures
        first_index_of(s, c) == (if k < s.len() { Some(k) } else { None::<int> }),
    decreases k,
{
    if k > 0 {
        lemma_first_index(s.drop_first(), c, k - 1);
    }
}

proof fn lemma_last_index(s: Seq<char>, c: char, k: int)
    requires
        0 <= k <= s.len(),
        forall|i: int| k <= i < s.len() ==> s[i] != c,
        k == 0 || s[k - 1] == c,
    ensures
        last_index_of(s, c) == (if k > 0 { Some(k - 1) } else { None::<int> }),
    decreases s.len() - k,
{
    if k < s.len() {
        lemma_last_index(s.drop_last(), c, k);
    }
}

fn find_first(s: &str, c: char) -> (r: Option<usize>)
    ensures
        first_index_of(s@, c) == (match r { Some(i) => Some(i as int), None => None::<int> }),
        r matches Some(i) ==> i < s@.len(),
{
    let n = s.unicode_len();
    let mut k: usize = 0;
    while k < n && s.get_char(k) != c
        invariant
            n == s@.len(),
            k <= n,
            forall|i: int| 0 <= i < k ==> s@[i] != c,
        decreases n - k,
    {
        k = k + 1;
    }
    proof { lemma_first_index(s@, c, k as int); }
    if k < n { Some(k) } else { None }
}

fn find_last(s: &str, c: char) -> (r: Option<usize>)
    ensures
        last_index_of(s@, c) == (match r { Some(i) => Some(i as int), None => None::<int> }),
        r matches Some(i) ==> i < s@.len(),
        s@.len() <= usize::MAX,
{
    let n = s.unicode_len();
    let mut k: usize = n;
    while k > 0 && s.get_char(k - 1) != c
        invariant
            n == s@.len(),
            k <= n,
            forall|i: int| k <= i < n ==> s@[i] != c,
        decreases k,
    {
        k = k - 1;
    }
    proof { lemma_last_index(s@, c, k as int); }
    if k > 0 { Some(k - 1) } else { None }
}

/// The JSON object of a raw reply: from its first '{' to its last '}'. The
/// reply must not close before it opens.
pub fn json_span(raw: &str) -> (r: &str)
    requires
        json_start(raw@) <= json_end(raw@),
    ensures
        r@ == raw@.subrange(json_start(raw@), json_end(raw@)),
{
    let start = match find_first(raw, '{') {
        Some(i) => i,
        None => 0,
    };
    let end = match find_last(raw, '}') {
        Some(i) => i + 1,
        None => raw.unicode_len(),
    };
    raw.substring_char(start, end)
}

// ── The dialogue session ──────────────────────────────────────────────────────

/// One message of a dialogue: its role and its content.
pub struct Message {
    pub role: String,
    pub content: String,
}

/// The state of the multi-shot dialogue on one task.
pub struct MultiShotSession {
    pub condition: String,
    pub max_rounds: usize,
    /// The number of rounds played so far.
    pub round: usize,
    /// The round whose proposal the filter first admitted.
    pub first_admissible_round: Option<usize>,
    /// Whether the dialogue has ended.
    pub finished: bool,
    pub messages: Vec<Message>,
}

impl MultiShotSession {
    /// The session's invariant: rounds stay within budget, the transcript holds
    /// the opening pair and two messages per rejected round, and the dialogue has
    /// ended once the budget is spent or a proposal was admitted.
    pub open spec fn wf(&self) -> bool {
        &&& self.round <= self.max_rounds
        &&& self.first_admissible_round matches Some(r) ==> self.finished && r < self.max_rounds
        &&& self.round == self.max_rounds ==> self.finished
        &&& self.messages@.len() >= 2
    }

    /// Opens a dialogue: the system prompt, then the task brief.
    pub fn new(condition: &str, brief: &str, max_rounds: usize) -> (s: Self)
        ensures
            s.wf(),
            s.condition@ == condition@,
            s.max_rounds == max_rounds,
            s.round == 0,
            s.first_admissible_round is None,
            s.finished == (max_rounds == 0),
            s.messages@.len() == 2,
            s.messages@[0].role@ == "system"@,
            s.messages@[0].content@ == system_prompt_text(),
            s.messages@[1].role@ == "user"@,
            s.messages@[1].content@ == brief@,
    {
        let mut messages: Vec<Message> = Vec::new();
        messages.push(Message { role: String::from_str("system"), content: system_prompt() });
        messages.push(Message { role: String::from_str("user"), content: String::from_str(brief) });
        MultiShotSession {
            condition: String::from_str(condition),
            max_rounds,
            round: 0,
            first_admissible_round: None,
            finished: max_rounds == 0,
            messages,
        }
    }

    /// The prompt shown in the current round: the brief in round 0, otherwise
    /// the last message sent.
    pub open spec fn shown_prompt(&self, brief: Seq<char>) -> Seq<char> {
        if self.round == 0 { brief } else { self.messages@.last().content@ }
    }

    pub fn prompt_shown(&self, brief: &str) -> (s: String)
        requires
            self.wf(),
        ensures
            s@ == self.shown_prompt(brief@),
    {
        if self.round == 0 {
            String::from_str(brief)
        } else {
            let last = self.messages.len() - 1;
            self.messages[last].content.clone()
        }
    }

    /// Ends the dialogue because the model could not be reached.
    pub fn abort(&mut self)
        requires
            old(self).wf(),
        ensures
            final(self).wf(),
            final(self).finished,
            final(self).round == old(self).round,
            final(self).first_admissible_round == old(self).first_admissible_round,
            final(self).messages@ == old(self).messages@,
    {
        self.finished = true;
    }

    /// Records the filter's verdict on the current round's reply and returns the
    /// feedback of that round. An admitted proposal ends the dialogue; a rejected
    /// one appends the reply and the feedback to the transcript and moves on to
    /// the next round, ending the dialogue when the budget is spent.
    pub fn record_round(&mut self, raw: String, admissible: bool, violations: &Vec<String>) -> (feedback: String)
        requires
            old(self).wf(),
            !old(self).finished,
            admissible || !is_gated_condition(old(self).condition@) || violations@.len() > 0,
        ensures
            final(self).wf(),
            feedback@ == feedback_text(old(self).condition@, admissible, violations@, old(self).round as nat),
            final(self).condition == old(self).condition,
            final(self).max_rounds == old(self).max_rounds,
            admissible ==> final(self).finished && final(self).first_admissible_round == Some(old(self).round)
                && final(self).round == old(self).round && final(self).messages@ == old(self).messages@,
            !admissible ==> final(self).round == old(self).round + 1
                && final(self).first_admissible_round is None
                && final(self).finished == (final(self).round == final(self).max_rounds)
                && final(self).messages@.len() == old(self).messages@.len() + 2
                && final(self).messages@.subrange(0, old(self).messages@.len() as int) == old(self).messages@
                && final(self).messages@[old(self).messages@.len() as int].role@ == "assistant"@
                && final(self).messages@[old(self).messages@.len() as int].content@ == raw@
                && final(self).messages@.last().role@ == "user"@
                && final(self).messages@.last().content@ == feedback@,
    {
        let feedback = feedback_for(self.condition.as_str(), admissible, violations, self.round);
        if admissible {
            self.first_admissible_round = Some(self.round);
            self.finished = true;
        } else {
            self.messages.push(Message { role: String::from_str("assistant"), content: raw });
            self.messages.push(Message { role: String::from_str("user"), content: feedback.clone() });
            self.round = self.round + 1;
            if self.round == self.max_rounds {
                self.finished = true;
            }
        }
        feedback
    }
}

/// After a rejected round the next round is shown exactly the feedback of the
/// rejected one; an admitted round ends the dialogue with that round recorded.
pub proof fn rejected_feedback_becomes_next_prompt(
    before: MultiShotSession,
    after: MultiShotSession,
    raw: Seq<char>,
    admissible: bool,
    violations: Seq<String>,
    feedback: Seq<char>,
    brief: Seq<char>,
)
    requires
        before.wf(),
        !before.finished,
        admissible || !is_gated_condition(before.condition@) || violations.len() > 0,
        feedback == feedback_text(before.condition@, admissible, violations, before.round as nat),
        !admissible ==> after.round == before.round + 1 && after.messages@.len()
            == before.messages@.len() + 2 && after.messages@.last().content@ == feedback,
        admissible ==> after.finished && after.first_admissible_round == Some(before.round),
    ensures
        !admissible ==> after.shown_prompt(brief) == feedback,
        !admissible && is_gated_condition(before.condition@) ==> after.shown_prompt(brief)
            == gated_feedback_text(violations[0]@, before.round as nat),
        admissible ==> after.finished && after.first_admissible_round == Some(before.round),
{
}

// ── Prompt sheet for the interactive agent ────────────────────────────────────

/// What an interactive agent is shown of a task.
pub struct TaskBrief {
    pub id: String,
    pub level: String,
    pub description: String,
    pub brief: String,
}

/// The sheet section of one task: its heading, description, brief and an
/// empty JSON block to answer in.
pub open spec fn brief_section(t: TaskBrief) -> Seq<char> {
    "## TASK "@ + t.id@ + " ("@ + t.level@ + ")\n"@
        + "### Description: "@ + t.description@ + "\n\n"@
        + "### Round 0 — BLIND Condition (no gate feedback)\n"@
        + t.brief@
        + "\n\n### [Agent responds here — paste JSON below]\n\n"@
        + "```json\n{}\n```\n\n"@
        + "---\n\n"@
}

/// The heading of the sheet.
pub open spec fn sheet_header() -> Seq<char> {
    "# PATH B MULTI-SHOT — INTERACTIVE (CURSOR) TEST AGENT\n"@
        + "# Instructions: For each task below, provide your JSON response.\n"@
        + "# This file will be evaluated by path_b_multi_shot --mode evaluate-cursor\n\n"@
}

/// The sections of the first `n` tasks.
pub open spec fn sections(ts: Seq<TaskBrief>, n: nat) -> Seq<char>
    decreases n,
{
    if n == 0 || n > ts.len() {
        Seq::empty()
    } else {
        sections(ts, (n - 1) as nat) + brief_section(ts[n - 1])
    }
}

/// The full prompt sheet: the heading, then one section per task in order.
pub fn prompt_sheet(tasks: &Vec<TaskBrief>) -> (s: String)
    ensures
        s@ == sheet_header() + sections(tasks@, tasks@.len()),
{
    let mut s = String::from_str("# PATH B MULTI-SHOT — INTERACTIVE (CURSOR) TEST AGENT\n");
    s.append("# Instructions: For each task below, provide your JSON response.\n");
    s.append("# This file will be evaluated by path_b_multi_shot --mode evaluate-cursor\n\n");
    let mut i: usize = 0;
    while i < tasks.len()
        invariant
            i <= tasks@.len(),
            s@ == sheet_header() + sections(tasks@, i as nat),
        decreases tasks@.len() - i,
    {
        let t = &tasks[i];
        s.append("## TASK ");
        s.append(t.id.as_str());
        s.append(" (");
        s.append(t.level.as_str());
        s.append(")\n");
        s.append("### Description: ");
        s.append(t.description.as_str());
        s.append("\n\n");
        s.append("### Round 0 — BLIND Condition (no gate feedback)\n");
        s.append(t.brief.as_str());
        s.append("\n\n### [Agent responds here — paste JSON below]\n\n");
        s.append("```json\n{}\n```\n\n");
        s.append("---\n\n");
        proof {
            assert(s@ =~= sheet_header() + sections(tasks@, (i + 1) as nat));
        }
        i = i + 1;
    }
    s
}

} // verus!

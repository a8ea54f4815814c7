//! Completion candidates and the result handed back to the editor.

use crate::text::{utf16_len, no_newline, Position, Range};
use vstd::prelude::*;
use vstd::std_specs::iter::IteratorSpec;
use vstd::string::StringExecFns;

verus! {

broadcast use vstd::string::group_string_axioms;

/// One completion offered to the editor.
pub struct CopilotCyclingCompletion {
    /// The text that the completion inserts.
    pub display_text: String,
    /// The cursor line's text before the cursor, followed by `display_text`.
    pub text: String,
    /// From the start of the cursor's line to the end of the first line of `text`.
    pub range: Range,
    pub position: Position,
}

/// `k` is where the first line of `s` ends: at its first line feed, or at its end.
pub open spec fn is_first_break(s: Seq<char>, k: int) -> bool {
    &&& 0 <= k <= s.len()
    &&& no_newline(s.take(k))
    &&& (k == s.len() || s[k] == '\n')
}

/// The index where the first line of `s` ends.
pub open spec fn first_break(s: Seq<char>) -> int {
    choose|k: int| is_first_break(s, k)
}

/// The column, in UTF-16 code units, where the first line of `s` ends; at
/// most `u32::MAX`.
pub open spec fn first_line_end_column(s: Seq<char>) -> u32 {
    let w = utf16_len(s.take(first_break(s)));
    if w > u32::MAX {
        u32::MAX
    } else {
        w as u32
    }
}

/// `c` is the candidate built from the completion text `display`, for a
/// cursor at `pos` whose line begins with `line_prefix`.
pub open spec fn is_candidate_for(
    c: CopilotCyclingCompletion,
    display: Seq<char>,
    line_prefix: Seq<char>,
    pos: Position,
) -> bool {
    &&& c.display_text@ == display
    &&& c.text@ == line_prefix + display
    &&& c.range.start == Position { line: pos.line, character: 0 }
    &&& c.range.end == Position { line: pos.line, character: first_line_end_column(c.text@) }
    &&& c.position == pos
}

proof fn lemma_first_break_unique(s: Seq<char>, a: int, b: int)
    requires
        is_first_break(s, a),
        is_first_break(s, b),
    ensures
        a == b,
{
    if a < b {
        assert(s.take(b)[a] == s[a]);
    } else if b < a {
        assert(s.take(a)[b] == s[b]);
    }
}

/// Builds the candidate for the completion text `text` at `position`, on a
/// line that begins with `line_before`.
pub fn create_item(text: String, line_before: &String, position: Position) -> (r:
    CopilotCyclingCompletion)
    ensures
        is_candidate_for(r, text@, line_before@, position),
{
    let display_text = text.clone();
    let full = line_before.clone().concat(text.as_str());
    let ghost s = full@;
    let mut width: u64 = 0;
    let ghost mut k: int = 0;
    let mut chars = full.as_str().chars();
    loop
        invariant_except_break
            chars.remaining() == s.skip(k),
        invariant
            0 <= k <= s.len(),
            no_newline(s.take(k)),
            width == if utf16_len(s.take(k)) > u32::MAX {
                (u32::MAX + 1) as nat
            } else {
                utf16_len(s.take(k))
            },
        ensures
            k == s.len() || s[k] == '\n',
        decreases s.len() - k,
    {
        match chars.next() {
            None => {
                break;
            },
            Some(c) => {
                if c == '\n' {
                    break;
                }
                proof {
                    assert(s.skip(k).len() > 0);
                    assert(s.take(k + 1).drop_last() =~= s.take(k));
                    assert(s.skip(k).drop_first() =~= s.skip(k + 1));
                }
                if width <= u32::MAX as u64 {
                    if (c as u32) >= 0x10000 {
                        width = width + 2;
                    } else {
                        width = width + 1;
                    }
                    if width > u32::MAX as u64 {
                        width = u32::MAX as u64 + 1;
                    }
                }
                proof {
                    k = k + 1;
                }
            },
        }
    }
    proof {
        assert(is_first_break(s, k));
        lemma_first_break_unique(s, k, first_break(s));
    }
    let end_char: u32 = if width > u32::MAX as u64 {
        u32::MAX
    } else {
        width as u32
    };
    CopilotCyclingCompletion {
        display_text,
        text: full,
        range: Range {
            start: Position { line: position.line, character: 0 },
            end: Position { line: position.line, character: end_char },
        },
        position,
    }
}

/// The result of one completion request: candidates, or the reason why there
/// are none.
pub struct CopilotCompletionResponse {
    pub completions: Vec<CopilotCyclingCompletion>,
    pub cancellation_reason: Option<String>,
}

/// A result is either a list of candidates without a reason, or empty with a
/// reason: never partly cancelled.
pub open spec fn response_wf(r: CopilotCompletionResponse) -> bool {
    r.cancellation_reason is Some ==> r.completions@.len() == 0
}

/// `r` is an empty result whose reason is `reason`.
pub open spec fn is_empty_with_reason(r: CopilotCompletionResponse, reason: Seq<char>) -> bool {
    &&& r.completions@.len() == 0
    &&& r.cancellation_reason is Some
    &&& r.cancellation_reason->Some_0@ == reason
}

/// `r` holds, in order, the candidates built from `texts`, and no reason.
pub open spec fn holds_candidates(
    r: CopilotCompletionResponse,
    texts: Seq<Seq<char>>,
    line_prefix: Seq<char>,
    pos: Position,
) -> bool {
    &&& r.cancellation_reason is None
    &&& r.completions@.len() == texts.len()
    &&& forall|i: int|
        0 <= i < texts.len() ==> is_candidate_for(
            #[trigger] r.completions@[i],
            texts[i],
            line_prefix,
            pos,
        )
}

/// The empty result of a request that a newer request for the same document
/// has replaced.
pub fn superseded() -> (r: CopilotCompletionResponse)
    ensures
        is_empty_with_reason(r, "Superseded"@),
        response_wf(r),
{
    CopilotCompletionResponse {
        completions: Vec::new(),
        cancellation_reason: Some(String::from_str("Superseded")),
    }
}

/// The empty result of a request that was cancelled.
pub fn on_cancel() -> (r: CopilotCompletionResponse)
    ensures
        is_empty_with_reason(r, "RequestCancelled"@),
        response_wf(r),
{
    CopilotCompletionResponse {
        completions: Vec::new(),
        cancellation_reason: Some(String::from_str("RequestCancelled")),
    }
}

/// The empty result of a request at a position outside its document.
pub fn invalid_position() -> (r: CopilotCompletionResponse)
    ensures
        is_empty_with_reason(r, "InvalidPosition"@),
        response_wf(r),
{
    CopilotCompletionResponse {
        completions: Vec::new(),
        cancellation_reason: Some(String::from_str("InvalidPosition")),
    }
}

/// An empty result that carries `reason`.
pub fn failed(reason: String) -> (r: CopilotCompletionResponse)
    ensures
        is_empty_with_reason(r, reason@),
        response_wf(r),
{
    CopilotCompletionResponse { completions: Vec::new(), cancellation_reason: Some(reason) }
}

impl CopilotCyclingCompletion {
    /// Builds the candidate for `text` at `position` on a line that begins
    /// with `line_before`.
    pub fn new(text: String, line_before: String, position: Position) -> (r: Self)
        ensures
            is_candidate_for(r, text@, line_before@, position),
    {
        create_item(text, &line_before, position)
    }

    /// A copy of this candidate.
    pub fn copy(&self) -> (r: Self)
        ensures
            r == *self,
    {
        CopilotCyclingCompletion {
            display_text: self.display_text.clone(),
            text: self.text.clone(),
            range: self.range,
            position: self.position,
        }
    }
}

impl CopilotCompletionResponse {
    /// The result holding one candidate for each completion text, in order.
    pub fn from_str_vec(str_vec: Vec<String>, line_before: String, pos: Position) -> (r: Self)
        ensures
            holds_candidates(r, str_vec@.map_values(|t: String| t@), line_before@, pos),
            response_wf(r),
    {
        let mut completions: Vec<CopilotCyclingCompletion> = Vec::new();
        let mut i: usize = 0;
        while i < str_vec.len()
            invariant
                i <= str_vec.len(),
                completions@.len() == i,
                forall|j: int|
                    0 <= j < i ==> is_candidate_for(
                        #[trigger] completions@[j],
                        str_vec@[j]@,
                        line_before@,
                        pos,
                    ),
            decreases str_vec.len() - i,
        {
            let item = create_item(str_vec[i].clone(), &line_before, pos);
            completions.push(item);
            i = i + 1;
        }
        CopilotCompletionResponse { completions, cancellation_reason: None }
    }

    /// A copy of this result.
    pub fn copy(&self) -> (r: Self)
        ensures
            r.completions@ == self.completions@,
            r.cancellation_reason == self.cancellation_reason,
    {
        let mut completions: Vec<CopilotCyclingCompletion> = Vec::new();
        let mut i: usize = 0;
        while i < self.completions.len()
            invariant
                i <= self.completions.len(),
                completions@ == self.completions@.take(i as int),
            decreases self.completions.len() - i,
        {
            completions.push(self.completions[i].copy());
            proof {
                assert(self.completions@.take(i + 1) =~= self.completions@.take(i as int).push(
                    self.completions@[i as int],
                ));
            }
            i = i + 1;
        }
        proof {
            assert(self.completions@.take(i as int) =~= self.completions@);
        }
        let cancellation_reason = match &self.cancellation_reason {
            Some(m) => Some(m.clone()),
            None => None,
        };
        CopilotCompletionResponse { completions, cancellation_reason }
    }
}

} // verus!

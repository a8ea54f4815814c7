//! Assembly of completion candidates from the events of a streamed response.
//!
//! Each event carries choices: a piece of text for a slot, and possibly a
//! finish reason. Text for a slot accumulates until the slot finishes; a
//! finished slot becomes a candidate at once, and a later choice for the same
//! slot starts afresh.

use crate::completion::{
    create_item,
    failed,
    holds_candidates,
    is_candidate_for,
    is_empty_with_reason,
    response_wf,
    CopilotCompletionResponse,
    CopilotCyclingCompletion,
};
use crate::text::Position;
use vstd::prelude::*;
use vstd::string::StringExecFns;

verus! {

/// One choice of a streamed event.
pub struct Choices {
    pub text: String,
    /// The slot the text belongs to; where absent, the choice's place in its event.
    pub index: Option<u32>,
    pub finish_reason: Option<String>,
    pub logprobs: Option<String>,
}

/// A decoded event payload.
pub struct CopilotAnswer {
    pub id: Option<String>,
    pub model: String,
    pub created: u128,
    pub choices: Vec<Choices>,
}

/// What one event of the stream says.
pub enum CopilotResponse {
    Answer(CopilotAnswer),
    /// The stream's closing sentinel.
    Done,
    /// A payload that could not be read, with the reason.
    Error(String),
}

/// Classifies an event whose payload is `data`. `decoded` is the outcome of
/// reading `data` as a choices structure; it is used unless `data` is the
/// closing sentinel `[DONE]`.
pub fn handle_event(data: &str, decoded: Result<CopilotAnswer, String>) -> (r: CopilotResponse)
    ensures
        data@ == "[DONE]"@ ==> r is Done,
        data@ != "[DONE]"@ ==> match decoded {
            Ok(a) => r == CopilotResponse::Answer(a),
            Err(e) => r == CopilotResponse::Error(e),
        },
{
    if String::from_str(data) == String::from_str("[DONE]") {
        CopilotResponse::Done
    } else {
        match decoded {
            Ok(a) => CopilotResponse::Answer(a),
            Err(e) => CopilotResponse::Error(e),
        }
    }
}

/// Text gathered so far for one slot.
pub struct Slot {
    pub index: u64,
    pub text: String,
}

/// Open accumulators, as slot keys and texts, in the order they were opened.
pub type OpenSlots = Seq<(int, Seq<char>)>;

/// The slot key of choice `c`, at place `place` in its event.
pub open spec fn slot_key(c: Choices, place: int) -> int {
    match c.index {
        Some(i) => i as int,
        None => place,
    }
}

/// `p` is the place of the first open accumulator for `key`, or the number
/// of accumulators if there is none.
pub open spec fn is_first_slot(open: OpenSlots, key: int, p: int) -> bool {
    &&& 0 <= p <= open.len()
    &&& forall|q: int| 0 <= q < p ==> open[q].0 != key
    &&& (p == open.len() || open[p].0 == key)
}

/// The place of the first open accumulator for `key`, or the number of
/// accumulators if there is none.
pub open spec fn first_slot(open: OpenSlots, key: int) -> int
    decreases open.len(),
{
    if open.len() == 0 {
        0
    } else if open[0].0 == key {
        0
    } else {
        1 + first_slot(open.drop_first(), key)
    }
}

/// The accumulators and the finished texts after a choice with text `text`
/// for slot `key`, that finishes the slot when `fin`.
pub open spec fn apply_choice(
    open: OpenSlots,
    sealed: Seq<Seq<char>>,
    key: int,
    text: Seq<char>,
    fin: bool,
) -> (OpenSlots, Seq<Seq<char>>) {
    let p = first_slot(open, key);
    let acc = if p < open.len() {
        open[p].1 + text
    } else {
        text
    };
    if fin {
        (
            if p < open.len() {
                open.remove(p)
            } else {
                open
            },
            sealed.push(acc),
        )
    } else {
        (
            if p < open.len() {
                open.update(p, (key, acc))
            } else {
                open.push((key, acc))
            },
            sealed,
        )
    }
}

/// The accumulators and finished texts after the choices `cs` of one event.
pub open spec fn apply_choices(open: OpenSlots, sealed: Seq<Seq<char>>, cs: Seq<Choices>) -> (
    OpenSlots,
    Seq<Seq<char>>,
)
    decreases cs.len(),
{
    if cs.len() == 0 {
        (open, sealed)
    } else {
        let prev = apply_choices(open, sealed, cs.drop_last());
        let c = cs.last();
        apply_choice(
            prev.0,
            prev.1,
            slot_key(c, cs.len() - 1),
            c.text@,
            c.finish_reason is Some,
        )
    }
}

/// The texts of the open accumulators, in order.
pub open spec fn open_texts(open: OpenSlots) -> Seq<Seq<char>> {
    open.map_values(|e: (int, Seq<char>)| e.1)
}

proof fn lemma_first_slot(open: OpenSlots, key: int, p: int)
    requires
        is_first_slot(open, key, p),
    ensures
        first_slot(open, key) == p,
    decreases open.len(),
{
    if open.len() > 0 && open[0].0 != key {
        let rest = open.drop_first();
        assert(is_first_slot(rest, key, p - 1));
        lemma_first_slot(rest, key, p - 1);
    }
}

/// `r` is what the stream gathered by `a` comes to: if a payload could not
/// be read, no candidates and its reason; otherwise the finished candidates,
/// then one for each accumulator still open, in order.
pub open spec fn is_final_result(a: StreamAssembler, r: CopilotCompletionResponse) -> bool {
    &&& response_wf(r)
    &&& match a.error {
        Some(e) => is_empty_with_reason(r, e@),
        None => holds_candidates(
            r,
            a.sealed_view() + open_texts(a.open_view()),
            a.line_prefix@,
            a.position,
        ),
    }
}

/// Gathers the candidates of one streamed response.
pub struct StreamAssembler {
    /// The cursor line's text before the cursor.
    pub line_prefix: String,
    pub position: Position,
    /// Accumulators that have not finished, in the order they were opened.
    pub open: Vec<Slot>,
    /// Candidates of the finished slots, in the order they finished.
    pub sealed: Vec<CopilotCyclingCompletion>,
    /// The reason recorded for the last payload that could not be read.
    pub error: Option<String>,
}

impl StreamAssembler {
    pub open spec fn open_view(&self) -> OpenSlots {
        self.open@.map_values(|s: Slot| (s.index as int, s.text@))
    }

    pub open spec fn sealed_view(&self) -> Seq<Seq<char>> {
        self.sealed@.map_values(|c: CopilotCyclingCompletion| c.display_text@)
    }

    /// Every finished candidate was built for this cursor.
    pub open spec fn wf(&self) -> bool {
        forall|i: int|
            0 <= i < self.sealed@.len() ==> is_candidate_for(
                #[trigger] self.sealed@[i],
                self.sealed@[i].display_text@,
                self.line_prefix@,
                self.position,
            )
    }

    /// An assembler for a cursor at `position` whose line begins with
    /// `line_prefix`; it starts with one empty accumulator, for slot 0.
    pub fn new(line_prefix: String, position: Position) -> (r: Self)
        ensures
            r.wf(),
            r.open_view() == seq![(0int, Seq::<char>::empty())],
            r.sealed_view() == Seq::<Seq<char>>::empty(),
            r.error is None,
            r.line_prefix == line_prefix,
            r.position == position,
    {
        let mut open: Vec<Slot> = Vec::new();
        open.push(Slot { index: 0, text: String::new() });
        let r = StreamAssembler {
            line_prefix,
            position,
            open,
            sealed: Vec::new(),
            error: None,
        };
        assert(r.open_view() =~= seq![(0int, Seq::<char>::empty())]);
        assert(r.sealed_view() =~= Seq::<Seq<char>>::empty());
        r
    }

    /// Adds `text` to the accumulator of slot `key`, opening one if the slot
    /// has none; if `finished`, the slot becomes a candidate and closes.
    pub fn apply_choice(&mut self, key: u64, text: &String, finished: bool)
        requires
            old(self).wf(),
        ensures
            final(self).wf(),
            (final(self).open_view(), final(self).sealed_view()) == apply_choice(
                old(self).open_view(),
                old(self).sealed_view(),
                key as int,
                text@,
                finished,
            ),
            final(self).line_prefix == old(self).line_prefix,
            final(self).position == old(self).position,
            final(self).error == old(self).error,
    {
        let ghost open0 = self.open_view();
        let ghost sealed0 = self.sealed_view();
        let mut p: usize = 0;
        while p < self.open.len() && self.open[p].index != key
            invariant
                p <= self.open@.len(),
                open0 == self.open_view(),
                forall|q: int| 0 <= q < p ==> open0[q].0 != key,
            decreases self.open@.len() - p,
        {
            p = p + 1;
        }
        proof {
            lemma_first_slot(open0, key as int, p as int);
        }
        if p < self.open.len() {
            let mut slot = self.open.remove(p);
            slot.text.append(text.as_str());
            if finished {
                let item = create_item(slot.text, &self.line_prefix, self.position);
                self.sealed.push(item);
                proof {
                    assert(self.open_view() =~= open0.remove(p as int));
                    assert(self.sealed_view() =~= sealed0.push(open0[p as int].1 + text@));
                }
            } else {
                self.open.insert(p, slot);
                proof {
                    assert(self.open_view() =~= open0.update(
                        p as int,
                        (key as int, open0[p as int].1 + text@),
                    ));
                    assert(self.sealed_view() =~= sealed0);
                }
            }
        } else {
            if finished {
                let item = create_item(text.clone(), &self.line_prefix, self.position);
                self.sealed.push(item);
                proof {
                    assert(self.open_view() =~= open0);
                    assert(self.sealed_view() =~= sealed0.push(text@));
                }
            } else {
                self.open.push(Slot { index: key, text: text.clone() });
                proof {
                    assert(self.open_view() =~= open0.push((key as int, text@)));
                    assert(self.sealed_view() =~= sealed0);
                }
            }
        }
    }

    /// Applies the choices of one event, in order.
    pub fn apply_answer(&mut self, choices: &Vec<Choices>)
        requires
            old(self).wf(),
        ensures
            final(self).wf(),
            (final(self).open_view(), final(self).sealed_view()) == apply_choices(
                old(self).open_view(),
                old(self).sealed_view(),
                choices@,
            ),
            final(self).line_prefix == old(self).line_prefix,
            final(self).position == old(self).position,
            final(self).error == old(self).error,
    {
        let ghost open0 = self.open_view();
        let ghost sealed0 = self.sealed_view();
        let mut i: usize = 0;
        while i < choices.len()
            invariant
                i <= choices@.len(),
                self.wf(),
                (self.open_view(), self.sealed_view()) == apply_choices(
                    open0,
                    sealed0,
                    choices@.take(i as int),
                ),
                self.line_prefix == old(self).line_prefix,
                self.position == old(self).position,
                self.error == old(self).error,
            decreases choices@.len() - i,
        {
            let c = &choices[i];
            let key: u64 = match c.index {
                Some(k) => k as u64,
                None => i as u64,
            };
            self.apply_choice(key, &c.text, c.finish_reason.is_some());
            proof {
                let cs = choices@.take(i + 1);
                assert(cs.drop_last() =~= choices@.take(i as int));
                assert(cs.last() == choices@[i as int]);
            }
            i = i + 1;
        }
        proof {
            assert(choices@.take(i as int) =~= choices@);
        }
    }

    /// Records why a payload could not be read; the stream goes on.
    pub fn record_error(&mut self, message: String)
        requires
            old(self).wf(),
        ensures
            final(self).wf(),
            final(self).error == Some(message),
            final(self).open_view() == old(self).open_view(),
            final(self).sealed_view() == old(self).sealed_view(),
            final(self).line_prefix == old(self).line_prefix,
            final(self).position == old(self).position,
    {
        self.error = Some(message);
    }

    /// The result at the end of the stream.
    pub fn finish(self) -> (r: CopilotCompletionResponse)
        requires
            self.wf(),
        ensures
            is_final_result(self, r),
    {
        let ghost texts = self.sealed_view() + open_texts(self.open_view());
        let StreamAssembler { line_prefix, position, open, sealed, error } = self;
        match error {
            Some(e) => failed(e),
            None => {
                let mut completions = sealed;
                let ghost n = completions@.len();
                let mut i: usize = 0;
                while i < open.len()
                    invariant
                        i <= open@.len(),
                        completions@.len() == n + i,
                        n + open@.len() == texts.len(),
                        forall|j: int|
                            0 <= j < n + i ==> is_candidate_for(
                                #[trigger] completions@[j],
                                texts[j],
                                line_prefix@,
                                position,
                            ),
                        forall|j: int| 0 <= j < open@.len() ==> texts[n + j] == open@[j].text@,
                    decreases open@.len() - i,
                {
                    let item = create_item(open[i].text.clone(), &line_prefix, position);
                    completions.push(item);
                    i = i + 1;
                }
                CopilotCompletionResponse { completions, cancellation_reason: None }
            },
        }
    }
}

/// Every candidate of a gathered result reads as the cursor line's text
/// before the cursor followed by the candidate's own text.
pub proof fn lemma_candidates_extend_line(a: StreamAssembler, r: CopilotCompletionResponse)
    requires
        is_final_result(a, r),
    ensures
        forall|i: int|
            0 <= i < r.completions@.len() ==> (#[trigger] r.completions@[i]).text@
                == a.line_prefix@ + r.completions@[i].display_text@,
{
    if a.error is None {
        let texts = a.sealed_view() + open_texts(a.open_view());
        assert forall|i: int| 0 <= i < r.completions@.len() implies (
        #[trigger] r.completions@[i]).text@ == a.line_prefix@ + r.completions@[i].display_text@ by {
            assert(is_candidate_for(r.completions@[i], texts[i], a.line_prefix@, a.position));
        }
    }
}

} // verus!

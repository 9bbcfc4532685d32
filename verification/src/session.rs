//! The session: editable draft fields, the previous-card carry-over, the
//! completion channel and the fired counter, with the reset / fire / poll
//! operations that the interactive collaborator drives.

use vstd::prelude::*;

use crate::card::{CardView, GuiAddCardsFields};
use crate::channel::{clone_sender, new_completion_channel, try_recv_card};
use crate::text::{
    audio_guide_of, create_audio_guide, encode_line_breaks, replace_newlines, trim_of, trim_str,
};

verus! {

/// The mathematical value of an optional card.
pub open spec fn opt_card_view(c: Option<GuiAddCardsFields>) -> Option<CardView> {
    match c {
        Some(p) => Some(p@),
        None => None,
    }
}

/// The part of the session that survives a reset: the completion channel's
/// two endpoints, the fired counter, and the previous-card carry-over.
#[derive(Debug)]
pub struct AppStateResistReset {
    pub req_complete: crossbeam::channel::Receiver<GuiAddCardsFields>,
    pub req_complete_s: crossbeam::channel::Sender<GuiAddCardsFields>,
    pub fired: i64,
    pub prev_card: Option<GuiAddCardsFields>,
    pub maintain_prev: bool,
}

impl Default for AppStateResistReset {
    /// A fresh carry-over: a new connected channel, a zero counter, no
    /// previous card and retention off.
    fn default() -> (r: Self)
        ensures
            r.fired == 0,
            r.prev_card is None,
            !r.maintain_prev,
    {
        let (req_complete_s, req_complete) = new_completion_channel();
        AppStateResistReset {
            req_complete,
            req_complete_s,
            fired: 0,
            prev_card: None,
            maintain_prev: false,
        }
    }
}

/// The whole session state: the reset-resistant part plus the draft fields
/// the user edits between submissions.
#[derive(Debug)]
pub struct AppState {
    pub r: AppStateResistReset,
    pub front: String,
    pub audio_guide: String,
    pub follow_front: bool,
    pub back: String,
}

/// The draft fields hold their defaults: every text empty, and the audio
/// guide following the front text.
pub open spec fn draft_is_default(s: AppState) -> bool {
    s.front@ == Seq::<char>::empty() && s.audio_guide@ == Seq::<char>::empty() && s.back@
        == Seq::<char>::empty() && s.follow_front
}

/// What `reset` does: the draft fields return to their defaults and the
/// reset-resistant part carries over unchanged.
pub open spec fn resets_to(pre: AppState, post: AppState) -> bool {
    draft_is_default(post) && post.r == pre.r
}

impl Default for AppState {
    /// A fresh session: default carry-over and default draft fields.
    fn default() -> (r: Self)
        ensures
            draft_is_default(r),
            r.r.fired == 0,
            r.r.prev_card is None,
            !r.r.maintain_prev,
    {
        AppState {
            r: Default::default(),
            front: String::new(),
            audio_guide: String::new(),
            follow_front: true,
            back: String::new(),
        }
    }
}

/// The snapshot one press of fire hands to its background task: the
/// normalized draft fields, a copy of the previous card, and a sender
/// endpoint of the completion channel.
pub struct FireJob {
    pub front: String,
    pub audio_guide: String,
    pub back: String,
    pub prev_card: Option<GuiAddCardsFields>,
    pub sender: crossbeam::channel::Sender<GuiAddCardsFields>,
}

impl AppState {
    /// Reconstructs the draft fields and the follow toggle to their
    /// defaults while preserving the reset-resistant part.
    pub fn reset(&mut self)
        ensures
            resets_to(*old(self), *final(self)),
    {
        self.front = String::new();
        self.audio_guide = String::new();
        self.back = String::new();
        self.follow_front = true;
    }

    /// Recomputes the draft audio guide from the draft front text; what the
    /// follow toggle triggers on an edit of the front.
    pub fn audio_guide_follow(&mut self)
        ensures
            final(self).audio_guide@ == audio_guide_of(old(self).front@),
            final(self).front == old(self).front,
            final(self).back == old(self).back,
            final(self).follow_front == old(self).follow_front,
            final(self).r == old(self).r,
    {
        self.audio_guide = create_audio_guide(self.front.as_str());
    }

    /// Starts one submission attempt: counts it at once and returns the
    /// snapshot the background task runs on. The counter grows by exactly
    /// one, whatever becomes of the attempt; the drafts and the previous
    /// card stay as they are.
    pub fn fire(&mut self) -> (job: FireJob)
        requires
            old(self).r.fired < i64::MAX,
        ensures
            final(self).r.fired == old(self).r.fired + 1,
            final(self).r.prev_card == old(self).r.prev_card,
            final(self).r.maintain_prev == old(self).r.maintain_prev,
            final(self).r.req_complete == old(self).r.req_complete,
            final(self).r.req_complete_s == old(self).r.req_complete_s,
            final(self).front == old(self).front,
            final(self).audio_guide == old(self).audio_guide,
            final(self).back == old(self).back,
            final(self).follow_front == old(self).follow_front,
            job.front@ == trim_of(old(self).front@),
            job.audio_guide@ == trim_of(old(self).audio_guide@),
            job.back@ == replace_newlines(trim_of(old(self).back@)),
            opt_card_view(job.prev_card) == opt_card_view(old(self).r.prev_card),
    {
        let front = trim_str(self.front.as_str());
        let audio_guide = trim_str(self.audio_guide.as_str());
        let back_trimmed = trim_str(self.back.as_str());
        let back = encode_line_breaks(back_trimmed.as_str());
        let prev_card = match &self.r.prev_card {
            Some(p) => Some(p.duplicate()),
            None => None,
        };
        let sender = clone_sender(&self.r.req_complete_s);
        self.r.fired = self.r.fired + 1;
        FireJob { front, audio_guide, back, prev_card, sender }
    }

    /// Drains at most one pending completion. When a card came through,
    /// the draft resets and the card becomes the next previous card exactly
    /// when retention is on; the fired counter and the channel endpoints
    /// are untouched. When nothing was pending, the state stays as it was.
    pub fn poll_completion(&mut self) -> (r: Option<GuiAddCardsFields>)
        ensures
            match r {
                Some(card) => {
                    &&& draft_is_default(*final(self))
                    &&& final(self).r.fired == old(self).r.fired
                    &&& final(self).r.maintain_prev == old(self).r.maintain_prev
                    &&& final(self).r.req_complete == old(self).r.req_complete
                    &&& final(self).r.req_complete_s == old(self).r.req_complete_s
                    &&& opt_card_view(final(self).r.prev_card) == (if old(self).r.maintain_prev {
                        Some(card@)
                    } else {
                        None::<CardView>
                    })
                },
                None => *final(self) == *old(self),
            },
    {
        match try_recv_card(&self.r.req_complete) {
            None => None,
            Some(card) => {
                self.reset();
                if self.r.maintain_prev {
                    let returned = card.duplicate();
                    self.r.prev_card = Some(card);
                    Some(returned)
                } else {
                    self.r.prev_card = None;
                    Some(card)
                }
            },
        }
    }
}

/// One fire step, seen on the counter alone: an attempt was counted.
pub open spec fn counts_one_attempt(pre: AppState, post: AppState) -> bool {
    post.r.fired == pre.r.fired + 1
}

/// Law of reset idempotence: resetting twice leaves the very draft state
/// one reset leaves, and still preserves the reset-resistant part.
pub proof fn lemma_reset_idempotent(s0: AppState, s1: AppState, s2: AppState)
    requires
        resets_to(s0, s1),
        resets_to(s1, s2),
    ensures
        s2.front@ == s1.front@,
        s2.audio_guide@ == s1.audio_guide@,
        s2.back@ == s1.back@,
        s2.follow_front == s1.follow_front,
        s2.r == s0.r,
{
}

/// Law of the fired counter: a run of N consecutive fire steps grows the
/// counter by exactly N, whatever became of each attempt.
pub proof fn lemma_fired_counts_attempts(states: Seq<AppState>)
    requires
        states.len() >= 1,
        forall|i: int|
            0 <= i < states.len() - 1 ==> counts_one_attempt(#[trigger] states[i], states[i + 1]),
    ensures
        states.last().r.fired == states[0].r.fired + states.len() - 1,
    decreases states.len(),
{
    if states.len() > 1 {
        let shorter = states.drop_last();
        assert forall|i: int| 0 <= i < shorter.len() - 1 implies counts_one_attempt(
            #[trigger] shorter[i],
            shorter[i + 1],
        ) by {
            assert(shorter[i] == states[i]);
            assert(shorter[i + 1] == states[i + 1]);
        }
        lemma_fired_counts_attempts(shorter);
        assert(shorter.last() == states[states.len() - 2]);
        assert(counts_one_attempt(states[states.len() - 2], states.last()));
    }
}

} // verus!

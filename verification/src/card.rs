//! The submittable card entity and the two synthesis paths: merging a draft
//! into a previous card, and building a fresh card from the external
//! source-of-truth snapshot.

use vstd::prelude::*;

use crate::text::{
    encode_line_breaks, replace_newlines, sanitize_html, sanitized_of, trim_of, trim_str,
};

verus! {

/// One submittable card: the named slots of the target schema.
#[derive(Debug, Clone)]
pub struct GuiAddCardsFields {
    pub front: String,
    pub back: String,
    pub back_paragraph: String,
    pub audio_guide: String,
    pub audio: String,
}

/// The mathematical value of a card: its five text fields.
pub ghost struct CardView {
    pub front: Seq<char>,
    pub back: Seq<char>,
    pub back_paragraph: Seq<char>,
    pub audio_guide: Seq<char>,
    pub audio: Seq<char>,
}

impl View for GuiAddCardsFields {
    type V = CardView;

    open spec fn view(&self) -> CardView {
        CardView {
            front: self.front@,
            back: self.back@,
            back_paragraph: self.back_paragraph@,
            audio_guide: self.audio_guide@,
            audio: self.audio@,
        }
    }
}

impl GuiAddCardsFields {
    /// A copy of the card that provably carries the same field values.
    pub fn duplicate(&self) -> (r: Self)
        ensures
            r@ == self@,
    {
        GuiAddCardsFields {
            front: self.front.clone(),
            back: self.back.clone(),
            back_paragraph: self.back_paragraph.clone(),
            audio_guide: self.audio_guide.clone(),
            audio: self.audio.clone(),
        }
    }
}

/// The card currently on screen in the study application, as plain text
/// fields pulled from the automation API's snapshot.
#[derive(Debug, Clone)]
pub struct GuiCurrentCardFields {
    pub kanji: String,
    pub kana: String,
    pub sentence_front: String,
    pub sentence_back: String,
    pub picture: String,
    pub kanken_audio: String,
    pub kanken_level: String,
    pub meaning: String,
    pub diagram: String,
}

/// Merge mode: the draft overrides a field of the previous card only where
/// the draft field is non-empty; the annotation paragraph and the audio
/// reference always carry over unchanged.
pub fn synthesize_with_previous(
    prev: GuiAddCardsFields,
    front: String,
    back: String,
    audio_guide: String,
) -> (r: GuiAddCardsFields)
    ensures
        r@.front == if front@.len() == 0 {
            prev@.front
        } else {
            front@
        },
        r@.back == if back@.len() == 0 {
            prev@.back
        } else {
            back@
        },
        r@.audio_guide == if audio_guide@.len() == 0 {
            prev@.audio_guide
        } else {
            audio_guide@
        },
        r@.back_paragraph == prev@.back_paragraph,
        r@.audio == prev@.audio,
{
    let mut p = prev;
    if !front.as_str().is_empty() {
        p.front = front;
    }
    if !back.as_str().is_empty() {
        p.back = back;
    }
    if !audio_guide.as_str().is_empty() {
        p.audio_guide = audio_guide;
    }
    p
}

/// The fresh-mode front fallback: `kanji[kana]`.
pub open spec fn fresh_front_of(draft: Seq<char>, kanji: Seq<char>, kana: Seq<char>) -> Seq<char> {
    if draft.len() == 0 {
        kanji + seq!['['] + kana + seq![']']
    } else {
        draft
    }
}

/// The fresh-mode annotation paragraph: the sanitized sentence, a line
/// break, then the image reference, trimmed and with newlines encoded.
pub open spec fn fresh_back_paragraph_of(sentence_clean: Seq<char>, picture: Seq<char>) -> Seq<
    char,
> {
    replace_newlines(trim_of(sentence_clean + seq!['\n'] + picture))
}

/// Fresh mode: builds the card from the snapshot of the external
/// source-of-truth card, keeping any non-empty draft field. The guide
/// fallback is the raw headword, deliberately not run through the
/// audio-guide derivation.
pub fn synthesize_fresh(
    front: String,
    back: String,
    audio_guide: String,
    fields: GuiCurrentCardFields,
) -> (r: GuiAddCardsFields)
    ensures
        r@.front == fresh_front_of(front@, fields.kanji@, fields.kana@),
        r@.back == if back@.len() == 0 {
            fields.meaning@
        } else {
            back@
        },
        r@.back_paragraph == fresh_back_paragraph_of(
            sanitized_of(fields.sentence_back@),
            fields.picture@,
        ),
        r@.audio_guide == if audio_guide@.len() == 0 {
            fields.kanji@
        } else {
            audio_guide@
        },
        r@.audio == fields.kanken_audio@,
{
    let sentence = sanitize_html(fields.sentence_back.as_str());

    let front2 = if front.as_str().is_empty() {
        let mut f = fields.kanji.clone();
        proof {
            reveal_strlit("[");
            reveal_strlit("]");
            assert("["@ =~= seq!['[']);
            assert("]"@ =~= seq![']']);
        }
        f.append("[");
        f.append(fields.kana.as_str());
        f.append("]");
        f
    } else {
        front
    };

    let back2 = if back.as_str().is_empty() {
        fields.meaning
    } else {
        back
    };

    let mut paragraph = sentence;
    proof {
        reveal_strlit("\n");
        assert("\n"@ =~= seq!['\n']);
    }
    paragraph.append("\n");
    paragraph.append(fields.picture.as_str());
    let trimmed = trim_str(paragraph.as_str());
    let back_paragraph = encode_line_breaks(trimmed.as_str());

    let audio_guide2 = if audio_guide.as_str().is_empty() {
        fields.kanji
    } else {
        audio_guide
    };

    GuiAddCardsFields {
        front: front2,
        back: back2,
        back_paragraph,
        audio_guide: audio_guide2,
        audio: fields.kanken_audio,
    }
}

} // verus!

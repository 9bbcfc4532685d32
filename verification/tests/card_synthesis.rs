use anki_copy_card::card::{
    synthesize_fresh, synthesize_with_previous, GuiAddCardsFields, GuiCurrentCardFields,
};

fn previous() -> GuiAddCardsFields {
    GuiAddCardsFields {
        front: "old front".to_string(),
        back: "old back".to_string(),
        back_paragraph: "old paragraph".to_string(),
        audio_guide: "old guide".to_string(),
        audio: "old audio".to_string(),
    }
}

fn snapshot() -> GuiCurrentCardFields {
    GuiCurrentCardFields {
        kanji: "kamu".to_string(),
        kana: "ka-mu".to_string(),
        sentence_front: "sf".to_string(),
        sentence_back: "<b>x</b>y".to_string(),
        picture: "P".to_string(),
        kanken_audio: "A".to_string(),
        kanken_level: "L".to_string(),
        meaning: "to bite".to_string(),
        diagram: "D".to_string(),
    }
}

#[test]
fn merge_overrides_nonempty_draft_fields() {
    let r = synthesize_with_previous(
        previous(),
        "new front".to_string(),
        "new back".to_string(),
        "new guide".to_string(),
    );
    assert_eq!(r.front, "new front");
    assert_eq!(r.back, "new back");
    assert_eq!(r.audio_guide, "new guide");
    assert_eq!(r.back_paragraph, "old paragraph");
    assert_eq!(r.audio, "old audio");
}

#[test]
fn merge_keeps_previous_for_empty_draft_fields() {
    let r = synthesize_with_previous(previous(), "".to_string(), "".to_string(), "".to_string());
    assert_eq!(r.front, "old front");
    assert_eq!(r.back, "old back");
    assert_eq!(r.audio_guide, "old guide");
    assert_eq!(r.back_paragraph, "old paragraph");
    assert_eq!(r.audio, "old audio");
}

#[test]
fn merge_is_fieldwise() {
    let r = synthesize_with_previous(previous(), "".to_string(), "b2".to_string(), "".to_string());
    assert_eq!(r.front, "old front");
    assert_eq!(r.back, "b2");
    assert_eq!(r.audio_guide, "old guide");
}

#[test]
fn fresh_fallbacks_pull_from_snapshot() {
    let r = synthesize_fresh("".to_string(), "".to_string(), "".to_string(), snapshot());
    assert_eq!(r.front, "kamu[ka-mu]");
    assert_eq!(r.back, "to bite");
    // the sentence is sanitized, then joined with the picture by a line break
    assert_eq!(r.back_paragraph, "xy<br />P");
    // the guide fallback is the raw headword, not the derived guide
    assert_eq!(r.audio_guide, "kamu");
    assert_eq!(r.audio, "A");
}

#[test]
fn fresh_keeps_nonempty_draft_fields() {
    let r = synthesize_fresh(
        "f".to_string(),
        "b".to_string(),
        "g".to_string(),
        snapshot(),
    );
    assert_eq!(r.front, "f");
    assert_eq!(r.back, "b");
    assert_eq!(r.audio_guide, "g");
    assert_eq!(r.audio, "A");
}

#[test]
fn fresh_sanitizes_markup_out_of_the_sentence() {
    let mut snap = snapshot();
    snap.sentence_back = "<script>bad()</script>keep".to_string();
    snap.picture = "".to_string();
    let r = synthesize_fresh("".to_string(), "".to_string(), "".to_string(), snap);
    assert_eq!(r.back_paragraph, "keep");
}

#[test]
fn fresh_empty_sentence_and_picture_give_empty_paragraph() {
    let mut snap = snapshot();
    snap.sentence_back = "".to_string();
    snap.picture = "".to_string();
    let r = synthesize_fresh("".to_string(), "".to_string(), "".to_string(), snap);
    assert_eq!(r.back_paragraph, "");
}

#[test]
fn duplicate_carries_every_field() {
    let p = previous();
    let d = p.duplicate();
    assert_eq!(d.front, p.front);
    assert_eq!(d.back, p.back);
    assert_eq!(d.back_paragraph, p.back_paragraph);
    assert_eq!(d.audio_guide, p.audio_guide);
    assert_eq!(d.audio, p.audio);
}

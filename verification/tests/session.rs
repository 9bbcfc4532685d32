use anki_copy_card::card::GuiAddCardsFields;
use anki_copy_card::session::AppState;

fn card(front: &str) -> GuiAddCardsFields {
    GuiAddCardsFields {
        front: front.to_string(),
        back: "b".to_string(),
        back_paragraph: "p".to_string(),
        audio_guide: "g".to_string(),
        audio: "a".to_string(),
    }
}

#[test]
fn fresh_session_has_defaults() {
    let st = AppState::default();
    assert_eq!(st.r.fired, 0);
    assert!(st.r.prev_card.is_none());
    assert!(!st.r.maintain_prev);
    assert!(st.follow_front);
    assert_eq!(st.front, "");
    assert_eq!(st.audio_guide, "");
    assert_eq!(st.back, "");
}

#[test]
fn reset_is_idempotent() {
    let mut st = AppState::default();
    st.front = "f".to_string();
    st.audio_guide = "g".to_string();
    st.back = "b".to_string();
    st.follow_front = false;
    st.r.maintain_prev = true;
    st.reset();
    let once = (
        st.front.clone(),
        st.audio_guide.clone(),
        st.back.clone(),
        st.follow_front,
        st.r.fired,
        st.r.maintain_prev,
    );
    st.reset();
    let twice = (
        st.front.clone(),
        st.audio_guide.clone(),
        st.back.clone(),
        st.follow_front,
        st.r.fired,
        st.r.maintain_prev,
    );
    assert_eq!(once, twice);
    assert_eq!(st.front, "");
    assert!(st.follow_front);
    assert!(st.r.maintain_prev);
}

#[test]
fn follow_front_recomputes_guide() {
    let mut st = AppState::default();
    st.front = "ab[cd] e".to_string();
    st.audio_guide_follow();
    assert_eq!(st.audio_guide, "abe");
    assert_eq!(st.front, "ab[cd] e");
}

#[test]
fn firing_counts_every_attempt() {
    let mut st = AppState::default();
    let _ = st.fire();
    let _ = st.fire();
    let _ = st.fire();
    assert_eq!(st.r.fired, 3);
}

#[test]
fn fire_normalizes_the_draft_snapshot() {
    let mut st = AppState::default();
    st.front = "  a front  ".to_string();
    st.audio_guide = "\tg\n".to_string();
    st.back = " x\ny ".to_string();
    let job = st.fire();
    assert_eq!(job.front, "a front");
    assert_eq!(job.audio_guide, "g");
    assert_eq!(job.back, "x<br />y");
    assert!(job.prev_card.is_none());
    // the drafts themselves are untouched
    assert_eq!(st.front, "  a front  ");
}

#[test]
fn fire_snapshots_the_previous_card() {
    let mut st = AppState::default();
    st.r.prev_card = Some(card("pf"));
    let job = st.fire();
    assert_eq!(job.prev_card.unwrap().front, "pf");
    assert_eq!(st.r.prev_card.unwrap().front, "pf");
}

#[test]
fn silent_failure_leaves_no_completion() {
    // the background attempt dies without sending: the count stays, the
    // channel stays empty
    let mut st = AppState::default();
    st.front = "f".to_string();
    let job = st.fire();
    drop(job);
    assert_eq!(st.r.fired, 1);
    assert!(st.poll_completion().is_none());
    assert_eq!(st.front, "f");
    assert_eq!(st.r.fired, 1);
}

#[test]
fn completion_resets_and_retains_when_asked() {
    let mut st = AppState::default();
    st.r.maintain_prev = true;
    st.front = "typed".to_string();
    st.r.req_complete_s.send(card("done")).unwrap();
    let got = st.poll_completion().unwrap();
    assert_eq!(got.front, "done");
    assert_eq!(st.front, "");
    assert!(st.follow_front);
    assert_eq!(st.r.prev_card.as_ref().unwrap().front, "done");
}

#[test]
fn completion_clears_previous_when_retention_is_off() {
    let mut st = AppState::default();
    st.r.maintain_prev = false;
    st.r.prev_card = Some(card("stale"));
    st.r.req_complete_s.send(card("done")).unwrap();
    let got = st.poll_completion().unwrap();
    assert_eq!(got.front, "done");
    assert!(st.r.prev_card.is_none());
}

#[test]
fn polling_drains_at_most_one_completion() {
    let mut st = AppState::default();
    st.r.maintain_prev = true;
    st.r.req_complete_s.send(card("first")).unwrap();
    st.r.req_complete_s.send(card("second")).unwrap();
    let first = st.poll_completion().unwrap();
    assert_eq!(first.front, "first");
    assert_eq!(st.r.prev_card.as_ref().unwrap().front, "first");
    let second = st.poll_completion().unwrap();
    assert_eq!(second.front, "second");
    assert_eq!(st.r.prev_card.as_ref().unwrap().front, "second");
    assert!(st.poll_completion().is_none());
}

#[test]
fn the_job_sender_feeds_the_session_channel() {
    let mut st = AppState::default();
    st.r.maintain_prev = true;
    let job = st.fire();
    job.sender.send(card("via job")).unwrap();
    let got = st.poll_completion().unwrap();
    assert_eq!(got.front, "via job");
    assert_eq!(st.r.fired, 1);
}

use anki_copy_card::text::create_audio_guide;

#[test]
fn test_create_audio_guide() {
    assert_eq!(
        create_audio_guide("ab[]c[de]f gh[ij]k (lmn) {op}"),
        "abcfghklmnop".to_string()
    );
}

#[test]
fn empty_input_gives_empty_guide() {
    assert_eq!(create_audio_guide(""), "".to_string());
}

#[test]
fn unmatched_open_bracket_stays() {
    assert_eq!(create_audio_guide("a[bc"), "a[bc".to_string());
}

#[test]
fn stray_close_bracket_stays() {
    assert_eq!(create_audio_guide("]x["), "]x[".to_string());
}

#[test]
fn close_binds_to_nearest_open() {
    assert_eq!(create_audio_guide("a[b]c]d"), "ac]d".to_string());
}

#[test]
fn stripping_runs_before_span_removal() {
    // the erased characters vanish first, so the bracket pair closes over them
    assert_eq!(create_audio_guide("[a (]"), "".to_string());
}

#[test]
fn plain_text_passes_through() {
    assert_eq!(create_audio_guide("kamikorosu"), "kamikorosu".to_string());
}

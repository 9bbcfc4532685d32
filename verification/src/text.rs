//! Free-text normalization: deriving a pronunciation/audio guide and
//! sanitizing externally sourced HTML.

use vstd::prelude::*;

verus! {

/// Characters that the audio-guide derivation erases outright.
pub open spec fn is_erased_char(c: char) -> bool {
    c == '(' || c == ')' || c == '{' || c == '}' || c == ' '
}

/// The input with every erased character removed, in order.
pub open spec fn strip_chars(s: Seq<char>) -> Seq<char>
    decreases s.len(),
{
    if s.len() == 0 {
        Seq::empty()
    } else if is_erased_char(s.last()) {
        strip_chars(s.drop_last())
    } else {
        strip_chars(s.drop_last()).push(s.last())
    }
}

/// Index of the first `]` in `s`, or `s.len()` if there is none.
pub open spec fn close_index(s: Seq<char>) -> nat
    decreases s.len(),
{
    if s.len() == 0 {
        0
    } else if s[0] == ']' {
        0
    } else {
        1 + close_index(s.skip(1))
    }
}

/// The input with every bracketed span `[...]` removed: a `]` closes the
/// nearest preceding `[`, spans do not nest; a `[` with no later `]` stays
/// in place, as does a stray `]`.
pub open spec fn drop_spans(s: Seq<char>) -> Seq<char>
    decreases s.len(),
{
    if s.len() == 0 {
        Seq::empty()
    } else if s[0] == '[' && close_index(s) < s.len() {
        drop_spans(s.skip(close_index(s) as int + 1))
    } else {
        seq![s[0]] + drop_spans(s.skip(1))
    }
}

/// The audio guide derived from free text: erased characters go first, then
/// every bracketed span of the already-stripped text.
pub open spec fn audio_guide_of(s: Seq<char>) -> Seq<char> {
    drop_spans(strip_chars(s))
}

/// The Unicode white-space characters, the set that surrounding-whitespace
/// trimming removes.
pub open spec fn is_blank_char(c: char) -> bool {
    c == '\u{0009}' || c == '\u{000A}' || c == '\u{000B}' || c == '\u{000C}' || c == '\u{000D}'
        || c == ' ' || c == '\u{0085}' || c == '\u{00A0}' || c == '\u{1680}' || c == '\u{2000}'
        || c == '\u{2001}' || c == '\u{2002}' || c == '\u{2003}' || c == '\u{2004}'
        || c == '\u{2005}' || c == '\u{2006}' || c == '\u{2007}' || c == '\u{2008}'
        || c == '\u{2009}' || c == '\u{200A}' || c == '\u{2028}' || c == '\u{2029}'
        || c == '\u{202F}' || c == '\u{205F}' || c == '\u{3000}'
}

/// The input without its leading white space.
pub open spec fn trim_front_of(s: Seq<char>) -> Seq<char>
    decreases s.len(),
{
    if s.len() > 0 && is_blank_char(s[0]) {
        trim_front_of(s.skip(1))
    } else {
        s
    }
}

/// The input without its trailing white space.
pub open spec fn trim_back_of(s: Seq<char>) -> Seq<char>
    decreases s.len(),
{
    if s.len() > 0 && is_blank_char(s.last()) {
        trim_back_of(s.drop_last())
    } else {
        s
    }
}

/// The input without surrounding white space.
pub open spec fn trim_of(s: Seq<char>) -> Seq<char> {
    trim_back_of(trim_front_of(s))
}

/// The HTML line-break marker that replaces each newline.
pub open spec fn br_seq() -> Seq<char> {
    seq!['<', 'b', 'r', ' ', '/', '>']
}

/// The input with every newline replaced by the line-break marker.
pub open spec fn replace_newlines(s: Seq<char>) -> Seq<char>
    decreases s.len(),
{
    if s.len() == 0 {
        Seq::empty()
    } else if s.last() == '\n' {
        replace_newlines(s.drop_last()) + br_seq()
    } else {
        replace_newlines(s.drop_last()).push(s.last())
    }
}

/// What `ammonia::Builder::empty().clean` leaves of an HTML fragment; a
/// function of the input text alone, since the builder configuration is fixed.
pub uninterp spec fn sanitized_of(s: Seq<char>) -> Seq<char>;

/// Relies on ammonia::Builder::empty and Builder::clean: with no allowed
/// tags configured, cleaning strips all HTML markup from the fragment and
/// keeps only the permitted text content.
#[verifier::external_body]
pub(crate) fn sanitize_html(s: &str) -> (r: String)
    ensures
        r@ == sanitized_of(s@),
{
    ammonia::Builder::empty().clean(s).to_string()
}

/// Relies on String::push: appends exactly one character at the end.
#[verifier::external_body]
pub(crate) fn push_char(s: &mut String, c: char)
    ensures
        final(s)@ == old(s)@.push(c),
{
    s.push(c)
}

fn is_erased(c: char) -> (r: bool)
    ensures
        r == is_erased_char(c),
{
    c == '(' || c == ')' || c == '{' || c == '}' || c == ' '
}

proof fn lemma_close_index_is(s: Seq<char>, k: int)
    requires
        0 <= k <= s.len(),
        forall|m: int| 0 <= m < k ==> s[m] != ']',
        k < s.len() ==> s[k] == ']',
    ensures
        close_index(s) == k,
    decreases s.len(),
{
    if s.len() == 0 {
    } else if s[0] == ']' {
        assert(k == 0);
    } else {
        assert(k >= 1);
        assert(forall|m: int| 0 <= m < k - 1 ==> s.skip(1)[m] == s[m + 1]);
        lemma_close_index_is(s.skip(1), k - 1);
    }
}

/// Derives the pronunciation/audio guide from free text: removes every
/// `(`, `)`, `{`, `}` and space, then removes every `[...]` span of the
/// stripped text.
pub fn create_audio_guide(s: &str) -> (r: String)
    ensures
        r@ == audio_guide_of(s@),
{
    let n: usize = s.unicode_len();
    let mut stripped = String::new();
    let mut i: usize = 0;
    while i < n
        invariant
            i <= n,
            n == s@.len(),
            stripped@ == strip_chars(s@.take(i as int)),
        decreases n - i,
    {
        let c = s.get_char(i);
        proof {
            assert(s@.take(i + 1).drop_last() =~= s@.take(i as int));
            assert(s@.take(i + 1).last() == c);
        }
        if !is_erased(c) {
            push_char(&mut stripped, c);
        }
        i = i + 1;
    }
    proof {
        assert(s@.take(n as int) =~= s@);
    }
    let t: &str = stripped.as_str();
    let m: usize = t.unicode_len();
    let mut out = String::new();
    let mut i: usize = 0;
    proof {
        assert(t@.skip(0) =~= t@);
        assert(out@ + drop_spans(t@) =~= drop_spans(t@));
    }
    while i < m
        invariant
            i <= m,
            m == t@.len(),
            t@ == strip_chars(s@),
            drop_spans(t@) == out@ + drop_spans(t@.skip(i as int)),
        decreases m - i,
    {
        let c = t.get_char(i);
        if c == '[' {
            let mut j: usize = i + 1;
            while j < m && t.get_char(j) != ']'
                invariant
                    i + 1 <= j <= m,
                    m == t@.len(),
                    i < m,
                    forall|k: int| i < k < j ==> t@[k] != ']',
                decreases m - j,
            {
                j = j + 1;
            }
            let ghost sfx = t@.skip(i as int);
            proof {
                assert(sfx[0] == c);
                assert(forall|k: int| 0 < k < j - i ==> sfx[k] == t@[k + i] && t@[k + i] != ']');
                if j < m {
                    assert(sfx[j - i] == t@[j as int]);
                    lemma_close_index_is(sfx, j - i);
                    assert(drop_spans(sfx) == drop_spans(sfx.skip(j - i + 1)));
                    assert(sfx.skip(j - i + 1) =~= t@.skip(j + 1));
                } else {
                    lemma_close_index_is(sfx, sfx.len() as int);
                    assert(close_index(sfx) == sfx.len());
                    assert(drop_spans(sfx) == seq![c] + drop_spans(sfx.skip(1)));
                    assert(sfx.skip(1) =~= t@.skip(i + 1));
                }
            }
            if j < m {
                i = j + 1;
            } else {
                proof {
                    assert(out@ + (seq![c] + drop_spans(t@.skip(i + 1))) =~= out@.push(c)
                        + drop_spans(t@.skip(i + 1)));
                }
                push_char(&mut out, c);
                i = i + 1;
            }
        } else {
            let ghost sfx = t@.skip(i as int);
            proof {
                assert(sfx[0] == c);
                assert(drop_spans(sfx) == seq![c] + drop_spans(sfx.skip(1)));
                assert(sfx.skip(1) =~= t@.skip(i + 1));
                assert(out@ + (seq![c] + drop_spans(t@.skip(i + 1))) =~= out@.push(c)
                    + drop_spans(t@.skip(i + 1)));
            }
            push_char(&mut out, c);
            i = i + 1;
        }
    }
    proof {
        assert(t@.skip(m as int) =~= Seq::<char>::empty());
        assert(out@ + Seq::<char>::empty() =~= out@);
    }
    out
}

proof fn lemma_close_index_props(s: Seq<char>)
    ensures
        close_index(s) <= s.len(),
        forall|k: int| 0 <= k < close_index(s) ==> s[k] != ']',
    decreases s.len(),
{
    if s.len() == 0 {
    } else if s[0] == ']' {
    } else {
        lemma_close_index_props(s.skip(1));
        assert(forall|k: int| 0 < k < close_index(s) ==> s[k] == s.skip(1)[k - 1]);
    }
}

proof fn lemma_strip_chars_clean(s: Seq<char>)
    ensures
        forall|i: int| 0 <= i < strip_chars(s).len() ==> !is_erased_char(#[trigger] strip_chars(s)[i]),
    decreases s.len(),
{
    if s.len() == 0 {
    } else {
        lemma_strip_chars_clean(s.drop_last());
        let t = strip_chars(s.drop_last());
        assert forall|i: int| 0 <= i < strip_chars(s).len() implies !is_erased_char(
            strip_chars(s)[i],
        ) by {
            if is_erased_char(s.last()) {
                assert(strip_chars(s)[i] == t[i]);
            } else {
                if i < t.len() {
                    assert(strip_chars(s)[i] == t[i]);
                } else {
                    assert(strip_chars(s)[i] == s.last());
                }
            }
        }
    }
}

proof fn lemma_drop_spans_subset(s: Seq<char>)
    ensures
        forall|c: char| drop_spans(s).contains(c) ==> s.contains(c),
    decreases s.len(),
{
    if s.len() == 0 {
    } else if s[0] == '[' && close_index(s) < s.len() {
        let k = close_index(s) as int;
        lemma_drop_spans_subset(s.skip(k + 1));
        assert forall|c: char| drop_spans(s).contains(c) implies s.contains(c) by {
            assert(s.skip(k + 1).contains(c));
            let idx = choose|idx: int| 0 <= idx < s.skip(k + 1).len() && #[trigger] s.skip(k + 1)[idx] == c;
            assert(s[idx + k + 1] == c);
        }
    } else {
        lemma_drop_spans_subset(s.skip(1));
        assert forall|c: char| drop_spans(s).contains(c) implies s.contains(c) by {
            let idx = choose|idx: int|
                0 <= idx < drop_spans(s).len() && #[trigger] drop_spans(s)[idx] == c;
            if idx == 0 {
                assert(s[0] == c);
            } else {
                assert(drop_spans(s.skip(1))[idx - 1] == c);
                assert(drop_spans(s.skip(1)).contains(c));
                assert(s.skip(1).contains(c));
                let w = choose|w: int| 0 <= w < s.skip(1).len() && #[trigger] s.skip(1)[w] == c;
                assert(s[w + 1] == c);
            }
        }
    }
}

proof fn lemma_drop_spans_no_pair(s: Seq<char>)
    ensures
        forall|i: int, j: int|
            0 <= i < j < drop_spans(s).len() ==> !(#[trigger] drop_spans(s)[i] == '['
                && #[trigger] drop_spans(s)[j] == ']'),
    decreases s.len(),
{
    if s.len() == 0 {
    } else if s[0] == '[' && close_index(s) < s.len() {
        let k = close_index(s) as int;
        lemma_drop_spans_no_pair(s.skip(k + 1));
        assert forall|i: int, j: int| 0 <= i < j < drop_spans(s).len() implies !(drop_spans(
            s,
        )[i] == '[' && drop_spans(s)[j] == ']') by {
            assert(drop_spans(s)[i] == drop_spans(s.skip(k + 1))[i]);
            assert(drop_spans(s)[j] == drop_spans(s.skip(k + 1))[j]);
        }
    } else {
        lemma_drop_spans_no_pair(s.skip(1));
        let out = drop_spans(s);
        let rest = drop_spans(s.skip(1));
        assert forall|i: int, j: int| 0 <= i < j < out.len() implies !(out[i] == '['
            && out[j] == ']') by {
            if i == 0 {
                if s[0] == '[' {
                    // no `]` anywhere in s, hence none in what remains of its tail
                    lemma_close_index_props(s);
                    assert(forall|k: int| 0 <= k < s.len() ==> s[k] != ']');
                    if out[j] == ']' {
                        assert(rest[j - 1] == ']');
                        assert(rest.contains(']'));
                        lemma_drop_spans_subset(s.skip(1));
                        assert(s.skip(1).contains(']'));
                        let w = choose|w: int| 0 <= w < s.skip(1).len() && #[trigger] s.skip(1)[w] == ']';
                        assert(s[w + 1] == ']');
                        assert(false);
                    }
                }
            } else {
                assert(out[i] == rest[i - 1] && out[j] == rest[j - 1]);
            }
        }
    }
}

/// Law of the audio guide: whatever the input, the derived guide holds no
/// parenthesis, brace or space, and no `[` that a later `]` would close.
pub proof fn lemma_audio_guide_clean(s: Seq<char>)
    ensures
        forall|i: int| 0 <= i < audio_guide_of(s).len() ==> !is_erased_char(
            #[trigger] audio_guide_of(s)[i],
        ),
        forall|i: int, j: int|
            0 <= i < j < audio_guide_of(s).len() ==> !(#[trigger] audio_guide_of(s)[i] == '['
                && #[trigger] audio_guide_of(s)[j] == ']'),
{
    let t = strip_chars(s);
    let out = audio_guide_of(s);
    lemma_strip_chars_clean(s);
    lemma_drop_spans_subset(t);
    lemma_drop_spans_no_pair(t);
    assert forall|i: int| 0 <= i < out.len() implies !is_erased_char(out[i]) by {
        if is_erased_char(out[i]) {
            assert(drop_spans(t).contains(out[i]));
            assert(t.contains(out[i]));
            let w = choose|w: int| 0 <= w < t.len() && #[trigger] t[w] == out[i];
            assert(!is_erased_char(t[w]));
            assert(false);
        }
    }
}

fn is_blank(c: char) -> (r: bool)
    ensures
        r == is_blank_char(c),
{
    c == '\u{0009}' || c == '\u{000A}' || c == '\u{000B}' || c == '\u{000C}' || c == '\u{000D}'
        || c == ' ' || c == '\u{0085}' || c == '\u{00A0}' || c == '\u{1680}' || c == '\u{2000}'
        || c == '\u{2001}' || c == '\u{2002}' || c == '\u{2003}' || c == '\u{2004}'
        || c == '\u{2005}' || c == '\u{2006}' || c == '\u{2007}' || c == '\u{2008}'
        || c == '\u{2009}' || c == '\u{200A}' || c == '\u{2028}' || c == '\u{2029}'
        || c == '\u{202F}' || c == '\u{205F}' || c == '\u{3000}'
}

proof fn lemma_trim_front_is(s: Seq<char>, a: int)
    requires
        0 <= a <= s.len(),
        forall|k: int| 0 <= k < a ==> is_blank_char(s[k]),
        a < s.len() ==> !is_blank_char(s[a]),
    ensures
        trim_front_of(s) == s.skip(a),
    decreases a,
{
    if a == 0 {
        assert(s.skip(0) =~= s);
    } else {
        assert(forall|k: int| 0 <= k < a - 1 ==> s.skip(1)[k] == s[k + 1]);
        lemma_trim_front_is(s.skip(1), a - 1);
        assert(s.skip(1).skip(a - 1) =~= s.skip(a));
    }
}

proof fn lemma_trim_back_is(s: Seq<char>, b: int)
    requires
        0 <= b <= s.len(),
        forall|k: int| b <= k < s.len() ==> is_blank_char(s[k]),
        b > 0 ==> !is_blank_char(s[b - 1]),
    ensures
        trim_back_of(s) == s.take(b),
    decreases s.len(),
{
    if b == s.len() {
        assert(s.take(b) =~= s);
    } else {
        assert(is_blank_char(s.last()));
        assert(forall|k: int| b <= k < s.len() - 1 ==> s.drop_last()[k] == s[k]);
        lemma_trim_back_is(s.drop_last(), b);
        assert(s.drop_last().take(b) =~= s.take(b));
    }
}

/// Removes the surrounding white space of `s`.
pub fn trim_str(s: &str) -> (r: String)
    ensures
        r@ == trim_of(s@),
{
    let n: usize = s.unicode_len();
    let mut a: usize = 0;
    while a < n && is_blank(s.get_char(a))
        invariant
            a <= n,
            n == s@.len(),
            forall|k: int| 0 <= k < a ==> is_blank_char(s@[k]),
        decreases n - a,
    {
        a = a + 1;
    }
    let mut b: usize = n;
    while b > a && is_blank(s.get_char(b - 1))
        invariant
            a <= b <= n,
            n == s@.len(),
            forall|k: int| b <= k < n ==> is_blank_char(s@[k]),
        decreases b,
    {
        b = b - 1;
    }
    proof {
        lemma_trim_front_is(s@, a as int);
        let sfx = s@.skip(a as int);
        assert(forall|k: int| b - a <= k < sfx.len() ==> sfx[k] == s@[k + a]);
        lemma_trim_back_is(sfx, b - a);
        assert(sfx.take(b - a) =~= s@.subrange(a as int, b as int));
    }
    let sub = s.substring_char(a, b);
    String::from_str(sub)
}

/// Replaces every newline of `s` by the HTML line-break marker.
pub fn encode_line_breaks(s: &str) -> (r: String)
    ensures
        r@ == replace_newlines(s@),
{
    let n: usize = s.unicode_len();
    let mut out = String::new();
    let mut i: usize = 0;
    while i < n
        invariant
            i <= n,
            n == s@.len(),
            out@ == replace_newlines(s@.take(i as int)),
        decreases n - i,
    {
        let c = s.get_char(i);
        proof {
            assert(s@.take(i + 1).drop_last() =~= s@.take(i as int));
            assert(s@.take(i + 1).last() == c);
        }
        if c == '\n' {
            proof {
                reveal_strlit("<br />");
                assert("<br />"@ =~= br_seq());
            }
            out.append("<br />");
        } else {
            push_char(&mut out, c);
        }
        i = i + 1;
    }
    proof {
        assert(s@.take(n as int) =~= s@);
    }
    out
}

} // verus!

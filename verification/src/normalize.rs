//! The normaliser: strip the zero-width and bidi control characters, collapse
//! whitespace, then case-fold, so the `R5` lexicon check has something sane to
//! match against.
//!
//! It does not do NFKC or confusable folding, so homoglyph and fullwidth
//! attacks pass through, and it is not offset-preserving.

use vstd::prelude::*;

use crate::chars::{
    ascii_lower, ascii_lower_char, chars_of, char_is_control, char_is_whitespace, is_control_code,
    is_white_space,
};
use vstd::utf8::is_ascii_chars;
use crate::wrappers::{lowercase_of, push_char, to_lowercase};

verus! {

/// Characters that carry no glyph but split a word for a naive matcher:
/// zero-width space, non-joiner and joiner, the directional marks and
/// overrides, word joiner and the invisible operators, and the byte-order
/// mark.
pub open spec fn invisible(c: char) -> bool {
    ||| '\u{200B}' <= c <= '\u{200F}'
    ||| '\u{202A}' <= c <= '\u{202E}'
    ||| '\u{2060}' <= c <= '\u{2064}'
    ||| c == '\u{FEFF}'
}

/// Whether the stripping step keeps a character: invisible characters go,
/// and control characters go unless they are whitespace.
pub open spec fn kept(c: char) -> bool {
    !invisible(c) && (!is_control_code(c) || is_white_space(c))
}

/// The characters the stripping step keeps, in order.
pub open spec fn strip(s: Seq<char>) -> Seq<char>
    decreases s.len(),
{
    if s.len() == 0 {
        Seq::empty()
    } else if kept(s.last()) {
        strip(s.drop_last()).push(s.last())
    } else {
        strip(s.drop_last())
    }
}

/// The maximal runs of non-whitespace characters, in order.
pub open spec fn words(s: Seq<char>) -> Seq<Seq<char>>
    decreases s.len(),
{
    if s.len() == 0 {
        Seq::empty()
    } else {
        let w = words(s.drop_last());
        let c = s.last();
        if is_white_space(c) {
            w
        } else if s.len() >= 2 && !is_white_space(s[s.len() - 2]) {
            w.update(w.len() - 1, w.last().push(c))
        } else {
            w.push(seq![c])
        }
    }
}

/// Words joined by single spaces.
pub open spec fn join(ws: Seq<Seq<char>>) -> Seq<char>
    decreases ws.len(),
{
    if ws.len() == 0 {
        Seq::empty()
    } else if ws.len() == 1 {
        ws[0]
    } else {
        join(ws.drop_last()) + seq![' '] + ws.last()
    }
}

/// The text with every run of whitespace collapsed to one space and none at
/// either end.
pub open spec fn collapse(s: Seq<char>) -> Seq<char> {
    join(words(s))
}

/// The skeleton the classifier and the lexicon see: stripped, collapsed and
/// lowercased.
pub open spec fn normalized(raw: Seq<char>) -> Seq<char> {
    lowercase_of(collapse(strip(raw)))
}

/// A character that can stand inside a word of the skeleton: not whitespace,
/// not invisible, not a control code.
pub open spec fn word_char(c: char) -> bool {
    !is_white_space(c) && !invisible(c) && !is_control_code(c)
}

/// Whether a text is a clean skeleton: only word characters and single
/// spaces, never a space at either end or two spaces together.
pub open spec fn clean(s: Seq<char>) -> bool {
    forall|i: int|
        0 <= i < s.len() ==> (word_char(#[trigger] s[i]) || s[i] == ' ') && (s[i] == ' ' ==> 0 < i
            < s.len() - 1 && s[i - 1] != ' ' && s[i + 1] != ' ')
}

/// Whether every word is non-empty and made of word characters.
pub open spec fn good_words(ws: Seq<Seq<char>>) -> bool {
    forall|k: int|
        0 <= k < ws.len() ==> #[trigger] ws[k].len() > 0 && forall|m: int|
            0 <= m < ws[k].len() ==> word_char(#[trigger] ws[k][m])
}

proof fn lemma_strip_keeps(s: Seq<char>)
    ensures
        forall|i: int| 0 <= i < strip(s).len() ==> kept(#[trigger] strip(s)[i]),
    decreases s.len(),
{
    if s.len() > 0 {
        let p = strip(s.drop_last());
        lemma_strip_keeps(s.drop_last());
        if kept(s.last()) {
            assert forall|i: int| 0 <= i < strip(s).len() implies kept(#[trigger] strip(s)[i]) by {
                if i < p.len() {
                    assert(strip(s)[i] == p[i]);
                }
            }
        }
    }
}

proof fn lemma_words_good(s: Seq<char>)
    requires
        forall|i: int| 0 <= i < s.len() ==> kept(#[trigger] s[i]),
    ensures
        good_words(words(s)),
        s.len() > 0 && !is_white_space(s.last()) ==> words(s).len() > 0,
    decreases s.len(),
{
    if s.len() > 0 {
        let init = s.drop_last();
        assert forall|i: int| 0 <= i < init.len() implies kept(#[trigger] init[i]) by {
            assert(init[i] == s[i]);
        }
        lemma_words_good(init);
        let w = words(init);
        let c = s.last();
        if !is_white_space(c) {
            assert(word_char(c));
            if s.len() >= 2 && !is_white_space(s[s.len() - 2]) {
                assert(init.last() == s[s.len() - 2]);
                let u = w.update(w.len() - 1, w.last().push(c));
                assert forall|k: int| 0 <= k < u.len() implies #[trigger] u[k].len() > 0 && forall|m: int|
                    0 <= m < u[k].len() ==> word_char(#[trigger] u[k][m]) by {
                    if k == w.len() - 1 {
                        assert forall|m: int| 0 <= m < u[k].len() implies word_char(#[trigger] u[k][m]) by {
                            if m < w.last().len() {
                                assert(u[k][m] == w[k][m]);
                            }
                        }
                    }
                }
            } else {
                let u = w.push(seq![c]);
                assert forall|k: int| 0 <= k < u.len() implies #[trigger] u[k].len() > 0 && forall|m: int|
                    0 <= m < u[k].len() ==> word_char(#[trigger] u[k][m]) by {
                    if k < w.len() {
                        assert(u[k] == w[k]);
                    }
                }
            }
        }
    }
}

proof fn lemma_join_clean(ws: Seq<Seq<char>>)
    requires
        good_words(ws),
    ensures
        clean(join(ws)),
        ws.len() > 0 ==> join(ws).len() > 0,
    decreases ws.len(),
{
    if ws.len() == 1 {
        assert(ws[0].len() > 0);
    } else if ws.len() > 1 {
        let init = ws.drop_last();
        assert forall|k: int| 0 <= k < init.len() implies #[trigger] init[k].len() > 0 && forall|m: int|
            0 <= m < init[k].len() ==> word_char(#[trigger] init[k][m]) by {
            assert(init[k] == ws[k]);
        }
        lemma_join_clean(init);
        let j = join(init);
        let w = ws.last();
        assert(w.len() > 0);
        let r = j + seq![' '] + w;
        assert(join(ws) == r);
        assert(!is_white_space(w[0]) && w[0] != ' ') by {
            assert(word_char(ws[ws.len() - 1][0]));
        }
        assert(j[j.len() - 1] != ' ') by {
            if j[j.len() - 1] == ' ' {
                assert(0 < j.len() - 1 < j.len() - 1);
            }
        }
        assert forall|i: int| 0 <= i < r.len() implies (word_char(#[trigger] r[i]) || r[i] == ' ') && (
        r[i] == ' ' ==> 0 < i < r.len() - 1 && r[i - 1] != ' ' && r[i + 1] != ' ') by {
            if i < j.len() {
                assert(r[i] == j[i]);
                if i + 1 < j.len() {
                    assert(r[i + 1] == j[i + 1]);
                }
                if i > 0 {
                    assert(r[i - 1] == j[i - 1]);
                }
            } else if i == j.len() {
                assert(r[i - 1] == j[j.len() - 1]);
                assert(r[i + 1] == w[0]);
            } else {
                assert(r[i] == w[i - j.len() - 1]);
                assert(word_char(ws[ws.len() - 1][i - j.len() - 1]));
            }
        }
    }
}

/// Law: the skeleton before case folding holds no invisible characters, no
/// control characters and no whitespace but single spaces between words, so
/// a multi-word lexicon term matches however the source was wrapped or split.
pub proof fn law_skeleton_is_clean(raw: Seq<char>)
    ensures
        clean(collapse(strip(raw))),
{
    lemma_strip_keeps(raw);
    lemma_words_good(strip(raw));
    lemma_join_clean(words(strip(raw)));
}

/// The skeleton of ASCII text, whose case folding the standard library's
/// documentation fixes: stripped, collapsed, and lowercased letter by letter.
pub open spec fn ascii_skeleton(raw: Seq<char>) -> Seq<char> {
    ascii_lower(collapse(strip(raw)))
}

/// Whether every character of every word is ASCII.
spec fn ascii_words(ws: Seq<Seq<char>>) -> bool {
    forall|k: int, m: int|
        0 <= k < ws.len() && 0 <= m < ws[k].len() ==> '\0' <= #[trigger] ws[k][m] <= '\u{7f}'
}

/// Words and spaces: no space first, none doubled, and nothing but word
/// characters otherwise (a single space may end it).
spec fn spaced(t: Seq<char>) -> bool {
    &&& forall|i: int| 0 <= i < t.len() ==> word_char(#[trigger] t[i]) || t[i] == ' '
    &&& t.len() > 0 ==> t[0] != ' '
    &&& forall|i: int| 1 <= i < t.len() && #[trigger] t[i] == ' ' ==> t[i - 1] != ' '
}

proof fn lemma_strip_ascii(s: Seq<char>)
    requires
        is_ascii_chars(s),
    ensures
        is_ascii_chars(strip(s)),
    decreases s.len(),
{
    if s.len() > 0 {
        let init = s.drop_last();
        assert forall|i: int| 0 <= i < init.len() implies '\0' <= #[trigger] init[i] <= '\u{7f}' by {
            assert(init[i] == s[i]);
        }
        lemma_strip_ascii(init);
        let p = strip(init);
        if kept(s.last()) {
            assert forall|i: int| 0 <= i < strip(s).len() implies '\0' <= #[trigger] strip(s)[i]
                <= '\u{7f}' by {
                if i < p.len() {
                    assert(strip(s)[i] == p[i]);
                } else {
                    assert(strip(s)[i] == s[s.len() - 1]);
                }
            }
        }
    }
}

proof fn lemma_words_ascii(s: Seq<char>)
    requires
        is_ascii_chars(s),
    ensures
        ascii_words(words(s)),
        s.len() > 0 && !is_white_space(s.last()) ==> words(s).len() > 0,
    decreases s.len(),
{
    if s.len() > 0 {
        let init = s.drop_last();
        assert forall|i: int| 0 <= i < init.len() implies '\0' <= #[trigger] init[i] <= '\u{7f}' by {
            assert(init[i] == s[i]);
        }
        lemma_words_ascii(init);
        let w = words(init);
        let c = s.last();
        assert('\0' <= c <= '\u{7f}') by {
            assert(c == s[s.len() - 1]);
        }
        if !is_white_space(c) {
            if s.len() >= 2 && !is_white_space(s[s.len() - 2]) {
                assert(init.last() == s[s.len() - 2]);
                let u = w.update(w.len() - 1, w.last().push(c));
                assert forall|k: int, m: int| 0 <= k < u.len() && 0 <= m < u[k].len() implies '\0'
                    <= #[trigger] u[k][m] <= '\u{7f}' by {
                    if k == w.len() - 1 {
                        if m < w.last().len() {
                            assert(u[k][m] == w[k][m]);
                        }
                    } else {
                        assert(u[k] == w[k]);
                    }
                }
            } else {
                let u = w.push(seq![c]);
                assert forall|k: int, m: int| 0 <= k < u.len() && 0 <= m < u[k].len() implies '\0'
                    <= #[trigger] u[k][m] <= '\u{7f}' by {
                    if k < w.len() {
                        assert(u[k] == w[k]);
                    }
                }
            }
        }
    }
}

proof fn lemma_join_ascii(ws: Seq<Seq<char>>)
    requires
        ascii_words(ws),
    ensures
        is_ascii_chars(join(ws)),
    decreases ws.len(),
{
    if ws.len() == 1 {
        assert forall|i: int| 0 <= i < join(ws).len() implies '\0' <= #[trigger] join(ws)[i] <= '\u{7f}' by {
            assert(join(ws)[i] == ws[0][i]);
        }
    } else if ws.len() > 1 {
        let init = ws.drop_last();
        assert forall|k: int, m: int| 0 <= k < init.len() && 0 <= m < init[k].len() implies '\0'
            <= #[trigger] init[k][m] <= '\u{7f}' by {
            assert(init[k] == ws[k]);
        }
        lemma_join_ascii(init);
        let j = join(init);
        let w = ws.last();
        let r = j + seq![' '] + w;
        assert(join(ws) == r);
        assert forall|i: int| 0 <= i < r.len() implies '\0' <= #[trigger] r[i] <= '\u{7f}' by {
            if i < j.len() {
                assert(r[i] == j[i]);
            } else if i > j.len() {
                assert(r[i] == ws[ws.len() - 1][i - j.len() - 1]);
            }
        }
    }
}

/// A text of kept characters is its own stripped form.
proof fn lemma_strip_fixed(t: Seq<char>)
    requires
        forall|i: int| 0 <= i < t.len() ==> kept(#[trigger] t[i]),
    ensures
        strip(t) == t,
    decreases t.len(),
{
    if t.len() > 0 {
        let init = t.drop_last();
        assert forall|i: int| 0 <= i < init.len() implies kept(#[trigger] init[i]) by {
            assert(init[i] == t[i]);
        }
        lemma_strip_fixed(init);
        assert(kept(t[t.len() - 1]));
        assert(init.push(t.last()) == t);
    }
}

/// Words and single spaces collapse to themselves, less a trailing space.
proof fn lemma_spaced_collapse(t: Seq<char>)
    requires
        spaced(t),
    ensures
        join(words(t)) == (if t.len() > 0 && t.last() == ' ' {
            t.drop_last()
        } else {
            t
        }),
        words(t).len() == 0 <==> t.len() == 0,
    decreases t.len(),
{
    if t.len() > 0 {
        let init = t.drop_last();
        let c = t.last();
        assert(spaced(init)) by {
            assert forall|i: int| 0 <= i < init.len() implies word_char(#[trigger] init[i]) || init[i]
                == ' ' by {
                assert(init[i] == t[i]);
            }
            assert forall|i: int| 1 <= i < init.len() && #[trigger] init[i] == ' ' implies init[i
                - 1] != ' ' by {
                assert(init[i] == t[i]);
                assert(init[i - 1] == t[i - 1]);
            }
            if init.len() > 0 {
                assert(init[0] == t[0]);
            }
        }
        lemma_spaced_collapse(init);
        let w = words(init);
        assert(word_char(t[t.len() - 1]) || t[t.len() - 1] == ' ');
        if c == ' ' {
            assert(t.len() >= 2);
            assert(t[t.len() - 1] == ' ');
            assert(init.last() == t[t.len() - 2]);
            assert(init.last() != ' ');
        } else {
            assert(!is_white_space(c));
            if init.len() == 0 {
                assert(words(t) == w.push(seq![c]));
                lemma_join_push(w, seq![c]);
                assert(t == seq![c]);
            } else if init.last() == ' ' {
                assert(init.last() == t[t.len() - 2]);
                assert(words(t) == w.push(seq![c]));
                lemma_join_push(w, seq![c]);
                assert(init.drop_last() + seq![' '] + seq![c] == t);
            } else {
                assert(init.last() == t[t.len() - 2]);
                assert(word_char(init[init.len() - 1]));
                lemma_join_extend(w, c);
                assert(init.push(c) == t);
            }
        }
    }
}

/// Lowercasing a clean ASCII text letter by letter keeps it clean and ASCII,
/// and a second lowercasing changes nothing.
proof fn lemma_ascii_lower_clean(t: Seq<char>)
    requires
        clean(t),
        is_ascii_chars(t),
    ensures
        clean(ascii_lower(t)),
        is_ascii_chars(ascii_lower(t)),
        ascii_lower(ascii_lower(t)) == ascii_lower(t),
{
    let l = ascii_lower(t);
    assert forall|i: int| 0 <= i < l.len() implies (word_char(#[trigger] l[i]) || l[i] == ' ') && (l[i]
        == ' ' ==> 0 < i < l.len() - 1 && l[i - 1] != ' ' && l[i + 1] != ' ') by {
        assert(l[i] == ascii_lower_char(t[i]));
        assert('\0' <= t[i] <= '\u{7f}');
        if l[i] == ' ' {
            assert(t[i] == ' ');
            assert(l[i - 1] == ascii_lower_char(t[i - 1]));
            assert(l[i + 1] == ascii_lower_char(t[i + 1]));
        }
    }
    assert forall|i: int| 0 <= i < l.len() implies '\0' <= #[trigger] l[i] <= '\u{7f}' by {
        assert('\0' <= t[i] <= '\u{7f}');
    }
    assert(ascii_lower(l) == l);
}

/// Law: the skeleton of ASCII text is clean after case folding as well
/// (no invisible or control characters, single spaces between words and none
/// at either end), is its own lowercase form, and normalising it again gives
/// it back.
pub proof fn law_ascii_skeleton_is_settled(raw: Seq<char>)
    requires
        is_ascii_chars(raw),
    ensures
        clean(ascii_skeleton(raw)),
        is_ascii_chars(ascii_skeleton(raw)),
        ascii_lower(ascii_skeleton(raw)) == ascii_skeleton(raw),
        ascii_skeleton(ascii_skeleton(raw)) == ascii_skeleton(raw),
{
    let c = collapse(strip(raw));
    law_skeleton_is_clean(raw);
    lemma_strip_ascii(raw);
    lemma_words_ascii(strip(raw));
    lemma_join_ascii(words(strip(raw)));
    lemma_ascii_lower_clean(c);
    let r = ascii_skeleton(raw);
    assert forall|i: int| 0 <= i < r.len() implies kept(#[trigger] r[i]) by {
        assert(word_char(r[i]) || r[i] == ' ');
    }
    lemma_strip_fixed(r);
    assert(spaced(r)) by {
        assert forall|i: int| 1 <= i < r.len() && #[trigger] r[i] == ' ' implies r[i - 1] != ' ' by {
            assert(word_char(r[i]) || r[i] == ' ');
        }
        if r.len() > 0 {
            assert(word_char(r[0]) || r[0] == ' ');
        }
    }
    lemma_spaced_collapse(r);
    if r.len() > 0 {
        assert(word_char(r[r.len() - 1]) || r[r.len() - 1] == ' ');
    }
}

/// Dropping one character that the stripping step does not keep leaves the
/// stripped text as it was.
proof fn lemma_strip_drops(a: Seq<char>, c: char, b: Seq<char>)
    requires
        !kept(c),
    ensures
        strip(a.push(c) + b) == strip(a + b),
    decreases b.len(),
{
    if b.len() == 0 {
        assert(a.push(c) + b == a.push(c));
        assert(a + b == a);
        assert(a.push(c).drop_last() == a);
    } else {
        let b0 = b.drop_last();
        lemma_strip_drops(a, c, b0);
        assert((a.push(c) + b).drop_last() == a.push(c) + b0);
        assert((a + b).drop_last() == a + b0);
        assert((a.push(c) + b).last() == b.last());
        assert((a + b).last() == b.last());
    }
}

/// Law: the skeleton holds none of the zero-width characters (U+200B to
/// U+200F), the bidirectional embeddings and overrides (U+202A to U+202E),
/// the word joiner and invisible operators (U+2060 to U+2064), the byte-order
/// mark (U+FEFF), or any control character (U+0000 to U+001F, U+007F to
/// U+009F); and inserting any of those invisible characters anywhere in the
/// raw text changes neither the skeleton nor what `normalize` returns.
pub proof fn law_invisible_characters_are_dropped(raw: Seq<char>, a: Seq<char>, c: char, b: Seq<char>)
    requires
        ('\u{200B}' <= c <= '\u{200F}') || ('\u{202A}' <= c <= '\u{202E}') || ('\u{2060}' <= c
            <= '\u{2064}') || c == '\u{FEFF}',
    ensures
        forall|i: int|
            0 <= i < collapse(strip(raw)).len() ==> {
                let x = #[trigger] collapse(strip(raw))[i];
                &&& !('\u{200B}' <= x <= '\u{200F}')
                &&& !('\u{202A}' <= x <= '\u{202E}')
                &&& !('\u{2060}' <= x <= '\u{2064}')
                &&& x != '\u{FEFF}'
                &&& !(x <= '\u{1F}')
                &&& !('\u{7F}' <= x <= '\u{9F}')
            },
        strip(a.push(c) + b) == strip(a + b),
        normalized(a.push(c) + b) == normalized(a + b),
{
    law_skeleton_is_clean(raw);
    let t = collapse(strip(raw));
    assert forall|i: int| 0 <= i < t.len() implies {
        let x = #[trigger] t[i];
        &&& !('\u{200B}' <= x <= '\u{200F}')
        &&& !('\u{202A}' <= x <= '\u{202E}')
        &&& !('\u{2060}' <= x <= '\u{2064}')
        &&& x != '\u{FEFF}'
        &&& !(x <= '\u{1F}')
        &&& !('\u{7F}' <= x <= '\u{9F}')
    } by {
        assert(word_char(t[i]) || t[i] == ' ');
    }
    lemma_strip_drops(a, c, b);
}

/// Whether `c` is one of the invisible formatting characters.
pub fn is_invisible(c: char) -> (b: bool)
    ensures
        b == invisible(c),
{
    ('\u{200B}' <= c && c <= '\u{200F}') || ('\u{202A}' <= c && c <= '\u{202E}') || ('\u{2060}'
        <= c && c <= '\u{2064}') || c == '\u{FEFF}'
}

/// A word list with a word pushed joins to the old join, a space, and the
/// word.
proof fn lemma_join_push(ws: Seq<Seq<char>>, w: Seq<char>)
    ensures
        join(ws.push(w)) == (if ws.len() == 0 {
            w
        } else {
            join(ws) + seq![' '] + w
        }),
{
    assert(ws.push(w).drop_last() == ws);
}

/// Extending the last word by a character extends the join by it.
proof fn lemma_join_extend(ws: Seq<Seq<char>>, c: char)
    requires
        ws.len() > 0,
    ensures
        join(ws.update(ws.len() - 1, ws.last().push(c))) == join(ws).push(c),
{
    let u = ws.update(ws.len() - 1, ws.last().push(c));
    if ws.len() > 1 {
        assert(u.drop_last() == ws.drop_last());
    }
}

/// Normalise one extracted string for classification and lexicon matching.
pub fn normalize(raw: &str) -> (r: String)
    ensures
        r@ == normalized(raw@),
        is_ascii_chars(raw@) ==> r@ == ascii_skeleton(raw@),
{
    let chars = chars_of(raw);
    let mut out = String::new();
    let mut has_word = false;
    let mut at_boundary = true;
    let mut i: usize = 0;
    while i < chars.len()
        invariant
            i <= chars@.len(),
            out@ == join(words(strip(chars@.take(i as int)))),
            has_word == (words(strip(chars@.take(i as int))).len() > 0),
            at_boundary == (strip(chars@.take(i as int)).len() == 0 || is_white_space(
                strip(chars@.take(i as int)).last(),
            )),
            !at_boundary ==> has_word,
        decreases chars@.len() - i,
    {
        let c = chars[i];
        let ghost p = strip(chars@.take(i as int));
        assert(chars@.take(i + 1).drop_last() == chars@.take(i as int));
        let keep = !is_invisible(c) && (!char_is_control(c) || char_is_whitespace(c));
        if keep {
            assert(strip(chars@.take(i + 1)) == p.push(c));
            assert(p.push(c).drop_last() == p);
            if char_is_whitespace(c) {
                at_boundary = true;
            } else {
                proof {
                    if at_boundary {
                        lemma_join_push(words(p), seq![c]);
                    } else {
                        lemma_join_extend(words(p), c);
                    }
                }
                if at_boundary && has_word {
                    push_char(&mut out, ' ');
                }
                push_char(&mut out, c);
                has_word = true;
                at_boundary = false;
            }
        } else {
            assert(strip(chars@.take(i + 1)) == p);
        }
        i = i + 1;
    }
    assert(chars@.take(chars@.len() as int) == chars@);
    assert(chars@ == raw@);
    proof {
        if is_ascii_chars(raw@) {
            lemma_strip_ascii(raw@);
            lemma_words_ascii(strip(raw@));
            lemma_join_ascii(words(strip(raw@)));
        }
    }
    to_lowercase(out.as_str())
}

} // verus!

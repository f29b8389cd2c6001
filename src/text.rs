use vstd::prelude::*;
use vstd::string::*;

verus! {

/// Unicode `White_Space`, the set that `char::is_whitespace` tests.
pub open spec fn is_ws(c: char) -> bool {
    ('\u{9}' <= c && c <= '\u{d}') || c == ' ' || c == '\u{85}' || c == '\u{a0}' || c == '\u{1680}'
        || ('\u{2000}' <= c && c <= '\u{200a}') || c == '\u{2028}' || c == '\u{2029}' || c
        == '\u{202f}' || c == '\u{205f}' || c == '\u{3000}'
}

/// The text with every run of whitespace between two words turned into one
/// space, and leading and trailing whitespace removed.
pub open spec fn squeezed(s: Seq<char>) -> Seq<char>
    decreases s.len(),
{
    if s.len() == 0 {
        Seq::empty()
    } else {
        let before = squeezed(s.drop_last());
        let c = s.last();
        if is_ws(c) {
            before
        } else if before.len() > 0 && is_ws(s[s.len() - 2]) {
            before.push(' ').push(c)
        } else {
            before.push(c)
        }
    }
}

/// Whitespace in a squeezed text is a single space between two other
/// characters: none at either end, never two in a row.
pub open spec fn whitespace_clean(r: Seq<char>) -> bool {
    forall|i: int|
        0 <= i < r.len() && is_ws(#[trigger] r[i]) ==> r[i] == ' ' && 0 < i && i + 1 < r.len()
            && !is_ws(r[i - 1]) && !is_ws(r[i + 1])
}

/// A normalised transcript has no leading, trailing or doubled whitespace.
pub proof fn lemma_squeezed_clean(s: Seq<char>)
    ensures
        whitespace_clean(squeezed(s)),
    decreases s.len(),
{
    if s.len() > 0 {
        let b = squeezed(s.drop_last());
        lemma_squeezed_clean(s.drop_last());
        let r = squeezed(s);
        let c = s.last();
        if !is_ws(c) {
            if b.len() > 0 {
                assert(!is_ws(b[b.len() - 1]));
            }
            assert forall|i: int| 0 <= i < r.len() && is_ws(#[trigger] r[i]) implies r[i] == ' '
                && 0 < i && i + 1 < r.len() && !is_ws(r[i - 1]) && !is_ws(r[i + 1]) by {
                if i < b.len() {
                    assert(r[i] == b[i]);
                    assert(r[i - 1] == b[i - 1]);
                    assert(r[i + 1] == b[i + 1]);
                }
            }
        }
    }
}

pub fn char_is_ws(c: char) -> (r: bool)
    ensures
        r == is_ws(c),
{
    ('\u{9}' <= c && c <= '\u{d}') || c == ' ' || c == '\u{85}' || c == '\u{a0}' || c == '\u{1680}'
        || ('\u{2000}' <= c && c <= '\u{200a}') || c == '\u{2028}' || c == '\u{2029}' || c
        == '\u{202f}' || c == '\u{205f}' || c == '\u{3000}'
}

/// Compares two strings character by character.
pub fn str_eq(a: &str, b: &str) -> (r: bool)
    ensures
        r == (a@ == b@),
{
    let n = a.unicode_len();
    if n != b.unicode_len() {
        return false;
    }
    let mut i: usize = 0;
    while i < n
        invariant
            n == a@.len(),
            n == b@.len(),
            i <= n,
            a@.subrange(0, i as int) == b@.subrange(0, i as int),
        decreases n - i,
    {
        if a.get_char(i) != b.get_char(i) {
            return false;
        }
        assert(a@.subrange(0, i + 1) =~= a@.subrange(0, i as int).push(a@[i as int]));
        assert(b@.subrange(0, i + 1) =~= b@.subrange(0, i as int).push(b@[i as int]));
        i = i + 1;
    }
    assert(a@ =~= a@.subrange(0, n as int));
    assert(b@ =~= b@.subrange(0, n as int));
    true
}

/// The two strings one after the other.
pub(crate) fn concat_str(a: &str, b: &str) -> (r: String)
    ensures
        r@ == a@ + b@,
{
    let mut s = String::from_str(a);
    s.append(b);
    s
}

/// Relies on `String::from_iter` over `&char`: the string holds exactly these characters.
#[verifier::external_body]
pub(crate) fn string_from_chars(chars: &Vec<char>) -> (r: String)
    ensures
        r@ == chars@,
{
    String::from_iter(chars.iter())
}

/// Collapses whitespace: the words of `text`, joined by single spaces.
pub fn normalize_text(text: &str) -> (r: String)
    ensures
        r@ == squeezed(text@),
        whitespace_clean(r@),
{
    proof {
        lemma_squeezed_clean(text@);
    }
    let n = text.unicode_len();
    let mut out: Vec<char> = Vec::new();
    let mut i: usize = 0;
    while i < n
        invariant
            n == text@.len(),
            i <= n,
            out@ == squeezed(text@.subrange(0, i as int)),
        decreases n - i,
    {
        let c = text.get_char(i);
        proof {
            let s = text@.subrange(0, i as int + 1);
            assert(s.drop_last() =~= text@.subrange(0, i as int));
            assert(s.last() == c);
        }
        if !char_is_ws(c) {
            if out.len() > 0 && char_is_ws(text.get_char(i - 1)) {
                out.push(' ');
            }
            out.push(c);
        }
        i = i + 1;
    }
    assert(text@.subrange(0, n as int) =~= text@);
    string_from_chars(&out)
}

/// The offline decoder's transcript cleanup: the same whitespace collapse.
pub fn normalize_whisper_text(text: &str) -> (r: String)
    ensures
        r@ == squeezed(text@),
        whitespace_clean(r@),
{
    normalize_text(text)
}

/// The closing punctuation that attaches to the preceding text without a space.
pub open spec fn is_closing_punct(c: char) -> bool {
    c == '.' || c == ',' || c == '!' || c == '?' || c == ';' || c == ':' || c == ')'
}

/// A piece that is one closing punctuation character and nothing else.
pub open spec fn is_standalone_punct(piece: Seq<char>) -> bool {
    piece.len() == 1 && is_closing_punct(piece[0])
}

pub fn char_is_closing_punct(c: char) -> (r: bool)
    ensures
        r == is_closing_punct(c),
{
    c == '.' || c == ',' || c == '!' || c == '?' || c == ';' || c == ':' || c == ')'
}

/// `out` after a piece is written: a joining space comes first when something was
/// already written, unless the piece is standalone closing punctuation.
pub open spec fn with_piece(out: Seq<char>, piece: Seq<char>, wrote_any: bool) -> Seq<char> {
    if wrote_any && !is_standalone_punct(piece) {
        out + seq![' '] + piece
    } else {
        out + piece
    }
}

/// Writes one token piece to `out`, with the punctuation-aware joining rule.
pub fn push_text_piece(out: &mut String, piece: &str, wrote_any: &mut bool)
    ensures
        final(out)@ == with_piece(old(out)@, piece@, *old(wrote_any)),
        *final(wrote_any),
{
    proof {
        reveal_strlit(" ");
        assert(" "@ =~= seq![' ']);
    }
    let standalone = piece.unicode_len() == 1 && char_is_closing_punct(piece.get_char(0));
    if *wrote_any && !standalone {
        out.append(" ");
    }
    out.append(piece);
    *wrote_any = true;
}

/// The committed transcript after `delta` is appended: a space joins the two
/// unless the transcript is empty or already ends in a space or newline, or the
/// delta opens with closing punctuation.
pub open spec fn appended(committed: Seq<char>, delta: Seq<char>) -> Seq<char> {
    if delta.len() == 0 {
        committed
    } else if committed.len() == 0 {
        delta
    } else if committed.last() != ' ' && committed.last() != '\n' && !is_closing_punct(delta[0]) {
        committed + seq![' '] + delta
    } else {
        committed + delta
    }
}

/// Appends a committed delta to the transcript.
pub fn append_committed_delta(committed_text: &mut String, delta: &str)
    ensures
        final(committed_text)@ == appended(old(committed_text)@, delta@),
{
    let dn = delta.unicode_len();
    if dn == 0 {
        return;
    }
    let cn = committed_text.as_str().unicode_len();
    if cn == 0 {
        committed_text.append(delta);
        assert(old(committed_text)@ + delta@ =~= delta@);
        return;
    }
    let last = committed_text.as_str().get_char(cn - 1);
    let needs_space = last != ' ' && last != '\n' && !char_is_closing_punct(delta.get_char(0));
    if needs_space {
        committed_text.append(" ");
        proof {
            reveal_strlit(" ");
            assert(old(committed_text)@ + seq![' '] =~= old(committed_text)@ + " "@);
        }
    }
    committed_text.append(delta);
}

} // verus!

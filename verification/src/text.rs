//! Small helpers on strings and their UTF-8 bytes.

use vstd::prelude::*;
use vstd::utf8::*;

verus! {

/// Trusted: `core::str::from_utf8`. It accepts exactly the byte slices that
/// are valid UTF-8, and the string it hands back is made of those same bytes.
#[verifier::external_body]
pub(crate) fn utf8_text(bytes: &[u8]) -> (text: Option<&str>)
    ensures
        text is Some <==> valid_utf8(bytes@),
        text matches Some(s) ==> encode_utf8(s@) == bytes@,
{
    match core::str::from_utf8(bytes) {
        Ok(text) => Some(text),
        Err(_) => None,
    }
}

/// Whether two strings hold the same characters.
pub fn str_eq(a: &str, b: &str) -> (same: bool)
    ensures
        same == (a@ == b@),
{
    let x = a.as_bytes();
    let y = b.as_bytes();
    proof {
        encode_utf8_decode_utf8(a@);
        encode_utf8_decode_utf8(b@);
    }
    if x.len() != y.len() {
        return false;
    }
    let mut i: usize = 0;
    while i < x.len()
        invariant
            x@ == encode_utf8(a@),
            y@ == encode_utf8(b@),
            x@.len() == y@.len(),
            i <= x@.len(),
            forall|k: int| 0 <= k < i ==> x@[k] == y@[k],
        decreases x@.len() - i,
    {
        if x[i] != y[i] {
            return false;
        }
        i += 1;
    }
    assert(x@ =~= y@);
    true
}

/// The characters with the Unicode property `White_Space`.
pub open spec fn is_whitespace(c: char) -> bool {
    let u = c as u32;
    ||| 0x09 <= u <= 0x0D
    ||| u == 0x20
    ||| u == 0x85
    ||| u == 0xA0
    ||| u == 0x1680
    ||| 0x2000 <= u <= 0x200A
    ||| u == 0x2028
    ||| u == 0x2029
    ||| u == 0x202F
    ||| u == 0x205F
    ||| u == 0x3000
}

/// Whether a character is whitespace.
pub fn is_whitespace_char(c: char) -> (white: bool)
    ensures
        white == is_whitespace(c),
{
    let u: u32 = c as u32;
    (0x09 <= u && u <= 0x0D) || u == 0x20 || u == 0x85 || u == 0xA0 || u == 0x1680 || (0x2000 <= u
        && u <= 0x200A) || u == 0x2028 || u == 0x2029 || u == 0x202F || u == 0x205F || u == 0x3000
}

/// A text without the whitespace it begins with.
pub open spec fn trim_start(text: Seq<char>) -> Seq<char>
    decreases text.len(),
{
    if text.len() > 0 && is_whitespace(text.first()) {
        trim_start(text.drop_first())
    } else {
        text
    }
}

/// A text without the whitespace it ends with.
pub open spec fn trim_end(text: Seq<char>) -> Seq<char>
    decreases text.len(),
{
    if text.len() > 0 && is_whitespace(text.last()) {
        trim_end(text.drop_last())
    } else {
        text
    }
}

/// A text without the whitespace at both of its ends.
pub open spec fn trim(text: Seq<char>) -> Seq<char> {
    trim_end(trim_start(text))
}

/// The lines of a text: the pieces between its line feeds. A text with `n`
/// line feeds has `n + 1` lines, some of which may be empty.
pub open spec fn lines(text: Seq<char>) -> Seq<Seq<char>>
    decreases text.len(),
{
    if text.len() == 0 {
        seq![Seq::empty()]
    } else {
        let before = lines(text.drop_last());
        if text.last() == '\n' {
            before.push(Seq::empty())
        } else {
            before.update(before.len() - 1, before.last().push(text.last()))
        }
    }
}

/// Lines put together again, with a line feed between each two.
pub open spec fn join_lines(lines: Seq<Seq<char>>) -> Seq<char>
    decreases lines.len(),
{
    if lines.len() == 0 {
        Seq::empty()
    } else if lines.len() == 1 {
        lines[0]
    } else {
        join_lines(lines.drop_last()) + seq!['\n'] + lines.last()
    }
}

/// What the lines of a text are: there is at least one, none of them holds a
/// line feed, and joined by line feeds they are the text.
pub proof fn lemma_lines(text: Seq<char>)
    ensures
        lines(text).len() >= 1,
        forall|k: int| 0 <= k < lines(text).len() ==> !(#[trigger] lines(text)[k]).contains('\n'),
        join_lines(lines(text)) == text,
    decreases text.len(),
{
    if text.len() > 0 {
        let init = text.drop_last();
        let before = lines(init);
        let after = lines(text);
        lemma_lines(init);
        if text.last() == '\n' {
            assert(after.drop_last() == before);
        } else {
            let grown = before.last().push(text.last());
            if before.len() > 1 {
                assert(after.drop_last() == before.drop_last());
                assert(join_lines(before.drop_last()) + seq!['\n'] + grown == (join_lines(
                    before.drop_last(),
                ) + seq!['\n'] + before.last()).push(text.last()));
            }
        }
    }
}

/// The characters of a text, one by one.
pub fn chars_of(text: &str) -> (chars: Vec<char>)
    ensures
        chars@ == text@,
{
    let mut chars: Vec<char> = Vec::new();
    for c in it: text.chars()
        invariant
            chars@ == it.seq().take(it.index()),
            it.seq() == text@,
    {
        chars.push(c);
    }
    chars
}

/// The piece of `text` between two places, counted in characters, without
/// the whitespace at its ends.
fn trimmed_piece(text: &str, chars: &Vec<char>, from: usize, to: usize) -> (piece: String)
    requires
        chars@ == text@,
        from <= to <= chars@.len(),
    ensures
        piece@ == trim(text@.subrange(from as int, to as int)),
{
    let ghost all = text@;
    let mut a = from;
    while a < to && is_whitespace_char(chars[a])
        invariant
            chars@ == all,
            from <= a <= to <= all.len(),
            trim_start(all.subrange(from as int, to as int)) == trim_start(
                all.subrange(a as int, to as int),
            ),
        decreases to - a,
    {
        assert(all.subrange(a as int, to as int).drop_first() == all.subrange(a + 1, to as int));
        a += 1;
    }
    let mut b = to;
    while b > a && is_whitespace_char(chars[b - 1])
        invariant
            chars@ == all,
            a <= b <= to <= all.len(),
            trim_end(all.subrange(a as int, to as int)) == trim_end(
                all.subrange(a as int, b as int),
            ),
        decreases b - a,
    {
        assert(all.subrange(a as int, b as int).drop_last() == all.subrange(a as int, b - 1));
        b -= 1;
    }
    text.substring_char(a, b).to_owned()
}

/// The lines of a text, each without the whitespace at its ends.
pub fn trimmed_lines(text: &str) -> (found: Vec<String>)
    ensures
        found@.len() == lines(text@).len(),
        forall|k: int| 0 <= k < found@.len() ==> (#[trigger] found@[k])@ == trim(lines(text@)[k]),
{
    let chars = chars_of(text);
    let ghost all = text@;
    let n = chars.len();
    let mut found: Vec<String> = Vec::new();
    let mut start: usize = 0;
    let mut i: usize = 0;
    while i < n
        invariant
            chars@ == all,
            all == text@,
            n == all.len(),
            start <= i <= n,
            lines(all.subrange(0, i as int)).len() == found@.len() + 1,
            lines(all.subrange(0, i as int)).last() == all.subrange(start as int, i as int),
            forall|k: int|
                0 <= k < found@.len() ==> (#[trigger] found@[k])@ == trim(
                    lines(all.subrange(0, i as int))[k],
                ),
        decreases n - i,
    {
        let ghost seen = all.subrange(0, i as int);
        let ghost next = all.subrange(0, i + 1);
        assert(next.drop_last() == seen);
        if chars[i] == '\n' {
            let piece = trimmed_piece(text, &chars, start, i);
            found.push(piece);
            start = i + 1;
        }
        i += 1;
    }
    assert(all.subrange(0, n as int) == all);
    let piece = trimmed_piece(text, &chars, start, n);
    found.push(piece);
    found
}

} // verus!

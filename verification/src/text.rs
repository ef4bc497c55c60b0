use vstd::prelude::*;
use vstd::utf8::*;

verus! {

broadcast use encode_utf8_valid_utf8;

/// Number of bytes that the UTF-8 encoding of `t` occupies.
pub open spec fn utf8_width(t: Seq<char>) -> nat {
    encode_utf8(t).len()
}

/// `cursor` is the byte offset at which the first `k` characters of `t` end.
pub open spec fn cursor_at(t: Seq<char>, cursor: int, k: int) -> bool {
    0 <= k <= t.len() && utf8_width(t.take(k)) == cursor
}

/// `cursor` is a byte offset into the UTF-8 encoding of `t` that falls between two characters
/// (or at either end).
pub open spec fn valid_cursor(t: Seq<char>, cursor: int) -> bool {
    exists|k: int| cursor_at(t, cursor, k)
}

/// The number of characters that lie before a valid byte cursor.
pub open spec fn cursor_index(t: Seq<char>, cursor: int) -> int {
    choose|k: int| cursor_at(t, cursor, k)
}

pub proof fn lemma_encode_empty()
    ensures
        encode_utf8(Seq::<char>::empty()) =~= Seq::<u8>::empty(),
{
}

pub proof fn lemma_encode_single(c: char)
    ensures
        encode_utf8(seq![c]) =~= encode_scalar(c as u32),
        1 <= utf8_width(seq![c]) <= 4,
{
    assert(seq![c].drop_first() =~= Seq::<char>::empty());
    lemma_encode_empty();
}

/// Encoding distributes over concatenation.
pub proof fn lemma_encode_concat(a: Seq<char>, b: Seq<char>)
    ensures
        encode_utf8(a + b) =~= encode_utf8(a) + encode_utf8(b),
    decreases a.len(),
{
    if a.len() == 0 {
        assert(a + b =~= b);
        lemma_encode_empty();
    } else {
        assert((a + b).drop_first() =~= a.drop_first() + b);
        assert((a + b)[0] == a[0]);
        lemma_encode_concat(a.drop_first(), b);
    }
}

/// Different character sequences have different encodings.
pub proof fn lemma_encode_injective(a: Seq<char>, b: Seq<char>)
    requires
        encode_utf8(a) == encode_utf8(b),
    ensures
        a == b,
{
    encode_utf8_decode_utf8(a);
    encode_utf8_decode_utf8(b);
}

/// The width of the first `k + 1` characters is the width of the first `k` plus that of
/// character `k`.
pub proof fn lemma_width_step(t: Seq<char>, k: int)
    requires
        0 <= k < t.len(),
    ensures
        utf8_width(t.take(k + 1)) == utf8_width(t.take(k)) + utf8_width(seq![t[k]]),
        1 <= utf8_width(seq![t[k]]) <= 4,
{
    assert(t.take(k + 1) =~= t.take(k) + seq![t[k]]);
    lemma_encode_concat(t.take(k), seq![t[k]]);
    lemma_encode_single(t[k]);
}

/// Prefix widths grow strictly with the number of characters.
pub proof fn lemma_width_strictly_increasing(t: Seq<char>, i: int, j: int)
    requires
        0 <= i < j <= t.len(),
    ensures
        utf8_width(t.take(i)) < utf8_width(t.take(j)),
        utf8_width(t.take(i)) + utf8_width(seq![t[i]]) <= utf8_width(t.take(j)),
    decreases j - i,
{
    lemma_width_step(t, i);
    if i + 1 < j {
        lemma_width_strictly_increasing(t, i + 1, j);
    }
}

pub proof fn lemma_width_take_all(t: Seq<char>)
    ensures
        utf8_width(t.take(t.len() as int)) == utf8_width(t),
        utf8_width(t.take(0)) == 0,
{
    assert(t.take(t.len() as int) =~= t);
    assert(t.take(0) =~= Seq::<char>::empty());
    lemma_encode_empty();
}

pub proof fn lemma_width_prefix_bound(t: Seq<char>, k: int)
    requires
        0 <= k <= t.len(),
    ensures
        utf8_width(t.take(k)) <= utf8_width(t),
        k < t.len() ==> utf8_width(t.take(k)) < utf8_width(t),
{
    lemma_width_take_all(t);
    if k < t.len() {
        lemma_width_strictly_increasing(t, k, t.len() as int);
    }
}

/// A valid cursor determines the number of characters before it.
pub proof fn lemma_cursor_unique(t: Seq<char>, cursor: int, k: int)
    requires
        cursor_at(t, cursor, k),
    ensures
        valid_cursor(t, cursor),
        cursor_index(t, cursor) == k,
{
    let j = cursor_index(t, cursor);
    assert(cursor_at(t, cursor, j));
    if j < k {
        lemma_width_strictly_increasing(t, j, k);
    } else if k < j {
        lemma_width_strictly_increasing(t, k, j);
    }
}

/// Splitting the encoding at a prefix width gives the encodings of the two parts.
pub proof fn lemma_encode_split(t: Seq<char>, k: int)
    requires
        0 <= k <= t.len(),
    ensures
        encode_utf8(t).take(utf8_width(t.take(k)) as int) =~= encode_utf8(t.take(k)),
        encode_utf8(t).skip(utf8_width(t.take(k)) as int) =~= encode_utf8(t.skip(k)),
{
    assert(t =~= t.take(k) + t.skip(k));
    lemma_encode_concat(t.take(k), t.skip(k));
}

/// Every prefix width is a character boundary of the encoding.
pub proof fn lemma_boundary_at_prefix(t: Seq<char>, k: int)
    requires
        0 <= k <= t.len(),
    ensures
        is_char_boundary(encode_utf8(t), utf8_width(t.take(k)) as int),
    decreases t.len(),
{
    let b = encode_utf8(t);
    if k == 0 {
        lemma_width_take_all(t);
    } else {
        let rest = t.drop_first();
        encode_utf8_first_scalar(t);
        lemma_encode_single(t[0]);
        assert(pop_first_scalar(b) =~= encode_utf8(rest));
        assert(t.take(k) =~= seq![t[0]] + rest.take(k - 1));
        lemma_encode_concat(seq![t[0]], rest.take(k - 1));
        lemma_boundary_at_prefix(rest, k - 1);
        lemma_width_prefix_bound(t, k);
    }
}

/// Every character boundary of the encoding is a prefix width.
pub proof fn lemma_boundary_is_prefix(t: Seq<char>, j: int) -> (k: int)
    requires
        is_char_boundary(encode_utf8(t), j),
    ensures
        cursor_at(t, j, k),
    decreases t.len(),
{
    let b = encode_utf8(t);
    if j == 0 {
        lemma_width_take_all(t);
        0
    } else {
        let rest = t.drop_first();
        if t.len() == 0 {
            lemma_encode_empty();
            assert(false);
        }
        encode_utf8_first_scalar(t);
        lemma_encode_single(t[0]);
        assert(pop_first_scalar(b) =~= encode_utf8(rest));
        let k1 = lemma_boundary_is_prefix(rest, j - encode_scalar(t[0] as u32).len());
        assert(t.take(k1 + 1) =~= seq![t[0]] + rest.take(k1));
        lemma_encode_concat(seq![t[0]], rest.take(k1));
        k1 + 1
    }
}

/// Length of `s` in bytes.
pub fn byte_len(s: &str) -> (n: usize)
    ensures
        n == utf8_width(s@),
{
    s.as_bytes().len()
}

/// Number of bytes that `c` occupies in UTF-8.
pub fn char_width(c: char) -> (w: usize)
    ensures
        w == utf8_width(seq![c]),
        1 <= w <= 4,
{
    let u = c as u32;
    proof {
        lemma_encode_single(c);
    }
    if u < 0x80 {
        1
    } else if u < 0x800 {
        2
    } else if u < 0x10000 {
        3
    } else {
        4
    }
}


/// A character sequence together with a byte offset into its UTF-8 encoding: the model of an
/// edit line such as the query editor or the file-name input.
pub struct TextCursor {
    pub text: Seq<char>,
    pub cursor: int,
}

impl TextCursor {
    /// The cursor sits between two characters.
    pub open spec fn wf(self) -> bool {
        valid_cursor(self.text, self.cursor)
    }

    /// Number of characters before the cursor.
    pub open spec fn index(self) -> int {
        cursor_index(self.text, self.cursor)
    }

    /// The cursor is at the end of the text.
    pub open spec fn at_end(self) -> bool {
        self.cursor == utf8_width(self.text)
    }

    /// Typing `c`: it goes in before the cursor, and the cursor moves past it.
    pub open spec fn inserted(self, c: char) -> TextCursor {
        TextCursor {
            text: self.text.insert(self.index(), c),
            cursor: self.cursor + utf8_width(seq![c]),
        }
    }

    /// Backspace: the character before the cursor goes, and the cursor moves to where it began.
    pub open spec fn deleted_back(self) -> TextCursor {
        if self.cursor > 0 {
            TextCursor {
                text: self.text.remove(self.index() - 1),
                cursor: utf8_width(self.text.take(self.index() - 1)) as int,
            }
        } else {
            self
        }
    }

    /// The cursor moves back over one character, if there is one.
    pub open spec fn moved_left(self) -> TextCursor {
        if self.cursor > 0 {
            TextCursor { text: self.text, cursor: utf8_width(self.text.take(self.index() - 1)) as int }
        } else {
            self
        }
    }

    /// The cursor moves forward over one character, if there is one.
    pub open spec fn moved_right(self) -> TextCursor {
        if self.cursor < utf8_width(self.text) {
            TextCursor { text: self.text, cursor: utf8_width(self.text.take(self.index() + 1)) as int }
        } else {
            self
        }
    }
}

pub proof fn lemma_wf_index(e: TextCursor)
    requires
        e.wf(),
    ensures
        cursor_at(e.text, e.cursor, e.index()),
        0 <= e.cursor <= utf8_width(e.text),
        e.cursor > 0 <==> e.index() > 0,
        e.cursor < utf8_width(e.text) <==> e.index() < e.text.len(),
{
    let k = e.index();
    assert(cursor_at(e.text, e.cursor, k));
    lemma_width_prefix_bound(e.text, k);
    lemma_width_take_all(e.text);
    if k > 0 {
        lemma_width_strictly_increasing(e.text, 0, k);
    }
}

/// Typing a character and then pressing backspace gives back the text and the cursor.
pub proof fn law_insert_then_delete(e: TextCursor, c: char)
    requires
        e.wf(),
    ensures
        e.inserted(c).wf(),
        e.inserted(c).deleted_back() == e,
{
    let k = e.index();
    let t = e.text;
    lemma_wf_index(e);
    let u = t.insert(k, c);
    assert(u.take(k + 1) =~= t.take(k) + seq![c]);
    lemma_encode_concat(t.take(k), seq![c]);
    lemma_encode_single(c);
    lemma_cursor_unique(u, e.cursor + utf8_width(seq![c]), k + 1);
    assert(u.take(k) =~= t.take(k));
    assert(u.remove(k) =~= t);
}

/// Moving right and then left returns the cursor to where it was, unless it was at the end.
pub proof fn law_right_then_left(e: TextCursor)
    requires
        e.wf(),
        e.cursor < utf8_width(e.text),
    ensures
        e.moved_right().wf(),
        e.moved_right().moved_left() == e,
{
    let k = e.index();
    lemma_wf_index(e);
    lemma_width_strictly_increasing(e.text, k, k + 1);
    lemma_cursor_unique(e.text, e.moved_right().cursor, k + 1);
}

/// Moving left and then right returns the cursor to where it was, unless it was at the start.
pub proof fn law_left_then_right(e: TextCursor)
    requires
        e.wf(),
        e.cursor > 0,
    ensures
        e.moved_left().wf(),
        e.moved_left().moved_right() == e,
{
    let k = e.index();
    lemma_wf_index(e);
    lemma_width_strictly_increasing(e.text, k - 1, k);
    lemma_width_prefix_bound(e.text, k);
    lemma_cursor_unique(e.text, e.moved_left().cursor, k - 1);
}

/// Every editing step keeps the cursor between two characters.
pub proof fn law_steps_keep_cursor_valid(e: TextCursor, c: char)
    requires
        e.wf(),
    ensures
        e.inserted(c).wf(),
        e.deleted_back().wf(),
        e.moved_left().wf(),
        e.moved_right().wf(),
        0 <= e.cursor <= utf8_width(e.text),
{
    let k = e.index();
    let t = e.text;
    lemma_wf_index(e);
    law_insert_then_delete(e, c);
    if e.cursor > 0 {
        law_left_then_right(e);
        let u = t.remove(k - 1);
        assert(u.take(k - 1) =~= t.take(k - 1));
        assert(cursor_at(u, e.deleted_back().cursor, k - 1));
    }
    if e.cursor < utf8_width(t) {
        law_right_then_left(e);
    }
}

/// `String::insert`: puts `c` into `s` at byte offset `idx`, which must be a character
/// boundary; the bytes before `idx` stay, then come the bytes of `c`, then the rest.
/// As vstd does for growing a `Vec`, the contract leaves out that the call panics when the
/// string would outgrow `isize::MAX` bytes.
#[verifier::external_body]
fn string_insert(s: &mut String, idx: usize, c: char)
    requires
        is_char_boundary(encode_utf8(old(s)@), idx as int),
    ensures
        encode_utf8(final(s)@) == encode_utf8(old(s)@).take(idx as int) + encode_utf8(seq![c])
            + encode_utf8(old(s)@).skip(idx as int),
{
    s.insert(idx, c)
}

/// `String::remove`: takes out the character whose encoding starts at byte offset `idx`
/// (a character boundary before the end) and returns it.
#[verifier::external_body]
fn string_remove(s: &mut String, idx: usize) -> (r: char)
    requires
        idx < utf8_width(old(s)@),
        is_char_boundary(encode_utf8(old(s)@), idx as int),
    ensures
        r as u32 == decode_first_scalar(encode_utf8(old(s)@).skip(idx as int)),
        encode_utf8(final(s)@) == encode_utf8(old(s)@).take(idx as int) + encode_utf8(old(s)@).skip(
            idx + length_of_first_scalar(encode_utf8(old(s)@).skip(idx as int)),
        ),
{
    s.remove(idx)
}

/// Inserts `c` at the cursor; returns the cursor after it.
pub fn insert_at_cursor(s: &mut String, cursor: usize, c: char) -> (new_cursor: usize)
    requires
        (TextCursor { text: old(s)@, cursor: cursor as int }).wf(),
    ensures
        (TextCursor { text: final(s)@, cursor: new_cursor as int }) == (TextCursor {
            text: old(s)@,
            cursor: cursor as int,
        }).inserted(c),
        (TextCursor { text: final(s)@, cursor: new_cursor as int }).wf(),
{
    let ghost e = TextCursor { text: s@, cursor: cursor as int };
    let ghost t = s@;
    let ghost k = e.index();
    proof {
        lemma_wf_index(e);
        lemma_boundary_at_prefix(t, k);
        lemma_encode_split(t, k);
    }
    let w = char_width(c);
    string_insert(s, cursor, c);
    let total = byte_len(s.as_str());
    proof {
        let u = t.insert(k, c);
        assert(u =~= t.take(k) + (seq![c] + t.skip(k)));
        lemma_encode_concat(t.take(k), seq![c] + t.skip(k));
        lemma_encode_concat(seq![c], t.skip(k));
        assert(encode_utf8(s@) =~= encode_utf8(u));
        lemma_encode_injective(s@, u);
        assert(u.take(k + 1) =~= t.take(k) + seq![c]);
        lemma_encode_concat(t.take(k), seq![c]);
        assert(cursor_at(u, cursor + w, k + 1));
        lemma_cursor_unique(u, cursor + w, k + 1);
        lemma_width_prefix_bound(u, k + 1);
    }
    cursor + w
}

/// The byte offset at which the character before the cursor begins.
pub fn prev_boundary(s: &str, cursor: usize) -> (p: usize)
    requires
        (TextCursor { text: s@, cursor: cursor as int }).wf(),
        cursor > 0,
    ensures
        p == utf8_width(s@.take(cursor_index(s@, cursor as int) - 1)),
        p < cursor,
{
    let ghost t = s@;
    let ghost e = TextCursor { text: t, cursor: cursor as int };
    let ghost k = e.index();
    let ghost b = encode_utf8(t);
    proof {
        lemma_wf_index(e);
    }
    let mut p = cursor - 1;
    while !s.is_char_boundary(p)
        invariant
            0 <= p < cursor,
            s@ == t,
            b == encode_utf8(t),
            cursor_at(t, cursor as int, k),
            forall|q: int| p < q < cursor ==> !#[trigger] is_char_boundary(b, q),
        decreases p,
    {
        assert(p != 0);
        p = p - 1;
    }
    proof {
        let m = lemma_boundary_is_prefix(t, p as int);
        if m >= k {
            if m > k {
                lemma_width_strictly_increasing(t, k, m);
            }
            assert(false);
        }
        if m < k - 1 {
            lemma_width_strictly_increasing(t, m, k - 1);
            lemma_width_strictly_increasing(t, k - 1, k);
            lemma_boundary_at_prefix(t, k - 1);
            assert(false);
        }
    }
    p
}

/// The byte offset at which the character after the cursor ends.
pub fn next_boundary(s: &str, cursor: usize) -> (p: usize)
    requires
        (TextCursor { text: s@, cursor: cursor as int }).wf(),
        cursor < utf8_width(s@),
    ensures
        p == utf8_width(s@.take(cursor_index(s@, cursor as int) + 1)),
        cursor < p <= utf8_width(s@),
{
    let ghost t = s@;
    let ghost e = TextCursor { text: t, cursor: cursor as int };
    let ghost k = e.index();
    let ghost b = encode_utf8(t);
    proof {
        lemma_wf_index(e);
    }
    let len = byte_len(s);
    let mut p = cursor + 1;
    while p < len && !s.is_char_boundary(p)
        invariant
            cursor < p <= len,
            len == utf8_width(t),
            s@ == t,
            b == encode_utf8(t),
            cursor_at(t, cursor as int, k),
            forall|q: int| cursor < q < p ==> !#[trigger] is_char_boundary(b, q),
        decreases len - p,
    {
        p = p + 1;
    }
    proof {
        if p == len {
            lemma_width_take_all(t);
            lemma_boundary_at_prefix(t, t.len() as int);
        }
        let m = lemma_boundary_is_prefix(t, p as int);
        if m <= k {
            if m < k {
                lemma_width_strictly_increasing(t, m, k);
            }
            assert(false);
        }
        if m > k + 1 {
            lemma_width_strictly_increasing(t, k + 1, m);
            lemma_width_strictly_increasing(t, k, k + 1);
            lemma_boundary_at_prefix(t, k + 1);
            assert(false);
        }
    }
    p
}

/// Removes the character before the cursor; returns the cursor where it began.
pub fn delete_before_cursor(s: &mut String, cursor: usize) -> (new_cursor: usize)
    requires
        (TextCursor { text: old(s)@, cursor: cursor as int }).wf(),
        cursor > 0,
    ensures
        (TextCursor { text: final(s)@, cursor: new_cursor as int }) == (TextCursor {
            text: old(s)@,
            cursor: cursor as int,
        }).deleted_back(),
        (TextCursor { text: final(s)@, cursor: new_cursor as int }).wf(),
{
    let ghost e = TextCursor { text: s@, cursor: cursor as int };
    let ghost t = s@;
    let ghost k = e.index();
    proof {
        lemma_wf_index(e);
    }
    let prev = prev_boundary(s.as_str(), cursor);
    proof {
        lemma_boundary_at_prefix(t, k - 1);
        lemma_width_prefix_bound(t, k - 1);
        lemma_encode_split(t, k - 1);
        lemma_encode_split(t, k);
        let rest = t.skip(k - 1);
        encode_utf8_first_scalar(rest);
        lemma_encode_single(rest[0]);
        lemma_width_step(t, k - 1);
        assert(rest[0] == t[k - 1]);
    }
    let _ = string_remove(s, prev);
    proof {
        let u = t.remove(k - 1);
        assert(u =~= t.take(k - 1) + t.skip(k));
        lemma_encode_concat(t.take(k - 1), t.skip(k));
        assert(encode_utf8(s@) =~= encode_utf8(u));
        lemma_encode_injective(s@, u);
        assert(u.take(k - 1) =~= t.take(k - 1));
        assert(cursor_at(u, prev as int, k - 1));
        lemma_cursor_unique(u, prev as int, k - 1);
    }
    prev
}


/// Number of line feeds in `t`.
pub open spec fn newline_count(t: Seq<char>) -> nat
    decreases t.len(),
{
    if t.len() == 0 {
        0
    } else {
        newline_count(t.drop_last()) + if t.last() == '\n' {
            1nat
        } else {
            0nat
        }
    }
}

/// Number of lines of `t` in the sense of `str::lines`: the pieces between line feeds,
/// where a line feed at the very end does not open another line.
pub open spec fn line_count(t: Seq<char>) -> nat {
    newline_count(t) + if t.len() > 0 && t.last() != '\n' {
        1nat
    } else {
        0nat
    }
}

pub proof fn lemma_newline_count_bound(t: Seq<char>)
    ensures
        newline_count(t) <= t.len(),
    decreases t.len(),
{
    if t.len() > 0 {
        lemma_newline_count_bound(t.drop_last());
    }
}

/// Every character takes at least one byte.
pub proof fn lemma_width_at_least_len(t: Seq<char>)
    ensures
        t.len() <= utf8_width(t),
    decreases t.len(),
{
    if t.len() == 0 {
        lemma_encode_empty();
    } else {
        assert(t =~= seq![t[0]] + t.drop_first());
        lemma_encode_concat(seq![t[0]], t.drop_first());
        lemma_encode_single(t[0]);
        lemma_width_at_least_len(t.drop_first());
    }
}

/// Counts the lines of `s` as `str::lines` yields them.
pub fn count_lines(s: &str) -> (n: usize)
    ensures
        n == line_count(s@),
{
    let ghost t = s@;
    let total = byte_len(s);
    proof {
        lemma_width_at_least_len(t);
    }
    let mut newlines: usize = 0;
    let mut seen: usize = 0;
    let mut last_is_newline = false;
    for ch in it: s.chars()
        invariant
            t == s@,
            it.seq() == t,
            seen == it.index(),
            t.len() <= total,
            newlines == newline_count(t.take(seen as int)),
            seen > 0 ==> last_is_newline == (t[seen - 1] == '\n'),
    {
        proof {
            lemma_newline_count_bound(t.take(seen as int));
            assert(t.take(seen + 1).drop_last() =~= t.take(seen as int));
        }
        if ch == '\n' {
            newlines = newlines + 1;
            last_is_newline = true;
        } else {
            last_is_newline = false;
        }
        seen = seen + 1;
    }
    proof {
        assert(t.take(seen as int) =~= t);
        if seen > 0 {
            lemma_newline_count_bound(t.drop_last());
        }
    }
    if seen > 0 && !last_is_newline {
        newlines + 1
    } else {
        newlines
    }
}

} // verus!

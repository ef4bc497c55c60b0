use vstd::prelude::*;

use crate::app::App;
use crate::database::QueryResult;
use crate::message::{concat2, decimal, decimal_string, string_push};
use crate::listing::texts;
use crate::text::{
    char_width, cursor_at, cursor_index, lemma_cursor_unique, lemma_encode_concat,
    lemma_encode_empty, lemma_newline_count_bound, lemma_width_at_least_len,
    lemma_width_prefix_bound, lemma_width_step, lemma_width_strictly_increasing,
    lemma_width_take_all, line_count, newline_count, utf8_width, valid_cursor,
};

verus! {

/// What fills the terminal.
#[derive(Debug, Clone, Copy, PartialEq, Eq, Structural)]
pub enum Screen {
    /// The key reference.
    Help,
    /// The list of `.sql` files beside the preview of the selected one.
    FileBrowser,
    /// Editor, results and status line, with the save prompt over them when it is open.
    Main { save_dialog: bool },
}

/// The screen that `app` shows: help first, then the file browser, then the main panes.
pub open spec fn spec_screen(app: App) -> Screen {
    if app.show_help {
        Screen::Help
    } else if app.file_browser.active {
        Screen::FileBrowser
    } else {
        Screen::Main { save_dialog: app.save_dialog.active }
    }
}

/// The screen that `app` shows.
pub fn screen(app: &App) -> (s: Screen)
    ensures
        s == spec_screen(*app),
{
    if app.show_help {
        Screen::Help
    } else if app.file_browser.active {
        Screen::FileBrowser
    } else {
        Screen::Main { save_dialog: app.save_dialog.active }
    }
}

/// The characters of the line that `t` ends in: those after its last line feed.
pub open spec fn line_tail(t: Seq<char>) -> Seq<char>
    decreases t.len(),
{
    if t.len() == 0 {
        Seq::<char>::empty()
    } else if t.last() == '\n' {
        Seq::<char>::empty()
    } else {
        line_tail(t.drop_last()).push(t.last())
    }
}

/// The line the cursor ends on is the end of the text after its last line feed: a suffix of the
/// text, holding no line feed, and either the whole text or preceded by a line feed.
pub proof fn law_line_tail_is_last_line(t: Seq<char>)
    ensures
        line_tail(t).len() <= t.len(),
        line_tail(t) == t.skip(t.len() - line_tail(t).len()),
        forall|i: int| 0 <= i < line_tail(t).len() ==> #[trigger] line_tail(t)[i] != '\n',
        line_tail(t).len() < t.len() ==> t[t.len() - line_tail(t).len() - 1] == '\n',
    decreases t.len(),
{
    if t.len() > 0 {
        let s = t.drop_last();
        law_line_tail_is_last_line(s);
        if t.last() != '\n' {
            let l = line_tail(s);
            assert(line_tail(t) =~= l.push(t.last()));
            assert(t.skip(t.len() - line_tail(t).len()) =~= s.skip(s.len() - l.len()).push(t.last()));
            assert forall|i: int| 0 <= i < line_tail(t).len() implies #[trigger] line_tail(t)[i]
                != '\n' by {
                if i < l.len() {
                    assert(line_tail(t)[i] == l[i]);
                }
            }
            if line_tail(t).len() < t.len() {
                assert(t[t.len() - line_tail(t).len() - 1] == s[s.len() - l.len() - 1]);
            }
        } else {
            assert(t.skip(t.len() as int) =~= Seq::<char>::empty());
        }
    } else {
        assert(t.skip(0) =~= t);
    }
}

/// The save prompt's field is a space, then the input (a space when it is empty), then spaces
/// up to the field width; the input is never cut.
pub proof fn law_save_field_shows_input(input: Seq<char>, width: nat)
    ensures
        spec_save_field(input, width)[0] == ' ',
        input.len() > 0 ==> spec_save_field(input, width).subrange(1, input.len() + 1int) == input,
        spec_save_field(input, width).len() == 1 + if input.len() == 0 {
            if width > 1 {
                width
            } else {
                1
            }
        } else if input.len() < width {
            width
        } else {
            input.len()
        },
        forall|i: int|
            (if input.len() == 0 {
                1
            } else {
                input.len() + 1
            }) <= i < spec_save_field(input, width).len() ==> #[trigger] spec_save_field(
                input,
                width,
            )[i] == ' ',
{
    let f = spec_save_field(input, width);
    if input.len() > 0 {
        assert(f.subrange(1, input.len() + 1int) =~= input);
    }
}

proof fn lemma_line_tail_width(t: Seq<char>)
    ensures
        utf8_width(line_tail(t)) <= utf8_width(t),
    decreases t.len(),
{
    if t.len() > 0 {
        lemma_line_tail_width(t.drop_last());
        assert(t =~= t.drop_last().push(t.last()));
        lemma_encode_concat(t.drop_last(), seq![t.last()]);
        if t.last() != '\n' {
            lemma_encode_concat(line_tail(t.drop_last()), seq![t.last()]);
            assert(line_tail(t.drop_last()).push(t.last()) =~= line_tail(t.drop_last()) + seq![
                t.last(),
            ]);
            assert(t.drop_last().push(t.last()) =~= t.drop_last() + seq![t.last()]);
        } else {
            lemma_encode_empty();
        }
    } else {
        lemma_encode_empty();
    }
}

/// The line (counting from 0) and the byte column of the cursor at byte offset `cursor`
/// of `s`.
pub fn cursor_line_column(s: &str, cursor: usize) -> (r: (usize, usize))
    requires
        valid_cursor(s@, cursor as int),
    ensures
        r.0 == newline_count(s@.take(cursor_index(s@, cursor as int))),
        r.1 == utf8_width(line_tail(s@.take(cursor_index(s@, cursor as int)))),
{
    let ghost t = s@;
    let ghost k = cursor_index(t, cursor as int);
    proof {
        assert(cursor_at(t, cursor as int, k));
    }
    let mut offset: usize = 0;
    let mut line: usize = 0;
    let mut column: usize = 0;
    let mut done = false;
    proof {
        lemma_width_take_all(t);
        assert(t.take(0) =~= Seq::<char>::empty());
    }
    for ch in it: s.chars()
        invariant
            t == s@,
            it.seq() == t,
            cursor_at(t, cursor as int, k),
            k == cursor_index(t, cursor as int),
            !done ==> it.index() <= k,
            !done ==> offset == utf8_width(t.take(it.index())),
            !done ==> line == newline_count(t.take(it.index())),
            !done ==> column == utf8_width(line_tail(t.take(it.index()))),
            done ==> line == newline_count(t.take(k)),
            done ==> column == utf8_width(line_tail(t.take(k))),
            offset <= cursor,
    {
        let ghost i = it.index();
        if !done {
            if offset == cursor {
                proof {
                    lemma_cursor_unique(t, cursor as int, i);
                }
                done = true;
            } else {
                proof {
                    if i == k {
                        assert(false);
                    }
                    lemma_width_step(t, i);
                    lemma_width_prefix_bound(t, k);
                    if i + 1 < k {
                        lemma_width_strictly_increasing(t, i + 1, k);
                    }
                    let p = t.take(i);
                    let q = t.take(i + 1);
                    assert(q.drop_last() =~= p);
                    assert(q.last() == ch);
                    lemma_newline_count_bound(p);
                    lemma_width_at_least_len(p);
                    lemma_line_tail_width(p);
                    if ch != '\n' {
                        lemma_encode_concat(line_tail(p), seq![ch]);
                        assert(line_tail(p).push(ch) =~= line_tail(p) + seq![ch]);
                    } else {
                        lemma_encode_empty();
                    }
                }
                let w = char_width(ch);
                offset = offset + w;
                if ch == '\n' {
                    line = line + 1;
                    column = 0;
                } else {
                    column = column + w;
                }
            }
        }
    }
    proof {
        if !done {
            assert(t.take(t.len() as int) =~= t);
            lemma_cursor_unique(t, cursor as int, t.len() as int);
        }
    }
    (line, column)
}

/// The row of the editor pane on which the cursor line appears, when the pane scrolled by
/// `scroll` lines and `height` lines high shows it.
pub fn visible_cursor_row(line: usize, scroll: usize, height: usize) -> (row: Option<usize>)
    requires
        scroll + height <= usize::MAX,
    ensures
        row == if scroll <= line < scroll + height {
            Some((line - scroll) as usize)
        } else {
            None::<usize>
        },
{
    if line >= scroll && line < scroll + height {
        Some(line - scroll)
    } else {
        None
    }
}

/// The terminal cell of the editor cursor: inside the border of the pane whose corner is at
/// (`area_x`, `area_y`), `column` cells in and `row` lines down, each taken as a `u16`.
pub fn editor_cursor_cell(area_x: u16, area_y: u16, column: usize, row: usize) -> (p: (u16, u16))
    requires
        area_x + column % 65536 + 1 <= u16::MAX,
        area_y + row % 65536 + 1 <= u16::MAX,
    ensures
        p.0 == area_x + column % 65536 + 1,
        p.1 == area_y + row % 65536 + 1,
{
    let c = (column % 65536) as u16;
    let r = (row % 65536) as u16;
    (area_x + c + 1, area_y + r + 1)
}

/// The title of the results pane: `Results`, and the row count once a query has run.
pub open spec fn spec_results_title(result: Option<QueryResult>) -> Seq<char> {
    match result {
        Some(r) => "Results ("@ + decimal(r.row_count as nat) + " rows)"@,
        None => "Results"@,
    }
}

/// The title of the results pane.
pub fn results_title(result: &Option<QueryResult>) -> (title: String)
    ensures
        title@ == spec_results_title(*result),
{
    match result {
        Some(r) => {
            let count = decimal_string(r.row_count);
            let mut title = concat2("Results (", count.as_str());
            title.append(" rows)");
            title
        },
        None => String::from_str("Results"),
    }
}

/// The share of the table width, in percent, that each of `columns` columns gets: 100 split
/// evenly, the divisor taken as a `u16`.
pub fn column_percent(columns: usize) -> (p: u16)
    requires
        (if columns > 1 {
            columns as int
        } else {
            1
        }) % 65536 != 0,
    ensures
        p == 100int / ((if columns > 1 {
            columns as int
        } else {
            1
        }) % 65536),
{
    let n = if columns > 1 {
        columns
    } else {
        1
    };
    let d = (n % 65536) as u16;
    100 / d
}

/// The rows of the results table that a pane `height` cells high shows when scrolled by
/// `scroll` rows: the range from `start` to `end`.
pub fn visible_rows(total: usize, scroll: usize, height: u16) -> (r: (usize, usize))
    ensures
        r.0 == if scroll < total {
            scroll
        } else {
            total
        },
        r.1 == if r.0 + (if height > 4 {
            height - 4
        } else {
            0
        }) < total {
            r.0 + (if height > 4 {
                height - 4
            } else {
                0
            })
        } else {
            total as int
        },
{
    let start = if scroll < total {
        scroll
    } else {
        total
    };
    let room: usize = if height > 4 {
        (height - 4) as usize
    } else {
        0
    };
    let end = if room < total - start {
        start + room
    } else {
        total
    };
    (start, end)
}

/// Whether the `i`-th shown row of the table gets the first of the two stripe colours.
pub fn is_even_stripe(i: usize) -> (b: bool)
    ensures
        b == (i % 2 == 0),
{
    i % 2 == 0
}

/// The margin, in percent, on each side of a centred box that takes `percent` of the room.
pub fn centered_margin(percent: u16) -> (m: u16)
    requires
        percent <= 100,
    ensures
        m == (100 - percent) / 2,
{
    (100 - percent) / 2
}

/// A line of the file list: the selected file marked with `> `, the others indented.
pub fn file_list_label(name: &str, selected: bool) -> (label: String)
    ensures
        label@ == (if selected {
            "> "@
        } else {
            "  "@
        }) + name@,
{
    if selected {
        concat2("> ", name)
    } else {
        concat2("  ", name)
    }
}

/// `n` spaces.
pub open spec fn spaces(n: nat) -> Seq<char> {
    Seq::new(n, |i: int| ' ')
}

/// The text of the save prompt's input field `width` characters wide: a space, then the input
/// (a space when it is empty) padded with spaces to the field width.
pub open spec fn spec_save_field(input: Seq<char>, width: nat) -> Seq<char> {
    let shown = if input.len() == 0 {
        seq![' ']
    } else {
        input
    };
    seq![' '] + shown + spaces(if shown.len() < width {
        (width - shown.len()) as nat
    } else {
        0
    })
}

/// The text of the save prompt's input field for a prompt `area_width` cells wide.
pub fn save_field(input: &str, area_width: u16) -> (field: String)
    ensures
        field@ == spec_save_field(input@, if area_width > 4 {
            (area_width - 4) as nat
        } else {
            0
        }),
{
    let width: usize = if area_width > 4 {
        (area_width - 4) as usize
    } else {
        0
    };
    let mut field = String::new();
    string_push(&mut field, ' ');
    let ghost shown = if input@.len() == 0 {
        seq![' ']
    } else {
        input@
    };
    let mut count: usize;
    if input.is_empty() {
        string_push(&mut field, ' ');
        count = 1;
    } else {
        field.append(input);
        count = input.unicode_len();
    }
    proof {
        assert(field@ =~= seq![' '] + shown + spaces(0));
    }
    while count < width
        invariant
            count <= width || count == shown.len(),
            count >= shown.len(),
            field@ == seq![' '] + shown + spaces((count - shown.len()) as nat),
        decreases width - count,
    {
        string_push(&mut field, ' ');
        count = count + 1;
        proof {
            assert(field@ =~= seq![' '] + shown + spaces((count - shown.len()) as nat));
        }
    }
    field
}

/// Where the terminal cursor goes in the save prompt whose box has its corner at
/// (`area_x`, `area_y`) and is `area_width` wide: in the input field, after `cursor` cells.
pub fn save_dialog_cursor(area_x: u16, area_y: u16, area_width: u16, cursor: usize) -> (p: (
    u16,
    u16,
))
    requires
        area_width >= 3,
        area_x + 2 + cursor % 65536 <= u16::MAX,
        area_y + 4 <= u16::MAX,
    ensures
        p.0 == area_x + 2 + cursor % 65536,
        p.1 == area_y + 4,
{
    let c = (cursor % 65536) as u16;
    (area_x + 2 + c, area_y + 4)
}


/// A line without the carriage return that may end it.
pub open spec fn strip_cr(s: Seq<char>) -> Seq<char> {
    if s.len() > 0 && s.last() == '\r' {
        s.drop_last()
    } else {
        s
    }
}

/// Reading `t` from the start, the lines completed so far (cut at each line feed, a carriage
/// return just before the line feed dropped) and the characters of the line still open.
pub open spec fn lines_so_far(t: Seq<char>) -> (Seq<Seq<char>>, Seq<char>)
    decreases t.len(),
{
    if t.len() == 0 {
        (Seq::<Seq<char>>::empty(), Seq::<char>::empty())
    } else {
        let (done, open) = lines_so_far(t.drop_last());
        if t.last() == '\n' {
            (done.push(strip_cr(open)), Seq::<char>::empty())
        } else {
            (done, open.push(t.last()))
        }
    }
}

/// The lines of `t` as `str::lines` yields them: split at line feeds, a carriage return just
/// before a line feed dropped, and no empty line after a final line feed.
pub open spec fn text_lines(t: Seq<char>) -> Seq<Seq<char>> {
    let (done, open) = lines_so_far(t);
    if open.len() > 0 {
        done.push(open)
    } else {
        done
    }
}

proof fn lemma_lines_so_far_counts(t: Seq<char>)
    ensures
        lines_so_far(t).0.len() == newline_count(t),
        lines_so_far(t).1.len() > 0 <==> (t.len() > 0 && t.last() != '\n'),
    decreases t.len(),
{
    if t.len() > 0 {
        lemma_lines_so_far_counts(t.drop_last());
    }
}

/// The number of lines that the editor scrolls through is the number of lines it shows.
pub proof fn law_line_count_is_number_of_lines(t: Seq<char>)
    ensures
        line_count(t) == text_lines(t).len(),
{
    lemma_lines_so_far_counts(t);
}

/// `ls` joined with line feeds between them.
pub open spec fn join_lines(ls: Seq<Seq<char>>) -> Seq<char>
    decreases ls.len(),
{
    if ls.len() == 0 {
        Seq::<char>::empty()
    } else if ls.len() == 1 {
        ls[0]
    } else {
        join_lines(ls.drop_last()) + seq!['\n'] + ls.last()
    }
}

/// The lines from `scroll` on, at most `height` of them.
pub open spec fn line_window(ls: Seq<Seq<char>>, scroll: nat, height: nat) -> Seq<Seq<char>> {
    let start = if scroll < ls.len() {
        scroll
    } else {
        ls.len()
    };
    let end = if start + height < ls.len() {
        start + height
    } else {
        ls.len()
    };
    ls.subrange(start as int, end as int)
}

/// The lines of `s`.
pub fn split_lines(s: &str) -> (lines: Vec<String>)
    ensures
        texts(lines@) == text_lines(s@),
{
    let ghost t = s@;
    let mut lines: Vec<String> = Vec::new();
    let mut open = String::new();
    let mut pending_cr = false;
    for ch in it: s.chars()
        invariant
            t == s@,
            it.seq() == t,
            (texts(lines@), open@ + if pending_cr {
                seq!['\r']
            } else {
                Seq::<char>::empty()
            }) == lines_so_far(t.take(it.index())),
            !pending_cr ==> (open@.len() == 0 || open@.last() != '\r'),
    {
        let ghost i = it.index();
        proof {
            assert(t.take(i + 1).drop_last() =~= t.take(i));
            assert(t.take(i + 1).last() == ch);
        }
        let ghost old_lines = lines@;
        let ghost old_open = open@;
        let ghost old_pending = pending_cr;
        if ch == '\n' {
            let line = open;
            lines.push(line);
            open = String::new();
            pending_cr = false;
            proof {
                assert(texts(lines@) =~= texts(old_lines).push(old_open));
                if old_pending {
                    assert((old_open + seq!['\r']).drop_last() =~= old_open);
                } else {
                    assert(old_open + Seq::<char>::empty() =~= old_open);
                }
                assert(open@ + Seq::<char>::empty() =~= Seq::<char>::empty());
            }
        } else if ch == '\r' {
            if pending_cr {
                string_push(&mut open, '\r');
            }
            pending_cr = true;
            proof {
                if old_pending {
                    assert(open@ + seq!['\r'] =~= (old_open + seq!['\r']).push('\r'));
                } else {
                    assert(open@ + seq!['\r'] =~= (old_open + Seq::<char>::empty()).push('\r'));
                }
            }
        } else {
            if pending_cr {
                string_push(&mut open, '\r');
            }
            string_push(&mut open, ch);
            pending_cr = false;
            proof {
                if old_pending {
                    assert(open@ + Seq::<char>::empty() =~= (old_open + seq!['\r']).push(ch));
                } else {
                    assert(open@ + Seq::<char>::empty() =~= (old_open + Seq::<char>::empty()).push(
                        ch,
                    ));
                }
            }
        }
    }
    proof {
        assert(t.take(t.len() as int) =~= t);
    }
    let ghost done = texts(lines@);
    let ghost full = open@ + if pending_cr {
        seq!['\r']
    } else {
        Seq::<char>::empty()
    };
    if pending_cr {
        string_push(&mut open, '\r');
    }
    proof {
        assert(open@ =~= full);
        assert((done, full) == lines_so_far(t));
    }
    if !open.as_str().is_empty() {
        let ghost before = lines@;
        lines.push(open);
        proof {
            assert(texts(lines@) =~= texts(before).push(lines@.last()@));
        }
    } else {
        proof {
            assert(open@ =~= Seq::<char>::empty());
        }
    }
    lines
}

/// The number of characters in all of `ls` together.
pub open spec fn total_len(ls: Seq<Seq<char>>) -> nat
    decreases ls.len(),
{
    if ls.len() == 0 {
        0
    } else {
        total_len(ls.drop_last()) + ls.last().len()
    }
}

/// Joining keeps every line, empty ones included: the joined text holds all their characters
/// and one line feed between each two.
pub proof fn law_join_keeps_every_line(ls: Seq<Seq<char>>)
    requires
        ls.len() >= 1,
    ensures
        join_lines(ls).len() == total_len(ls) + ls.len() - 1,
    decreases ls.len(),
{
    if ls.len() > 1 {
        law_join_keeps_every_line(ls.drop_last());
    } else {
        assert(ls.drop_last().len() == 0);
        assert(total_len(ls.drop_last()) == 0);
        assert(ls.last() == ls[0]);
    }
}

proof fn lemma_join_lines_so_far(t: Seq<char>)
    requires
        forall|i: int| 0 <= i < t.len() ==> t[i] != '\r',
    ensures
        join_lines(lines_so_far(t).0.push(lines_so_far(t).1)) == t,
        forall|i: int|
            0 <= i < lines_so_far(t).1.len() ==> #[trigger] lines_so_far(t).1[i] != '\r',
    decreases t.len(),
{
    if t.len() > 0 {
        let s = t.drop_last();
        lemma_join_lines_so_far(s);
        let (d, o) = lines_so_far(s);
        let c = t.last();
        assert(t =~= s.push(c));
        if c == '\n' {
            if o.len() > 0 {
                assert(o.last() == o[o.len() - 1]);
            }
            assert(strip_cr(o) == o);
            let ls = d.push(o).push(Seq::<char>::empty());
            assert(ls.drop_last() =~= d.push(o));
            assert(join_lines(ls) =~= t);
        } else {
            let ls = d.push(o.push(c));
            assert(ls.drop_last() =~= d);
            if d.len() == 0 {
                let prev = d.push(o);
                assert(prev.len() == 1);
                assert(join_lines(prev) == o);
                assert(join_lines(ls) =~= t);
            } else {
                let prev = d.push(o);
                assert(prev.drop_last() =~= d);
                assert(join_lines(ls) =~= t);
            }
        }
    } else {
        let ls = Seq::<Seq<char>>::empty().push(Seq::<char>::empty());
        assert(join_lines(ls) =~= t);
    }
}

/// Splitting a text into lines and joining them again gives the text back, when it holds no
/// carriage return and does not end in a line feed: no line is lost or merged.
pub proof fn law_lines_then_join(t: Seq<char>)
    requires
        forall|i: int| 0 <= i < t.len() ==> t[i] != '\r',
        t.len() == 0 || t.last() != '\n',
    ensures
        join_lines(text_lines(t)) == t,
{
    lemma_join_lines_so_far(t);
    lemma_lines_so_far_counts(t);
    if t.len() == 0 {
        assert(lines_so_far(t).0.len() == 0);
    }
}

/// A pane scrolled to the top and as high as the text shows all of it: for a text without
/// carriage returns or a final line feed, the shown text is the text itself.
pub proof fn law_full_view_shows_whole_text(t: Seq<char>, height: nat)
    requires
        forall|i: int| 0 <= i < t.len() ==> t[i] != '\r',
        t.len() == 0 || t.last() != '\n',
        height >= text_lines(t).len(),
    ensures
        join_lines(line_window(text_lines(t), 0, height)) == t,
{
    let ls = text_lines(t);
    assert(line_window(ls, 0, height) =~= ls);
    law_lines_then_join(t);
}

/// The text that the editor pane shows: the lines of `query` from `scroll` on, at most
/// `height` of them, joined with line feeds.
pub fn visible_editor_text(query: &str, scroll: usize, height: usize) -> (text: String)
    ensures
        text@ == join_lines(line_window(text_lines(query@), scroll as nat, height as nat)),
{
    let lines = split_lines(query);
    let ghost ls = texts(lines@);
    let n = lines.len();
    let start = if scroll < n {
        scroll
    } else {
        n
    };
    let end = if height < n - start {
        start + height
    } else {
        n
    };
    let mut text = String::new();
    for i in start..end
        invariant
            ls == texts(lines@),
            ls.len() == n,
            start <= end <= n,
            text@ == join_lines(ls.subrange(start as int, i as int)),
    {
        proof {
            let w = ls.subrange(start as int, i + 1);
            assert(w.drop_last() =~= ls.subrange(start as int, i as int));
            assert(w.last() == lines@[i as int]@);
        }
        if i > start {
            string_push(&mut text, '\n');
        }
        text.append(lines[i].as_str());
        proof {
            if i == start {
                assert(text@ =~= ls.subrange(start as int, i + 1)[0]);
            }
        }
    }
    proof {
        assert(line_window(ls, scroll as nat, height as nat) =~= ls.subrange(
            start as int,
            end as int,
        ));
    }
    text
}

} // verus!

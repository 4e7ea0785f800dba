use vstd::prelude::*;
use crate::buffer::{grid_shape, ScreenChar, BUFFER_HEIGHT, BUFFER_WIDTH};
use crate::color::ColorCode;
use crate::writer::{
    blank, blank_row, is_printable, scrolled, shown_byte, step_byte, write_bytes, Grid, NEWLINE,
    PLACEHOLDER,
};

verus! {

/// Every byte of `s` is printable ASCII.
pub open spec fn all_printable(s: Seq<u8>) -> bool {
    forall|i: int| 0 <= i < s.len() ==> is_printable(#[trigger] s[i])
}

/// `row` with the characters of `s`, in attribute `attr`, laid over it
/// from column `k` on.
pub open spec fn overlay_at(row: Seq<ScreenChar>, k: int, s: Seq<u8>, attr: ColorCode) -> Seq<ScreenChar> {
    Seq::new(
        row.len(),
        |c: int|
            if k <= c < k + s.len() {
                ScreenChar { ascii_character: s[c - k], color_code: attr }
            } else {
                row[c]
            },
    )
}

/// A row that holds `line` from column 0 and blanks after it.
pub open spec fn padded(line: Seq<u8>, attr: ColorCode) -> Seq<ScreenChar> {
    overlay_at(blank_row(attr), 0, line, attr)
}

/// The bytes of a sequence of lines, each followed by a newline.
pub open spec fn lines_text(lines: Seq<Seq<u8>>) -> Seq<u8>
    decreases lines.len(),
{
    if lines.len() == 0 {
        Seq::empty()
    } else {
        lines_text(lines.drop_last()) + lines.last().push(NEWLINE)
    }
}

/// Writing keeps the cursor within a row and the grid in shape.
pub proof fn lemma_write_keeps_shape(col: nat, g: Grid, attr: ColorCode, s: Seq<u8>)
    requires
        col <= BUFFER_WIDTH,
        grid_shape(g),
    ensures
        write_bytes(col, g, attr, s).0 <= BUFFER_WIDTH,
        grid_shape(write_bytes(col, g, attr, s).1),
    decreases s.len(),
{
    if s.len() > 0 {
        lemma_write_keeps_shape(col, g, attr, s.drop_last());
    }
}

/// Writing `s` and then `t` is writing `s + t`.
pub proof fn lemma_write_concat(col: nat, g: Grid, attr: ColorCode, s: Seq<u8>, t: Seq<u8>)
    ensures
        write_bytes(col, g, attr, s + t) == write_bytes(
            write_bytes(col, g, attr, s).0,
            write_bytes(col, g, attr, s).1,
            attr,
            t,
        ),
    decreases t.len(),
{
    if t.len() == 0 {
        assert(s + t =~= s);
    } else {
        assert((s + t).drop_last() =~= s + t.drop_last());
        assert((s + t).last() == t.last());
        lemma_write_concat(col, g, attr, s, t.drop_last());
    }
}

/// Printable text that fits in the rest of the bottom row lands there from
/// the cursor on, in the writer's attribute, and nothing else changes.
pub proof fn lemma_printable_run(k: nat, g: Grid, attr: ColorCode, s: Seq<u8>)
    requires
        grid_shape(g),
        k + s.len() <= BUFFER_WIDTH,
        all_printable(s),
    ensures
        write_bytes(k, g, attr, s) == (
            (k + s.len()) as nat,
            g.update(BUFFER_HEIGHT - 1, overlay_at(g[BUFFER_HEIGHT - 1], k as int, s, attr)),
        ),
    decreases s.len(),
{
    if s.len() == 0 {
        assert(overlay_at(g[BUFFER_HEIGHT - 1], k as int, s, attr) =~= g[BUFFER_HEIGHT - 1]);
        assert(g.update(BUFFER_HEIGHT - 1, g[BUFFER_HEIGHT - 1]) =~= g);
    } else {
        let p = s.drop_last();
        assert(all_printable(p)) by {
            assert forall|i: int| 0 <= i < p.len() implies is_printable(#[trigger] p[i]) by {
                assert(p[i] == s[i]);
            }
        }
        lemma_printable_run(k, g, attr, p);
        assert(is_printable(s[s.len() - 1]));
        let g1 = g.update(BUFFER_HEIGHT - 1, overlay_at(g[BUFFER_HEIGHT - 1], k as int, p, attr));
        let g2 = g.update(BUFFER_HEIGHT - 1, overlay_at(g[BUFFER_HEIGHT - 1], k as int, s, attr));
        assert(g1[BUFFER_HEIGHT - 1].update(
            (k + p.len()) as int,
            ScreenChar { ascii_character: s.last(), color_code: attr },
        ) =~= overlay_at(g[BUFFER_HEIGHT - 1], k as int, s, attr));
        assert(step_byte((k + p.len()) as nat, g1, attr, shown_byte(s.last())).1 =~= g2);
    }
}

/// Printable text no longer than a row, written at column 0, reads back
/// from the bottom row character for character in the writer's attribute;
/// the cursor ends just after it and the other rows are untouched.
pub proof fn lemma_printable_text_reads_back(g: Grid, attr: ColorCode, s: Seq<u8>)
    requires
        grid_shape(g),
        s.len() <= BUFFER_WIDTH,
        all_printable(s),
    ensures
        write_bytes(0, g, attr, s).0 == s.len(),
        forall|i: int|
            0 <= i < s.len() ==> #[trigger] write_bytes(0, g, attr, s).1[BUFFER_HEIGHT - 1][i]
                == (ScreenChar { ascii_character: s[i], color_code: attr }),
        forall|r: int| 0 <= r < BUFFER_HEIGHT - 1 ==> #[trigger] write_bytes(0, g, attr, s).1[r] == g[r],
{
    lemma_printable_run(0, g, attr, s);
}

/// A byte outside printable ASCII that is not a newline is drawn as the
/// placeholder glyph, in the cell the cursor pointed to (column 0 of a
/// fresh line when the row was full).
pub proof fn lemma_unprintable_byte_shows_placeholder(col: nat, g: Grid, attr: ColorCode, b: u8)
    requires
        col <= BUFFER_WIDTH,
        grid_shape(g),
        b != NEWLINE,
        !is_printable(b),
    ensures
        ({
            let at = if col < BUFFER_WIDTH { col as int } else { 0 };
            &&& write_bytes(col, g, attr, seq![b]).0 == at + 1
            &&& write_bytes(col, g, attr, seq![b]).1[BUFFER_HEIGHT - 1][at] == (ScreenChar {
                ascii_character: PLACEHOLDER,
                color_code: attr,
            })
        }),
{
    assert(seq![b].drop_last() =~= Seq::<u8>::empty());
    assert(write_bytes(col, g, attr, seq![b].drop_last()) == (col, g));
    assert(seq![b].last() == b);
    assert(scrolled(g, attr)[BUFFER_HEIGHT - 1].len() == BUFFER_WIDTH);
}

/// Printable text longer than a row, but no longer than two, written at
/// column 0 scrolls exactly once: the first row's worth moves up to the
/// second-to-last row, every older row moves up by one, and the rest lands
/// at the start of the new, otherwise blank, bottom row.
pub proof fn lemma_overlong_line_scrolls_once(g: Grid, attr: ColorCode, s: Seq<u8>)
    requires
        grid_shape(g),
        BUFFER_WIDTH < s.len() <= 2 * BUFFER_WIDTH,
        all_printable(s),
    ensures
        ({
            let (c, g2) = write_bytes(0, g, attr, s);
            &&& c == s.len() - BUFFER_WIDTH
            &&& forall|r: int| 0 <= r < BUFFER_HEIGHT - 2 ==> #[trigger] g2[r] == g[r + 1]
            &&& g2[BUFFER_HEIGHT - 2] == padded(s.subrange(0, BUFFER_WIDTH as int), attr)
            &&& g2[BUFFER_HEIGHT - 1] == padded(s.subrange(BUFFER_WIDTH as int, s.len() as int), attr)
        }),
{
    let w = BUFFER_WIDTH as int;
    let head = s.subrange(0, w);
    let mid = s.subrange(w, w + 1);
    let tail = s.subrange(w + 1, s.len() as int);
    assert(all_printable(head)) by {
        assert forall|i: int| 0 <= i < head.len() implies is_printable(#[trigger] head[i]) by {
            assert(head[i] == s[i]);
        }
    }
    assert(all_printable(tail)) by {
        assert forall|i: int| 0 <= i < tail.len() implies is_printable(#[trigger] tail[i]) by {
            assert(tail[i] == s[i + w + 1]);
        }
    }
    assert(s =~= head + mid + tail);
    lemma_write_concat(0, g, attr, head + mid, tail);
    lemma_write_concat(0, g, attr, head, mid);
    lemma_printable_run(0, g, attr, head);
    let g1 = g.update(BUFFER_HEIGHT - 1, overlay_at(g[BUFFER_HEIGHT - 1], 0, head, attr));
    assert(overlay_at(g[BUFFER_HEIGHT - 1], 0, head, attr) =~= padded(head, attr));
    assert(mid.drop_last() =~= Seq::<u8>::empty());
    assert(write_bytes(w as nat, g1, attr, mid.drop_last()) == (w as nat, g1));
    assert(mid.last() == s[w]);
    assert(is_printable(s[w]));
    let cell = ScreenChar { ascii_character: s[w], color_code: attr };
    let sc = scrolled(g1, attr);
    let g3 = sc.update(BUFFER_HEIGHT - 1, sc[BUFFER_HEIGHT - 1].update(0, cell));
    assert(write_bytes(w as nat, g1, attr, mid) == (1nat, g3));
    assert(grid_shape(g3));
    lemma_printable_run(1, g3, attr, tail);
    let g4 = g3.update(BUFFER_HEIGHT - 1, overlay_at(g3[BUFFER_HEIGHT - 1], 1, tail, attr));
    assert(g4[BUFFER_HEIGHT - 1] =~= padded(s.subrange(w, s.len() as int), attr));
    assert(g4[BUFFER_HEIGHT - 2] =~= padded(head, attr));
}

/// After writing lines from the first `m` of `lines` (at least one), each
/// printable and no longer than a row, the cursor is at column 0 of a blank
/// bottom row and every row above that has received a line holds it.
proof fn lemma_lines_prefix(col: nat, g: Grid, attr: ColorCode, lines: Seq<Seq<u8>>, m: int)
    requires
        col <= BUFFER_WIDTH,
        grid_shape(g),
        1 <= m <= lines.len(),
        forall|i: int|
            0 <= i < lines.len() ==> #[trigger] lines[i].len() <= BUFFER_WIDTH && all_printable(lines[i]),
    ensures
        ({
            let (c, g2) = write_bytes(col, g, attr, lines_text(lines.subrange(0, m)));
            &&& c == 0
            &&& grid_shape(g2)
            &&& g2[BUFFER_HEIGHT - 1] == blank_row(attr)
            &&& forall|r: int|
                0 <= r < BUFFER_HEIGHT - 1 && m - BUFFER_HEIGHT + 1 + r >= 1 ==> #[trigger] g2[r]
                    == padded(lines[m - BUFFER_HEIGHT + 1 + r], attr)
        }),
    decreases m,
{
    let pre = lines.subrange(0, m - 1);
    let line = lines[m - 1];
    assert(lines.subrange(0, m).drop_last() =~= pre);
    assert(lines_text(lines.subrange(0, m)) == lines_text(pre) + line.push(NEWLINE));
    lemma_write_concat(col, g, attr, lines_text(pre), line.push(NEWLINE));
    let p = write_bytes(col, g, attr, lines_text(pre));
    lemma_write_keeps_shape(col, g, attr, lines_text(pre));
    assert(line.push(NEWLINE).drop_last() =~= line);
    lemma_write_keeps_shape(p.0, p.1, attr, line);
    if m == 1 {
        let q = write_bytes(p.0, p.1, attr, line);
        assert(write_bytes(p.0, p.1, attr, line.push(NEWLINE)) == (0nat, scrolled(q.1, attr)));
    } else {
        lemma_lines_prefix(col, g, attr, lines, m - 1);
        lemma_printable_run(0, p.1, attr, line);
        let g1 = p.1.update(BUFFER_HEIGHT - 1, overlay_at(p.1[BUFFER_HEIGHT - 1], 0, line, attr));
        assert(g1[BUFFER_HEIGHT - 1] == padded(line, attr));
        let g2 = scrolled(g1, attr);
        assert(write_bytes(p.0, p.1, attr, line.push(NEWLINE)) == (0nat, g2));
        assert forall|r: int|
            0 <= r < BUFFER_HEIGHT - 1 && m - BUFFER_HEIGHT + 1 + r >= 1 implies #[trigger] g2[r]
                == padded(lines[m - BUFFER_HEIGHT + 1 + r], attr) by {
            if r < BUFFER_HEIGHT - 2 {
                assert(g2[r] == p.1[r + 1]);
            }
        }
    }
}

/// Writing at least a screen's height of newline-terminated lines, each
/// printable and no longer than a row, scrolls every original row off the
/// grid: the screen then holds exactly the most recent lines, the last one
/// on the second-to-last row and the one before it just above, over a
/// blank bottom row with the cursor at column 0.
pub proof fn lemma_old_lines_scroll_off(col: nat, g: Grid, attr: ColorCode, lines: Seq<Seq<u8>>)
    requires
        col <= BUFFER_WIDTH,
        grid_shape(g),
        lines.len() >= BUFFER_HEIGHT,
        forall|i: int|
            0 <= i < lines.len() ==> #[trigger] lines[i].len() <= BUFFER_WIDTH && all_printable(lines[i]),
    ensures
        ({
            let n = lines.len() as int;
            let (c, g2) = write_bytes(col, g, attr, lines_text(lines));
            &&& c == 0
            &&& g2 == Seq::new(
                BUFFER_HEIGHT as nat,
                |r: int|
                    if r == BUFFER_HEIGHT - 1 {
                        blank_row(attr)
                    } else {
                        padded(lines[n - BUFFER_HEIGHT + 1 + r], attr)
                    },
            )
            &&& g2[BUFFER_HEIGHT - 2] == padded(lines[n - 1], attr)
            &&& g2[BUFFER_HEIGHT - 3] == padded(lines[n - 2], attr)
        }),
{
    let n = lines.len() as int;
    assert(lines.subrange(0, n) =~= lines);
    lemma_lines_prefix(col, g, attr, lines, n);
    let g2 = write_bytes(col, g, attr, lines_text(lines)).1;
    assert(g2 =~= Seq::new(
        BUFFER_HEIGHT as nat,
        |r: int|
            if r == BUFFER_HEIGHT - 1 {
                blank_row(attr)
            } else {
                padded(lines[n - BUFFER_HEIGHT + 1 + r], attr)
            },
    ));
}

/// Writing the same printable line, no longer than a row and followed by
/// a newline, three or more times from any state leaves the cursor at
/// column 0 of a blank bottom row, with the line on each of the two rows
/// above it.
pub proof fn lemma_repeated_line(col: nat, g: Grid, attr: ColorCode, line: Seq<u8>, n: nat)
    requires
        col <= BUFFER_WIDTH,
        grid_shape(g),
        line.len() <= BUFFER_WIDTH,
        all_printable(line),
        n >= 3,
    ensures
        ({
            let (c, g2) = write_bytes(col, g, attr, lines_text(Seq::new(n, |i: int| line)));
            &&& c == 0
            &&& grid_shape(g2)
            &&& g2[BUFFER_HEIGHT - 1] == blank_row(attr)
            &&& g2[BUFFER_HEIGHT - 2] == padded(line, attr)
            &&& g2[BUFFER_HEIGHT - 3] == padded(line, attr)
        }),
{
    let lines = Seq::new(n, |i: int| line);
    assert(lines.subrange(0, n as int) =~= lines);
    lemma_lines_prefix(col, g, attr, lines, n as int);
    let g2 = write_bytes(col, g, attr, lines_text(lines)).1;
    assert(g2[BUFFER_HEIGHT - 2] == padded(lines[n - 1], attr));
    assert(g2[BUFFER_HEIGHT - 3] == padded(lines[n - 2], attr));
}

} // verus!

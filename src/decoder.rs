use vstd::prelude::*;
use crate::color::Color;
use crate::maps::{decode_code, decode_mode, lemma_mode_match_len, lemma_run_match_len, mode_match, run_match, Mode};
use crate::transitions::{
    lemma_next_index_bounds, next_color_spec, next_index, seek_back_spec, threshold, Transitions,
};
use crate::reader::{bits_value, ByteReader, EOL_BITS, EOL_LEN};

verus! {

/// The color of the run that precedes transition `k` of a line (the run
/// after the last transition where `k` is the line's length).
pub open spec fn run_color(k: int) -> Color {
    if k % 2 == 0 {
        Color::White
    } else {
        Color::Black
    }
}

/// The run before transition `k`: from the previous transition (or column 0)
/// up to `line[k]`, empty where `line[k]` does not lie further right.
pub open spec fn run_len(line: Seq<u16>, k: int) -> nat {
    let prev: int = if k == 0 {
        0
    } else {
        line[k - 1] as int
    };
    if line[k] > prev {
        (line[k] - prev) as nat
    } else {
        0
    }
}

/// The colors of the runs that end at each transition of `line`, in order.
pub open spec fn expand(line: Seq<u16>) -> Seq<Color>
    decreases line.len(),
{
    if line.len() == 0 {
        Seq::empty()
    } else {
        let k = line.len() - 1;
        expand(line.drop_last()) + Seq::new(run_len(line, k), |i: int| run_color(k))
    }
}

/// The `width` pixel colors of a line given by its transitions: the runs of
/// `expand`, cut or padded with the color after the last transition.
pub open spec fn pels_spec(line: Seq<u16>, width: nat) -> Seq<Color> {
    let e = expand(line);
    Seq::new(width, |i: int| if i < e.len() { e[i] } else { run_color(line.len() as int) })
}

/// The number of transitions of `line` at or left of column `i`.
pub open spec fn flips_upto(line: Seq<u16>, i: int) -> nat
    decreases line.len(),
{
    if line.len() == 0 {
        0
    } else {
        flips_upto(line.drop_last(), i) + if line.last() <= i {
            1nat
        } else {
            0nat
        }
    }
}

/// Whether the positions of `line` strictly increase.
pub open spec fn strictly_increasing(line: Seq<u16>) -> bool {
    forall|a: int, b: int| 0 <= a < b < line.len() ==> line[a] < line[b]
}

proof fn lemma_flips_upto_all(line: Seq<u16>, i: int)
    requires
        forall|k: int| 0 <= k < line.len() ==> line[k] <= i,
    ensures
        flips_upto(line, i) == line.len(),
    decreases line.len(),
{
    if line.len() > 0 {
        lemma_flips_upto_all(line.drop_last(), i);
    }
}

proof fn lemma_expand_colors(line: Seq<u16>)
    requires
        strictly_increasing(line),
    ensures
        expand(line).len() == if line.len() == 0 {
            0
        } else {
            line.last() as int
        },
        forall|i: int|
            0 <= i < expand(line).len() ==> #[trigger] expand(line)[i] == run_color(
                flips_upto(line, i) as int,
            ),
    decreases line.len(),
{
    if line.len() > 0 {
        let init = line.drop_last();
        let k = line.len() - 1;
        lemma_expand_colors(init);
        let prev: int = if k == 0 {
            0
        } else {
            line[k - 1] as int
        };
        assert(expand(init).len() == prev);
        assert forall|i: int| 0 <= i < expand(line).len() implies #[trigger] expand(line)[i]
            == run_color(flips_upto(line, i) as int) by {
            if i < prev {
                assert(expand(line)[i] == expand(init)[i]);
            } else {
                lemma_flips_upto_all(init, i);
            }
        }
    }
}

/// Pixel `i` of a line whose transitions strictly increase has the color
/// that the transitions at or left of `i` lead to: White after an even
/// number of them, Black after an odd number.
pub proof fn lemma_pels_color(line: Seq<u16>, width: nat, i: int)
    requires
        strictly_increasing(line),
        0 <= i < width,
    ensures
        pels_spec(line, width)[i] == run_color(flips_upto(line, i) as int),
{
    lemma_expand_colors(line);
    if i >= expand(line).len() {
        lemma_flips_upto_all(line, i);
    }
}

/// Decoding a run of `color` at bit `pos`, `acc` pixels already summed:
/// makeup codes (64 or more) are added up until a terminating code (below
/// 64) ends the run. The result is the run length, or `None` where no
/// codeword matches or the sum exceeds 65535; and the position reached.
pub open spec fn run_from(color: Color, data: Seq<u8>, pos: int, acc: nat) -> (Option<u16>, int)
    decreases 8 * data.len() - pos,
{
    match run_match(color, data, pos, 1) {
        None => (None, pos),
        Some((v, l)) => {
            // never taken (see `lemma_run_match_len`); it bounds the recursion
            if l < 1 || pos + l > 8 * data.len() {
                (None, pos)
            } else if acc + v > 65535 {
                (None, pos + l)
            } else if v < 64 {
                (Some((acc + v) as u16), pos + l)
            } else {
                run_from(color, data, pos + l, (acc + v) as nat)
            }
        },
    }
}

pub proof fn lemma_run_from_progress(color: Color, data: Seq<u8>, pos: int, acc: nat)
    requires
        pos <= 8 * data.len(),
    ensures
        pos <= run_from(color, data, pos, acc).1 <= 8 * data.len(),
        run_from(color, data, pos, acc).0.is_some() ==> pos < run_from(color, data, pos, acc).1,
    decreases 8 * data.len() - pos,
{
    lemma_run_match_len(color, data, pos, 1);
    match run_match(color, data, pos, 1) {
        None => {},
        Some((v, l)) => {
            if l >= 1 && pos + l <= 8 * data.len() && acc + v <= 65535 && v >= 64 {
                lemma_run_from_progress(color, data, pos + l, (acc + v) as nat);
            }
        },
    }
}

/// Decodes one run of `color`: makeup codes are summed until a terminating
/// code. Returns `None` where no codeword matches or the run exceeds 65535.
pub fn with_markup(color: Color, reader: &mut ByteReader) -> (r: Option<u16>)
    requires
        old(reader).wf(),
    ensures
        final(reader).wf(),
        final(reader).data@ == old(reader).data@,
        (r, final(reader).pos as int) == run_from(color, old(reader).data@, old(reader).pos as int, 0),
{
    let mut sum: u16 = 0;
    loop
        invariant
            reader.wf(),
            reader.data@ == old(reader).data@,
            run_from(color, reader.data@, reader.pos as int, sum as nat) == run_from(
                color,
                old(reader).data@,
                old(reader).pos as int,
                0,
            ),
        decreases reader.total() - reader.pos,
    {
        proof {
            lemma_run_match_len(color, reader.data@, reader.pos as int, 1);
        }
        match decode_code(reader, color) {
            None => {
                return None;
            },
            Some(n) => {
                if n > u16::MAX - sum {
                    return None;
                }
                sum = sum + n;
                if n < 64 {
                    return Some(sum);
                }
            },
        }
    }
}

/// Decodes one run of the color `current`.
pub fn colored(current: Color, reader: &mut ByteReader) -> (r: Option<u16>)
    requires
        old(reader).wf(),
    ensures
        final(reader).wf(),
        final(reader).data@ == old(reader).data@,
        (r, final(reader).pos as int) == run_from(current, old(reader).data@, old(reader).pos as int, 0),
{
    with_markup(current, reader)
}

proof fn lemma_expand_step(line: Seq<u16>, k: int)
    requires
        0 <= k < line.len(),
    ensures
        expand(line.take(k + 1)) == expand(line.take(k)) + Seq::new(
            run_len(line, k),
            |i: int| run_color(k),
        ),
{
    let t = line.take(k + 1);
    assert(t.drop_last() =~= line.take(k));
    assert(run_len(t, k) == run_len(line, k));
    assert(Seq::new(run_len(t, k), |i: int| run_color(k)) =~= Seq::new(
        run_len(line, k),
        |i: int| run_color(k),
    ));
}

/// Turns a line's list of color changing positions into its pixel colors.
///
/// The result holds exactly `width` colors.
pub fn pels(line: &[u16], width: u16) -> (r: Vec<Color>)
    ensures
        r@ == pels_spec(line@, width as nat),
        r@.len() == width,
{
    let mut out: Vec<Color> = Vec::new();
    let mut color = Color::White;
    let mut last: u16 = 0;
    let mut k: usize = 0;
    while k < line.len()
        invariant
            0 <= k <= line@.len(),
            color == run_color(k as int),
            last == (if k == 0 {
                0
            } else {
                line@[k - 1]
            }),
            out@.len() <= width,
            out@.len() <= expand(line@.take(k as int)).len(),
            out@.len() < width ==> out@.len() == expand(line@.take(k as int)).len(),
            forall|i: int| 0 <= i < out@.len() ==> out@[i] == expand(line@.take(k as int))[i],
        decreases line@.len() - k,
    {
        let p = line[k];
        let n: u16 = if p > last {
            p - last
        } else {
            0
        };
        proof {
            lemma_expand_step(line@, k as int);
        }
        let ghost e = expand(line@.take(k as int));
        let ghost e2 = expand(line@.take(k + 1));
        let mut j: u16 = 0;
        while j < n && out.len() < width as usize
            invariant
                j <= n,
                n == run_len(line@, k as int),
                color == run_color(k as int),
                e2 == e + Seq::new(run_len(line@, k as int), |i: int| run_color(k as int)),
                out@.len() <= width,
                out@.len() <= e.len() + j,
                out@.len() < width ==> out@.len() == e.len() + j,
                forall|i: int| 0 <= i < out@.len() ==> out@[i] == e2[i],
            decreases n - j,
        {
            out.push(color);
            j = j + 1;
        }
        color = color.flip();
        last = p;
        k = k + 1;
    }
    assert(line@.take(line@.len() as int) =~= line@);
    let pad = color;
    while out.len() < width as usize
        invariant
            pad == run_color(line@.len() as int),
            out@.len() <= width,
            out@.len() < width ==> out@.len() >= expand(line@).len(),
            forall|i: int|
                0 <= i < out@.len() ==> out@[i] == pels_spec(line@, width as nat)[i],
        decreases width - out@.len(),
    {
        out.push(pad);
    }
    assert(out@ =~= pels_spec(line@, width as nat));
    out
}

/// Whether an end-of-line marker starts at bit `pos`.
pub open spec fn eol_at(data: Seq<u8>, pos: int) -> bool {
    pos + EOL_LEN <= 8 * data.len() && bits_value(data, pos, EOL_LEN as nat) == EOL_BITS
}

/// The views of a list of lines.
pub open spec fn lines_view(lines: Seq<Vec<u16>>) -> Seq<Seq<u16>> {
    lines.map_values(|l: Vec<u16>| l@)
}

/// Decoding the rest of a Group 3 line from bit `pos`, at column `a0`, with
/// the transitions `cur` found so far: runs of alternating colors are read
/// until one fails to decode. The line (`None` where a column exceeds 65535)
/// and the position reached.
pub open spec fn g3_line(data: Seq<u8>, pos: int, a0: nat, color: Color, cur: Seq<u16>) -> (
    Option<Seq<u16>>,
    int,
)
    decreases 8 * data.len() - pos,
{
    let (run, p) = run_from(color, data, pos, 0);
    match run {
        None => (Some(cur), p),
        Some(r) => {
            // a decoded run always moves forward; the first two tests bound the recursion
            if p <= pos || p > 8 * data.len() || a0 + r > 65535 {
                (None, p)
            } else {
                g3_line(data, p, (a0 + r) as nat, color.flipped(), cur.push((a0 + r) as u16))
            }
        },
    }
}

/// Reading up to `6 - i` further end-of-line markers at `pos`: whether all
/// of them came (the end of the page) and the position reached.
pub open spec fn g3_tail(data: Seq<u8>, pos: int, i: nat) -> (bool, int)
    decreases 6 - i,
{
    if i >= 6 {
        (true, pos)
    } else if eol_at(data, pos) {
        g3_tail(data, pos + EOL_LEN, i + 1)
    } else {
        (false, pos)
    }
}

/// Decoding Group 3 lines from bit `pos`, each followed by an end-of-line
/// marker, until six more markers end the page: the lines and whether the
/// page decoded.
pub open spec fn g3_page(data: Seq<u8>, pos: int) -> (Seq<Seq<u16>>, bool)
    decreases 8 * data.len() - pos,
{
    let (l, p) = g3_line(data, pos, 0, Color::White, Seq::empty());
    match l {
        None => (Seq::empty(), false),
        Some(line) => {
            if !eol_at(data, p) {
                (Seq::empty(), false)
            } else {
                let (end, after) = g3_tail(data, p + EOL_LEN, 0);
                if end {
                    (seq![line], true)
                } else if after <= pos || after > 8 * data.len() {
                    // never taken: a line and its marker move forward
                    (seq![line], false)
                } else {
                    let (rest, ok) = g3_page(data, after);
                    (seq![line] + rest, ok)
                }
            }
        },
    }
}

/// A Group 3 image: an end-of-line marker, then the page.
pub open spec fn g3_spec(data: Seq<u8>) -> (Seq<Seq<u16>>, bool) {
    if eol_at(data, 0) {
        g3_page(data, EOL_LEN as int)
    } else {
        (Seq::empty(), false)
    }
}

/// Decodes a Group 3 encoded image.
///
/// Each decoded line is appended to `lines`: the list of positions of color
/// change, starting with white. Returns `None` where the stream is malformed;
/// the lines decoded before the fault stay appended.
///
/// [`pels`] turns a line into its pixel colors.
pub fn decode_g3(input: Vec<u8>, lines: &mut Vec<Vec<u16>>) -> (r: Option<()>)
    requires
        input@.len() <= usize::MAX / 8,
    ensures
        lines_view(final(lines)@) == lines_view(old(lines)@) + g3_spec(input@).0,
        r.is_some() == g3_spec(input@).1,
{
    let ghost data = input@;
    let mut reader = ByteReader::new(input);
    if reader.expect(EOL_BITS, EOL_LEN).is_none() {
        assert(lines_view(lines@) =~= lines_view(old(lines)@) + Seq::<Seq<u16>>::empty());
        return None;
    }
    loop
        invariant_except_break
            reader.wf(),
            reader.data@ == data,
            data == input@,
            lines_view(lines@) + g3_page(data, reader.pos as int).0 == lines_view(old(lines)@)
                + g3_spec(data).0,
            g3_page(data, reader.pos as int).1 == g3_spec(data).1,
        ensures
            lines_view(lines@) == lines_view(old(lines)@) + g3_spec(data).0,
            g3_spec(data).1,
        decreases reader.total() - reader.pos,
    {
        let ghost start = reader.pos as int;
        let ghost before = lines_view(lines@);
        let mut a0: u16 = 0;
        let mut color = Color::White;
        let mut current: Vec<u16> = Vec::new();
        loop
            invariant_except_break
                g3_line(data, reader.pos as int, a0 as nat, color, current@) == g3_line(
                    data,
                    start,
                    0,
                    Color::White,
                    Seq::empty(),
                ),
            invariant
                reader.wf(),
                reader.data@ == data,
                data == input@,
                start <= reader.pos,
                lines_view(lines@) == before,
                before + g3_page(data, start).0 == lines_view(old(lines)@) + g3_spec(data).0,
                g3_page(data, start).1 == g3_spec(data).1,
            ensures
                reader.wf(),
                reader.data@ == data,
                data == input@,
                start <= reader.pos,
                lines_view(lines@) == before,
                g3_line(data, start, 0, Color::White, Seq::empty()) == (
                    Some(current@),
                    reader.pos as int,
                ),
            decreases reader.total() - reader.pos,
        {
            proof {
                lemma_run_from_progress(color, data, reader.pos as int, 0);
            }
            let ghost before_run = reader.pos as int;
            match colored(color, &mut reader) {
                None => {
                    assert(g3_line(data, before_run, a0 as nat, color, current@) == (
                        Some(current@),
                        reader.pos as int,
                    ));
                    break ;
                },
                Some(p) => {
                    if p > u16::MAX - a0 {
                        assert(g3_line(data, before_run, a0 as nat, color, current@).0.is_none());
                        assert(g3_page(data, start) == (Seq::<Seq<u16>>::empty(), false));
                        assert(lines_view(lines@) + Seq::<Seq<u16>>::empty() =~= lines_view(
                            lines@,
                        ));
                        return None;
                    }
                    a0 = a0 + p;
                    current.push(a0);
                    color = color.flip();
                },
            }
        }
        if reader.expect(EOL_BITS, EOL_LEN).is_none() {
            assert(g3_page(data, start) == (Seq::<Seq<u16>>::empty(), false));
            assert(lines_view(lines@) + Seq::<Seq<u16>>::empty() =~= lines_view(lines@));
            return None;
        }
        let ghost line = current@;
        let ghost tail_start = reader.pos as int;
        lines.push(current);
        proof {
            assert(lines_view(lines@) =~= before.push(line));
        }
        let mut i: u8 = 0;
        let mut more = true;
        while more && i < 6
            invariant
                reader.wf(),
                reader.data@ == data,
                data == input@,
                i <= 6,
                tail_start <= reader.pos,
                more ==> g3_tail(data, reader.pos as int, i as nat) == g3_tail(data, tail_start, 0),
                !more ==> g3_tail(data, tail_start, 0) == (false, reader.pos as int),
            decreases 6 - i + if more { 1int } else { 0int },
        {
            if reader.expect(EOL_BITS, EOL_LEN).is_some() {
                i = i + 1;
            } else {
                more = false;
            }
        }
        if more {
            assert(g3_page(data, start) == (seq![line], true));
            assert(before.push(line) =~= before + seq![line]);
            break;
        }
        proof {
            let rest = g3_page(data, reader.pos as int).0;
            assert(g3_page(data, start).0 == seq![line] + rest);
            assert(before + (seq![line] + rest) =~= before.push(line) + rest);
        }
    }
    Some(())
}

/// How a step of a Group 4 line ended.
#[derive(Clone, Copy, Debug, PartialEq, Eq, Structural)]
pub enum Outcome {
    /// The line goes on.
    Continue,
    /// The line is complete.
    EndLine,
    /// An end-of-facsimile-block marker ended the image.
    EndImage,
    /// An extension code stopped decoding; what it introduces is not read.
    Halt,
    /// The stream is malformed.
    Fail,
}

/// Where the decoding of a Group 4 line stands: the bit position, the
/// cursor on the reference line, the column `a0`, the current color, whether
/// no mode has been read yet, and the transitions found.
pub struct LineModel {
    pub pos: int,
    pub tpos: int,
    pub a0: u16,
    pub color: Color,
    pub start_of_row: bool,
    pub current: Seq<u16>,
}

/// The state at the start of a line whose first mode code is at bit `pos`.
pub open spec fn line_start(pos: int) -> LineModel {
    LineModel {
        pos,
        tpos: 0,
        a0: 0,
        color: Color::White,
        start_of_row: true,
        current: Seq::empty(),
    }
}

/// The end of every mode that does not end the line by itself: no longer at
/// the start of the row, and the line ends once `a0` reaches `width`.
pub open spec fn after_mode(width: u16, m: LineModel) -> (Outcome, LineModel) {
    let m2 = LineModel { start_of_row: false, ..m };
    if m2.a0 >= width {
        (Outcome::EndLine, m2)
    } else {
        (Outcome::Continue, m2)
    }
}

/// Pass mode once `b1` is passed: `a0` moves to `b2`, the next reference
/// transition, where there is one.
pub open spec fn pass_to_b2(edges: Seq<u16>, width: u16, m: LineModel) -> (Outcome, LineModel) {
    if 0 <= m.tpos < edges.len() {
        after_mode(width, LineModel { a0: edges[m.tpos], tpos: m.tpos + 1, ..m })
    } else {
        after_mode(width, m)
    }
}

/// One mode of a Group 4 line, read at `m.pos`, against the reference line
/// `edges`.
pub open spec fn g4_step(data: Seq<u8>, edges: Seq<u16>, width: u16, m: LineModel) -> (
    Outcome,
    LineModel,
) {
    match mode_match(data, m.pos, 1) {
        None => (Outcome::Fail, m),
        Some((mode, l)) => {
            let p = m.pos + l;
            match mode {
                Mode::Pass => {
                    if m.start_of_row && m.color == Color::White {
                        pass_to_b2(edges, width, LineModel { pos: p, tpos: m.tpos + 1, ..m })
                    } else {
                        let (b1, t) = next_color_spec(edges, m.tpos, m.a0, m.color.flipped(), false);
                        if b1.is_none() {
                            (Outcome::Fail, m)
                        } else {
                            pass_to_b2(edges, width, LineModel { pos: p, tpos: t, ..m })
                        }
                    }
                },
                Mode::Vertical(d) => {
                    let (b1o, t) = next_color_spec(
                        edges,
                        m.tpos,
                        m.a0,
                        m.color.flipped(),
                        m.start_of_row,
                    );
                    let b1: int = match b1o {
                        Some(b) => b as int,
                        None => width as int,
                    };
                    let a1 = b1 + d;
                    if a1 >= width || a1 < 0 {
                        (Outcome::EndLine, LineModel { pos: p, tpos: t, ..m })
                    } else {
                        after_mode(
                            width,
                            LineModel {
                                pos: p,
                                tpos: if d < 0 {
                                    seek_back_spec(edges, t, a1 as u16)
                                } else {
                                    t
                                },
                                a0: a1 as u16,
                                color: m.color.flipped(),
                                current: m.current.push(a1 as u16),
                                ..m
                            },
                        )
                    }
                },
                Mode::Horizontal => {
                    let (r1, mid) = run_from(m.color, data, p, 0);
                    let (r2, after) = run_from(m.color.flipped(), data, mid, 0);
                    if r1.is_none() || r2.is_none() {
                        (Outcome::Fail, m)
                    } else {
                        let a1 = m.a0 + r1.unwrap();
                        let a2 = a1 + r2.unwrap();
                        if a2 > 65535 {
                            (Outcome::Fail, m)
                        } else if a2 >= width {
                            (
                                Outcome::EndLine,
                                LineModel { pos: after, current: m.current.push(a1 as u16), ..m },
                            )
                        } else {
                            after_mode(
                                width,
                                LineModel {
                                    pos: after,
                                    a0: a2 as u16,
                                    current: m.current.push(a1 as u16).push(a2 as u16),
                                    ..m
                                },
                            )
                        }
                    }
                },
                Mode::Extension => {
                    if p + 3 <= 8 * data.len() {
                        (Outcome::Halt, LineModel { pos: p + 3, ..m })
                    } else {
                        (Outcome::Fail, m)
                    }
                },
                Mode::EOF => (Outcome::EndImage, LineModel { pos: p, ..m }),
            }
        },
    }
}

/// The state of a Group 4 line as exec values hold it.
pub open spec fn model_of(
    reader: ByteReader,
    tr: Transitions,
    st: LineState,
    current: Seq<u16>,
) -> LineModel {
    LineModel {
        pos: reader.pos as int,
        tpos: tr.pos as int,
        a0: st.a0,
        color: st.color,
        start_of_row: st.start_of_row,
        current,
    }
}

/// The column, color and start-of-row flag of a Group 4 line being decoded.
#[derive(Clone, Copy, Debug, PartialEq, Eq, Structural)]
pub struct LineState {
    pub a0: u16,
    pub color: Color,
    pub start_of_row: bool,
}

/// Reads and applies one mode of a Group 4 line.
pub fn g4_step_exec(
    reader: &mut ByteReader,
    tr: &mut Transitions,
    st: &mut LineState,
    current: &mut Vec<u16>,
    width: u16,
) -> (o: Outcome)
    requires
        old(reader).wf(),
        old(tr).wf(),
        old(st).start_of_row ==> old(tr).pos == 0,
    ensures
        final(reader).wf(),
        final(reader).data@ == old(reader).data@,
        final(tr).wf(),
        final(tr).edges@ == old(tr).edges@,
        o == g4_step(
            old(reader).data@,
            old(tr).edges@,
            width,
            model_of(*old(reader), *old(tr), *old(st), old(current)@),
        ).0,
        o != Outcome::Fail ==> model_of(*final(reader), *final(tr), *final(st), final(current)@)
            == g4_step(
            old(reader).data@,
            old(tr).edges@,
            width,
            model_of(*old(reader), *old(tr), *old(st), old(current)@),
        ).1,
        o == Outcome::Continue ==> old(reader).pos < final(reader).pos && !final(st).start_of_row,
        old(reader).pos <= final(reader).pos,
{
    proof {
        lemma_mode_match_len(reader.data@, reader.pos as int, 1);
    }
    let mode = match decode_mode(reader) {
        Some(m) => m,
        None => {
            return Outcome::Fail;
        },
    };
    match mode {
        Mode::Pass => {
            if st.start_of_row && st.color == Color::White {
                tr.skip_first();
            } else {
                if tr.next_color(st.a0, st.color.flip(), false).is_none() {
                    return Outcome::Fail;
                }
            }
            if let Some(b2) = tr.next() {
                st.a0 = b2;
            }
        },
        Mode::Vertical(delta) => {
            let b1: u16 = match tr.next_color(st.a0, st.color.flip(), st.start_of_row) {
                Some(b) => b,
                None => width,
            };
            let a1: i32 = b1 as i32 + delta as i32;
            if a1 >= width as i32 || a1 < 0 {
                return Outcome::EndLine;
            }
            current.push(a1 as u16);
            st.color = st.color.flip();
            st.a0 = a1 as u16;
            if delta < 0 {
                tr.seek_back(st.a0);
            }
        },
        Mode::Horizontal => {
            proof {
                lemma_run_from_progress(st.color, reader.data@, reader.pos as int, 0);
            }
            let a0a1 = match colored(st.color, reader) {
                Some(r) => r,
                None => {
                    return Outcome::Fail;
                },
            };
            proof {
                lemma_run_from_progress(st.color.flipped(), reader.data@, reader.pos as int, 0);
            }
            let a1a2 = match colored(st.color.flip(), reader) {
                Some(r) => r,
                None => {
                    return Outcome::Fail;
                },
            };
            if a0a1 > u16::MAX - st.a0 || a1a2 > u16::MAX - st.a0 - a0a1 {
                return Outcome::Fail;
            }
            let a1 = st.a0 + a0a1;
            let a2 = a1 + a1a2;
            current.push(a1);
            if a2 >= width {
                return Outcome::EndLine;
            }
            current.push(a2);
            st.a0 = a2;
        },
        Mode::Extension => {
            if reader.peek(3).is_none() {
                return Outcome::Fail;
            }
            reader.consume(3);
            return Outcome::Halt;
        },
        Mode::EOF => {
            return Outcome::EndImage;
        },
    }
    st.start_of_row = false;
    if st.a0 >= width {
        return Outcome::EndLine;
    }
    Outcome::Continue
}

/// Decoding the rest of a Group 4 line from `m`, mode after mode, until one
/// ends the line or the image: how it ended and the state reached.
pub open spec fn g4_line(data: Seq<u8>, edges: Seq<u16>, width: u16, m: LineModel) -> (
    Outcome,
    LineModel,
)
    decreases 8 * data.len() - m.pos,
{
    let (o, m2) = g4_step(data, edges, width, m);
    if o == Outcome::Continue {
        // never taken: every mode code is at least one bit long
        if m2.pos <= m.pos || m2.pos > 8 * data.len() {
            (Outcome::Fail, m2)
        } else {
            g4_line(data, edges, width, m2)
        }
    } else {
        (o, m2)
    }
}

/// The most lines a Group 4 image is decoded to.
pub open spec fn line_limit(height: Option<u16>) -> nat {
    match height {
        Some(h) => h as nat,
        None => 65535,
    }
}

/// Whether a Group 4 image that stops at bit `pos` ends well: without a
/// height, the second half of the end-of-facsimile-block marker must follow.
pub open spec fn g4_end(data: Seq<u8>, pos: int, height: Option<u16>) -> bool {
    match height {
        Some(_) => true,
        None => eol_at(data, pos),
    }
}

/// Decoding Group 4 lines `y` and on from bit `pos`, against the reference
/// line `reference`: the lines and whether the image decoded. Each completed
/// line is the reference of the next.
pub open spec fn g4_lines(
    data: Seq<u8>,
    width: u16,
    height: Option<u16>,
    y: nat,
    pos: int,
    reference: Seq<u16>,
) -> (Seq<Seq<u16>>, bool)
    decreases line_limit(height) - y,
{
    if y >= line_limit(height) {
        (Seq::empty(), g4_end(data, pos, height))
    } else {
        let (o, m) = g4_line(data, reference, width, line_start(pos));
        match o {
            Outcome::EndLine => {
                let (rest, ok) = g4_lines(data, width, height, y + 1, m.pos, m.current);
                (seq![m.current] + rest, ok)
            },
            Outcome::EndImage => (Seq::empty(), g4_end(data, m.pos, height)),
            Outcome::Halt => (Seq::empty(), true),
            _ => (Seq::empty(), false),
        }
    }
}

/// A Group 4 image of `width` columns: its lines and whether it decoded. The
/// first line's reference is empty, an all-white line.
pub open spec fn g4_spec(data: Seq<u8>, width: u16, height: Option<u16>) -> (Seq<Seq<u16>>, bool) {
    g4_lines(data, width, height, 0, 0, Seq::empty())
}

/// Decodes a Group 4 image.
///
/// - `width` is the width of the image.
/// - Each decoded line is appended to `lines`: the list of positions of
///   color change, starting with white.
/// - If `height` is given, at most that many lines are decoded; otherwise
///   data is decoded until the end-of-block marker.
///
/// Returns `None` where the stream is malformed; the lines decoded before
/// the fault stay appended. [`pels`] turns a line into its pixel colors.
pub fn decode_g4(input: Vec<u8>, width: u16, height: Option<u16>, lines: &mut Vec<Vec<u16>>) -> (r:
    Option<()>)
    requires
        input@.len() <= usize::MAX / 8,
    ensures
        lines_view(final(lines)@) == lines_view(old(lines)@) + g4_spec(input@, width, height).0,
        r.is_some() == g4_spec(input@, width, height).1,
{
    let ghost data = input@;
    let mut reader = ByteReader::new(input);
    let mut reference: Vec<u16> = Vec::new();
    let mut current: Vec<u16> = Vec::new();
    let limit: u16 = match height {
        Some(h) => h,
        None => u16::MAX,
    };
    let mut y: u16 = 0;
    while y < limit
        invariant_except_break
            lines_view(lines@) + g4_lines(data, width, height, y as nat, reader.pos as int, reference@).0
                == lines_view(old(lines)@) + g4_spec(data, width, height).0,
            g4_lines(data, width, height, y as nat, reader.pos as int, reference@).1 == g4_spec(
                data,
                width,
                height,
            ).1,
            current@.len() == 0,
        invariant
            reader.wf(),
            reader.data@ == data,
            data == input@,
            limit == line_limit(height),
            y <= limit,
        ensures
            lines_view(lines@) == lines_view(old(lines)@) + g4_spec(data, width, height).0,
            g4_spec(data, width, height).1 == g4_end(data, reader.pos as int, height),
        decreases limit - y,
    {
        let ghost start = reader.pos as int;
        let ghost before = lines_view(lines@);
        let ghost result = g4_line(data, reference@, width, line_start(start));
        let mut o = Outcome::Continue;
        {
            let mut tr = Transitions::new(reference.as_slice());
            let mut st = LineState { a0: 0, color: Color::White, start_of_row: true };
            assert(model_of(reader, tr, st, current@) == line_start(start)) by {
                assert(current@ =~= Seq::<u16>::empty());
            }
            while o == Outcome::Continue
                invariant
                    reader.wf(),
                    reader.data@ == data,
                    tr.wf(),
                    tr.edges@ == reference@,
                    o == Outcome::Continue && st.start_of_row ==> tr.pos == 0,
                    result == g4_line(data, reference@, width, line_start(start)),
                    o == Outcome::Continue ==> g4_line(
                        data,
                        reference@,
                        width,
                        model_of(reader, tr, st, current@),
                    ) == result,
                    o != Outcome::Continue ==> o == result.0,
                    o != Outcome::Continue && o != Outcome::Fail ==> model_of(
                        reader,
                        tr,
                        st,
                        current@,
                    ) == result.1,
                decreases reader.total() - reader.pos + if o == Outcome::Continue {
                    1int
                } else {
                    0int
                },
            {
                o = g4_step_exec(&mut reader, &mut tr, &mut st, &mut current, width);
            }
        }
        match o {
            Outcome::EndLine => {
                proof {
                    assert(g4_lines(data, width, height, y as nat, start, reference@) == (
                        seq![current@] + g4_lines(
                            data,
                            width,
                            height,
                            y as nat + 1,
                            reader.pos as int,
                            current@,
                        ).0,
                        g4_lines(data, width, height, y as nat + 1, reader.pos as int, current@).1,
                    ));
                }
                let line = current.clone();
                assert(line@ =~= current@);
                lines.push(line);
                proof {
                    let rest = g4_lines(data, width, height, y as nat + 1, reader.pos as int, current@).0;
                    assert(lines_view(lines@) =~= before.push(current@));
                    assert(before + (seq![current@] + rest) =~= before.push(current@) + rest);
                }
                std::mem::swap(&mut reference, &mut current);
                current.clear();
            },
            Outcome::EndImage => {
                assert(before + Seq::<Seq<u16>>::empty() =~= before);
                break ;
            },
            Outcome::Halt => {
                assert(before + Seq::<Seq<u16>>::empty() =~= before);
                return Some(());
            },
            _ => {
                assert(before + Seq::<Seq<u16>>::empty() =~= before);
                return None;
            },
        }
        y = y + 1;
    }
    if height.is_none() {
        if reader.expect(EOL_BITS, EOL_LEN).is_none() {
            return None;
        }
    }
    Some(())
}

/// Each line that a Group 4 image completes becomes the reference line of
/// the next: it is emitted, and the lines after it are decoded against it.
pub proof fn lemma_line_is_next_reference(
    data: Seq<u8>,
    width: u16,
    height: Option<u16>,
    y: nat,
    pos: int,
    reference: Seq<u16>,
)
    requires
        y < line_limit(height),
        g4_line(data, reference, width, line_start(pos)).0 == Outcome::EndLine,
    ensures
        ({
            let m = g4_line(data, reference, width, line_start(pos)).1;
            let out = g4_lines(data, width, height, y, pos, reference).0;
            &&& out.len() >= 1
            &&& out[0] == m.current
            &&& out.drop_first() == g4_lines(data, width, height, y + 1, m.pos, m.current).0
        }),
{
    let m = g4_line(data, reference, width, line_start(pos)).1;
    let rest = g4_lines(data, width, height, y + 1, m.pos, m.current).0;
    assert((seq![m.current] + rest).drop_first() =~= rest);
}

/// A Vertical(0) code puts the new transition exactly on `b1`: the next
/// reference transition to the right of `a0` into the color opposite to the
/// current one; the color flips and `a0` moves there.
pub proof fn lemma_vertical_zero_lands_on_b1(
    data: Seq<u8>,
    edges: Seq<u16>,
    width: u16,
    m: LineModel,
)
    requires
        m.tpos >= 0,
        mode_match(data, m.pos, 1) matches Some((mode, l)) && mode == Mode::Vertical(0),
        ({
            let k = next_index(edges, m.tpos, threshold(m.a0, m.start_of_row), m.color.flipped());
            k < edges.len() && edges[k] < width
        }),
    ensures
        ({
            let k = next_index(edges, m.tpos, threshold(m.a0, m.start_of_row), m.color.flipped());
            let m2 = g4_step(data, edges, width, m).1;
            &&& g4_step(data, edges, width, m).0 == Outcome::Continue
            &&& m2.current == m.current.push(edges[k])
            &&& m2.a0 == edges[k]
            &&& m2.color == m.color.flipped()
        }),
{
    lemma_next_index_bounds(edges, m.tpos, threshold(m.a0, m.start_of_row), m.color.flipped());
}

/// Whether every transition of `line` but the last lies left of `width`.
pub open spec fn inner_within(line: Seq<u16>, width: u16) -> bool {
    forall|i: int| 0 <= i < line.len() - 1 ==> line[i] < width
}

/// Decoding a Group 4 line from a state whose transitions all lie left of
/// `width` completes it with every transition but the last left of `width`.
pub proof fn lemma_g4_line_within_width(data: Seq<u8>, edges: Seq<u16>, width: u16, m: LineModel)
    requires
        forall|i: int| 0 <= i < m.current.len() ==> m.current[i] < width,
    ensures
        g4_line(data, edges, width, m).0 == Outcome::EndLine ==> inner_within(
            g4_line(data, edges, width, m).1.current,
            width,
        ),
    decreases 8 * data.len() - m.pos,
{
    let (o, m2) = g4_step(data, edges, width, m);
    if o == Outcome::Continue {
        if m2.pos > m.pos && m2.pos <= 8 * data.len() {
            lemma_g4_line_within_width(data, edges, width, m2);
        }
    }
}

/// Every line that a Group 4 image completes has each transition but its
/// last left of `width` (a horizontal code may end a line with a run that
/// reaches past it).
pub proof fn lemma_lines_within_width(
    data: Seq<u8>,
    width: u16,
    height: Option<u16>,
    y: nat,
    pos: int,
    reference: Seq<u16>,
)
    ensures
        forall|k: int|
            0 <= k < g4_lines(data, width, height, y, pos, reference).0.len() ==> inner_within(
                #[trigger] g4_lines(data, width, height, y, pos, reference).0[k],
                width,
            ),
    decreases line_limit(height) - y,
{
    if y < line_limit(height) {
        lemma_g4_line_within_width(data, reference, width, line_start(pos));
        let (o, m) = g4_line(data, reference, width, line_start(pos));
        if o == Outcome::EndLine {
            lemma_lines_within_width(data, width, height, y + 1, m.pos, m.current);
            let rest = g4_lines(data, width, height, y + 1, m.pos, m.current).0;
            let out = g4_lines(data, width, height, y, pos, reference).0;
            assert(out == seq![m.current] + rest);
            assert forall|k: int| 0 <= k < out.len() implies inner_within(out[k], width) by {
                if k > 0 {
                    assert(out[k] == rest[k - 1]);
                }
            }
        }
    }
}

/// Every line of a Group 4 image has each transition but its last left of
/// the image's width.
pub proof fn lemma_image_lines_within_width(data: Seq<u8>, width: u16, height: Option<u16>)
    ensures
        forall|k: int|
            0 <= k < g4_spec(data, width, height).0.len() ==> inner_within(
                #[trigger] g4_spec(data, width, height).0[k],
                width,
            ),
{
    lemma_lines_within_width(data, width, height, 0, 0, Seq::empty());
}

} // verus!

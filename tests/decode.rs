use fax::{
    colored, decode_g3, decode_g4, g4_step_exec, pels, with_markup, ByteReader, Color, LineState,
    Outcome, Transitions,
};

const EOL: &str = "000000000001";

/// Packs a string of '0' and '1' (spaces ignored) into bytes, most
/// significant bit first, padding the last byte with zeros.
fn bits(s: &str) -> Vec<u8> {
    let mut out = Vec::new();
    let mut byte: u8 = 0;
    let mut n = 0;
    for c in s.chars() {
        if c == ' ' {
            continue;
        }
        byte = (byte << 1) | if c == '1' { 1 } else { 0 };
        n += 1;
        if n == 8 {
            out.push(byte);
            byte = 0;
            n = 0;
        }
    }
    if n > 0 {
        out.push(byte << (8 - n));
    }
    out
}

fn colors(s: &str) -> Vec<Color> {
    s.chars()
        .map(|c| if c == 'W' { Color::White } else { Color::Black })
        .collect()
}

fn white_line() -> LineState {
    LineState { a0: 0, color: Color::White, start_of_row: true }
}

#[test]
fn g4_all_vertical_zero_on_empty_reference_is_white() {
    let mut lines = Vec::new();
    let r = decode_g4(bits("1111 1111"), 8, Some(1), &mut lines);
    assert_eq!(r, Some(()));
    assert_eq!(lines, vec![Vec::<u16>::new()]);
    assert_eq!(pels(&lines[0], 8), colors("WWWWWWWW"));
}

#[test]
fn g3_single_white_line() {
    let stream = format!("{EOL} 1011 {EOL} {EOL}{EOL}{EOL}{EOL}{EOL}{EOL}");
    let mut lines = Vec::new();
    let r = decode_g3(bits(&stream), &mut lines);
    assert_eq!(r, Some(()));
    assert_eq!(lines, vec![vec![4u16]]);
    assert_eq!(pels(&lines[0], 4), colors("WWWW"));
}

#[test]
fn g3_two_lines_then_end_of_page() {
    // white 2, black 3, white 3; then white 8
    let stream = format!("{EOL} 0111 10 1000 {EOL} 10011 {EOL} {EOL}{EOL}{EOL}{EOL}{EOL}{EOL}");
    let mut lines = Vec::new();
    let r = decode_g3(bits(&stream), &mut lines);
    assert_eq!(r, Some(()));
    assert_eq!(lines, vec![vec![2u16, 5, 8], vec![8u16]]);
    assert_eq!(pels(&lines[0], 8), colors("WWBBBWWW"));
}

#[test]
fn g3_missing_first_eol_fails() {
    let mut lines = Vec::new();
    assert_eq!(decode_g3(bits("1011 1011"), &mut lines), None);
    assert!(lines.is_empty());
}

#[test]
fn g3_missing_line_eol_fails() {
    let stream = format!("{EOL} 1011 1111 1111");
    let mut lines = Vec::new();
    assert_eq!(decode_g3(bits(&stream), &mut lines), None);
    assert!(lines.is_empty());
}

#[test]
fn g4_horizontal_at_line_start() {
    let mut lines = Vec::new();
    let r = decode_g4(bits("001 0111 10 1"), 8, Some(1), &mut lines);
    assert_eq!(r, Some(()));
    assert_eq!(lines, vec![vec![2u16, 5]]);
    assert_eq!(pels(&lines[0], 8), colors("WWBBBWWW"));
}

#[test]
fn g4_vertical_right_one_against_reference() {
    let mut reader = ByteReader::new(bits("011"));
    let edges: [u16; 1] = [3];
    let mut tr = Transitions::new(&edges);
    let mut st = white_line();
    let mut current = Vec::new();
    let o = g4_step_exec(&mut reader, &mut tr, &mut st, &mut current, 8);
    assert_eq!(o, Outcome::Continue);
    assert_eq!(current, vec![4u16]);
    assert_eq!(st.color, Color::Black);
    assert_eq!(st.a0, 4);
    assert!(!st.start_of_row);
}

#[test]
fn g4_pass_at_start_of_white_row() {
    let mut reader = ByteReader::new(bits("0001"));
    let edges: [u16; 2] = [2, 5];
    let mut tr = Transitions::new(&edges);
    let mut st = white_line();
    let mut current = Vec::new();
    let o = g4_step_exec(&mut reader, &mut tr, &mut st, &mut current, 8);
    assert_eq!(o, Outcome::Continue);
    assert_eq!(tr.pos, 2);
    assert_eq!(st.a0, 5);
    assert_eq!(st.color, Color::White);
    assert!(current.is_empty());
}

#[test]
fn g4_pass_at_start_on_empty_reference_keeps_a0() {
    let mut reader = ByteReader::new(bits("0001"));
    let edges: [u16; 0] = [];
    let mut tr = Transitions::new(&edges);
    let mut st = white_line();
    let mut current = Vec::new();
    let o = g4_step_exec(&mut reader, &mut tr, &mut st, &mut current, 8);
    assert_eq!(o, Outcome::Continue);
    assert_eq!(tr.pos, 1);
    assert_eq!(st.a0, 0);
    assert!(current.is_empty());
}

#[test]
fn g4_end_of_block_after_last_line() {
    let stream = format!("1 {EOL} {EOL}");
    let mut lines = Vec::new();
    let r = decode_g4(bits(&stream), 8, None, &mut lines);
    assert_eq!(r, Some(()));
    assert_eq!(lines, vec![Vec::<u16>::new()]);
}

#[test]
fn g4_missing_end_of_block_fails() {
    let stream = format!("1 {EOL} 1111 1111 1111");
    let mut lines = Vec::new();
    let r = decode_g4(bits(&stream), 8, None, &mut lines);
    assert_eq!(r, None);
    assert_eq!(lines, vec![Vec::<u16>::new()]);
}

#[test]
fn g4_first_line_sees_all_white_reference() {
    let edges: [u16; 0] = [];
    let mut tr = Transitions::new(&edges);
    assert_eq!(tr.next_color(0, Color::Black, true), None);
    assert_eq!(tr.next_color(0, Color::White, true), None);
    // a vertical code on the first line finds b1 at the right edge
    let mut lines = Vec::new();
    let r = decode_g4(bits("011"), 8, Some(1), &mut lines);
    assert_eq!(r, Some(()));
    assert_eq!(lines, vec![Vec::<u16>::new()]);
}

#[test]
fn g4_horizontal_reaching_width_ends_line() {
    let mut lines = Vec::new();
    let r = decode_g4(bits("001 0111 10"), 5, Some(1), &mut lines);
    assert_eq!(r, Some(()));
    assert_eq!(lines, vec![vec![2u16]]);
    assert_eq!(pels(&lines[0], 5), colors("WWBBB"));
}

#[test]
fn g4_vertical_past_width_ends_line() {
    let mut reader = ByteReader::new(bits("000011"));
    let edges: [u16; 1] = [6];
    let mut tr = Transitions::new(&edges);
    let mut st = white_line();
    let mut current = Vec::new();
    let o = g4_step_exec(&mut reader, &mut tr, &mut st, &mut current, 8);
    assert_eq!(o, Outcome::EndLine);
    assert!(current.is_empty());
}

#[test]
fn g4_vertical_left_three_then_vertical_refinds_b1() {
    // horizontal white 3 black 1, then VL3, then V0
    let mut reader = ByteReader::new(bits("001 1000 010 0000010 1"));
    let edges: [u16; 4] = [1, 7, 8, 20];
    let mut tr = Transitions::new(&edges);
    let mut st = white_line();
    let mut current = Vec::new();
    for _ in 0..3 {
        let o = g4_step_exec(&mut reader, &mut tr, &mut st, &mut current, 32);
        assert_eq!(o, Outcome::Continue);
    }
    assert_eq!(current, vec![3u16, 4, 5, 7]);
    assert_eq!(st.color, Color::White);
    assert_eq!(st.a0, 7);
}

#[test]
fn g4_two_lines_second_uses_first_as_reference() {
    // line 1: horizontal white 2 black 3, V0 ends it; line 2: V0, V0, V0
    let mut lines = Vec::new();
    let r = decode_g4(bits("001 0111 10 1  1 1 1"), 8, Some(2), &mut lines);
    assert_eq!(r, Some(()));
    assert_eq!(lines, vec![vec![2u16, 5], vec![2u16, 5]]);
}

#[test]
fn g4_round_trip_of_small_raster() {
    // raster (width 8): WWBBBWWW / WWWBBBWW / BBBBBBBB
    // line 1: H(2,3), V0 -> end
    // line 2: VR1 (b1=2 -> 3), VR1 (b1=5 -> 6), V0 -> end
    // line 3: VL3 (b1=3 -> 0), VR2 (b1=6 -> 8) ends it
    let stream = "001 0111 10 1   011 011 1   0000010 000011";
    let mut lines = Vec::new();
    let r = decode_g4(bits(stream), 8, Some(3), &mut lines);
    assert_eq!(r, Some(()));
    assert_eq!(pels(&lines[0], 8), colors("WWBBBWWW"));
    assert_eq!(pels(&lines[1], 8), colors("WWWBBBWW"));
    assert_eq!(pels(&lines[2], 8), colors("BBBBBBBB"));
    assert_eq!(lines, vec![vec![2u16, 5], vec![3u16, 6], vec![0u16]]);
}

#[test]
fn g4_extension_halts_cleanly() {
    let mut lines = Vec::new();
    let r = decode_g4(bits("0000001 000"), 8, None, &mut lines);
    assert_eq!(r, Some(()));
    assert!(lines.is_empty());
}

#[test]
fn g4_invalid_code_fails() {
    let mut lines = Vec::new();
    let r = decode_g4(bits("0000000 00000 0"), 8, Some(1), &mut lines);
    assert_eq!(r, None);
    assert!(lines.is_empty());
}

#[test]
fn g4_pass_without_b1_fails() {
    // V0 at start pushes nothing (b1 = width); reference empty.
    // A Pass after a first mode needs a b1 on the reference.
    let mut lines = Vec::new();
    let r = decode_g4(bits("001 0111 10  0001"), 16, Some(1), &mut lines);
    assert_eq!(r, None);
}

#[test]
fn pels_pads_with_color_after_last_transition() {
    assert_eq!(pels(&[2], 5), colors("WWBBB"));
    assert_eq!(pels(&[2, 3], 5), colors("WWBWW"));
    assert_eq!(pels(&[], 3), colors("WWW"));
    assert_eq!(pels(&[0, 2], 4), colors("BBWW"));
    assert_eq!(pels(&[1, 9], 4), colors("WBBB"));
    assert_eq!(pels(&[2, 5], 0), Vec::<Color>::new());
}

#[test]
fn pels_yields_width_colors() {
    for width in [0u16, 1, 7, 8, 100] {
        for line in [vec![], vec![3u16], vec![1u16, 2, 3], vec![5u16, 200]] {
            assert_eq!(pels(&line, width).len(), width as usize);
        }
    }
}

#[test]
fn run_with_makeup_codes() {
    // white makeup 64 (11011) then white terminating 5 (1100)
    let mut reader = ByteReader::new(bits("11011 1100"));
    assert_eq!(with_markup(Color::White, &mut reader), Some(69));
    // black makeup 64 (0000001111) then black terminating 2 (11)
    let mut reader = ByteReader::new(bits("0000001111 11"));
    assert_eq!(colored(Color::Black, &mut reader), Some(66));
    // shared makeup 1792 (00000001000) then white terminating 0 (00110101)
    let mut reader = ByteReader::new(bits("00000001000 00110101"));
    assert_eq!(colored(Color::White, &mut reader), Some(1792));
}

#[test]
fn run_without_code_fails() {
    let mut reader = ByteReader::new(bits(EOL));
    assert_eq!(colored(Color::White, &mut reader), None);
    let mut reader = ByteReader::new(Vec::new());
    assert_eq!(colored(Color::Black, &mut reader), None);
}

#[test]
fn reader_peeks_msb_first() {
    let mut reader = ByteReader::new(vec![0b1010_0000, 0xff]);
    assert_eq!(reader.peek(3), Some(0b101));
    assert_eq!(reader.peek(16), Some(0b1010_0000_1111_1111));
    reader.consume(4);
    assert_eq!(reader.peek(8), Some(0b0000_1111));
    assert_eq!(reader.peek(13), None);
    assert_eq!(reader.expect(0b0000, 4), Some(()));
    assert_eq!(reader.expect(0b0000, 4), None);
    assert_eq!(reader.remaining(), 8);
}

#[test]
fn cursor_seek_back_rewinds_past_larger_positions() {
    let edges: [u16; 4] = [1, 7, 8, 20];
    let mut tr = Transitions::new(&edges);
    assert_eq!(tr.next_color(4, Color::Black, false), Some(8));
    assert_eq!(tr.pos, 3);
    tr.seek_back(5);
    assert_eq!(tr.pos, 1);
    assert_eq!(tr.next(), Some(7));
}

#[test]
fn g4_vertical_zero_lands_on_reference_transition() {
    // after a horizontal to a0 = 1, V0 finds the next transition into Black
    let mut reader = ByteReader::new(bits("001 000111 010 1"));
    let edges: [u16; 3] = [4, 6, 9];
    let mut tr = Transitions::new(&edges);
    let mut st = white_line();
    let mut current = Vec::new();
    let mut o = Outcome::Continue;
    for _ in 0..2 {
        o = g4_step_exec(&mut reader, &mut tr, &mut st, &mut current, 16);
    }
    assert_eq!(o, Outcome::Continue);
    assert_eq!(current, vec![1u16, 2, 4]);
    assert_eq!(st.a0, 4);
    assert_eq!(st.color, Color::Black);
}

#[test]
fn g4_lines_of_conformant_stream_increase_within_width() {
    let stream = "001 0111 10 1   011 011 1";
    let mut lines = Vec::new();
    let r = decode_g4(bits(stream), 8, Some(2), &mut lines);
    assert_eq!(r, Some(()));
    assert_eq!(lines.len(), 2);
    for line in &lines {
        for w in line.windows(2) {
            assert!(w[0] < w[1]);
        }
        for &p in line {
            assert!(p > 0 && p < 8);
        }
        assert_eq!(pels(line, 8).len(), 8);
    }
}

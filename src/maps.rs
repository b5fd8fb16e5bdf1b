use vstd::prelude::*;
use crate::color::Color;
use crate::reader::{bits_value, ByteReader};

verus! {

/// A two-dimensional coding mode of T.6.
#[derive(Clone, Copy, Debug, PartialEq, Eq, Structural)]
pub enum Mode {
    Pass,
    /// The new transition lies at `b1 + delta`, `delta` in `-3..=3`.
    Vertical(i8),
    Horizontal,
    Extension,
    /// The end-of-facsimile-block marker.
    EOF,
}

/// The two-dimensional mode codes.
pub open spec fn mode_code(len: u8, code: u16) -> Option<Mode> {
    match (len, code) {
        (1, 0b1) => Some(Mode::Vertical(0)),
        (3, 0b011) => Some(Mode::Vertical(1)),
        (3, 0b010) => Some(Mode::Vertical(-1i8)),
        (3, 0b001) => Some(Mode::Horizontal),
        (4, 0b0001) => Some(Mode::Pass),
        (6, 0b000011) => Some(Mode::Vertical(2)),
        (6, 0b000010) => Some(Mode::Vertical(-2i8)),
        (7, 0b0000011) => Some(Mode::Vertical(3)),
        (7, 0b0000010) => Some(Mode::Vertical(-3i8)),
        (7, 0b0000001) => Some(Mode::Extension),
        (12, 0b000000000001) => Some(Mode::EOF),
        _ => None,
    }
}

/// Looks up a codeword of `len` bits in the table of [`mode_code`].
pub fn mode_lookup(len: u8, code: u16) -> (r: Option<Mode>)
    ensures
        r == mode_code(len, code),
{
    match (len, code) {
        (1, 0b1) => Some(Mode::Vertical(0)),
        (3, 0b011) => Some(Mode::Vertical(1)),
        (3, 0b010) => Some(Mode::Vertical(-1)),
        (3, 0b001) => Some(Mode::Horizontal),
        (4, 0b0001) => Some(Mode::Pass),
        (6, 0b000011) => Some(Mode::Vertical(2)),
        (6, 0b000010) => Some(Mode::Vertical(-2)),
        (7, 0b0000011) => Some(Mode::Vertical(3)),
        (7, 0b0000010) => Some(Mode::Vertical(-3)),
        (7, 0b0000001) => Some(Mode::Extension),
        (12, 0b000000000001) => Some(Mode::EOF),
        _ => None,
    }
}

/// The makeup codes above 1728 pixels, shared by both colors.
pub open spec fn ext_code(len: u8, code: u16) -> Option<u16> {
    match (len, code) {
        (11, 0b00000001000) => Some(1792),
        (11, 0b00000001100) => Some(1856),
        (11, 0b00000001101) => Some(1920),
        (12, 0b000000010010) => Some(1984),
        (12, 0b000000010011) => Some(2048),
        (12, 0b000000010100) => Some(2112),
        (12, 0b000000010101) => Some(2176),
        (12, 0b000000010110) => Some(2240),
        (12, 0b000000010111) => Some(2304),
        (12, 0b000000011100) => Some(2368),
        (12, 0b000000011101) => Some(2432),
        (12, 0b000000011110) => Some(2496),
        (12, 0b000000011111) => Some(2560),
        _ => None,
    }
}

/// Looks up a codeword of `len` bits in the table of [`ext_code`].
pub fn ext_lookup(len: u8, code: u16) -> (r: Option<u16>)
    ensures
        r == ext_code(len, code),
{
    match (len, code) {
        (11, 0b00000001000) => Some(1792),
        (11, 0b00000001100) => Some(1856),
        (11, 0b00000001101) => Some(1920),
        (12, 0b000000010010) => Some(1984),
        (12, 0b000000010011) => Some(2048),
        (12, 0b000000010100) => Some(2112),
        (12, 0b000000010101) => Some(2176),
        (12, 0b000000010110) => Some(2240),
        (12, 0b000000010111) => Some(2304),
        (12, 0b000000011100) => Some(2368),
        (12, 0b000000011101) => Some(2432),
        (12, 0b000000011110) => Some(2496),
        (12, 0b000000011111) => Some(2560),
        _ => None,
    }
}

/// The run-length code of white runs: terminating codes (0 to 63) and makeup codes.
pub open spec fn white_code(len: u8, code: u16) -> Option<u16> {
    match (len, code) {
        (4, 0b0111) => Some(2),
        (4, 0b1000) => Some(3),
        (4, 0b1011) => Some(4),
        (4, 0b1100) => Some(5),
        (4, 0b1110) => Some(6),
        (4, 0b1111) => Some(7),
        (5, 0b00111) => Some(10),
        (5, 0b01000) => Some(11),
        (5, 0b10010) => Some(128),
        (5, 0b10011) => Some(8),
        (5, 0b10100) => Some(9),
        (5, 0b11011) => Some(64),
        (6, 0b000011) => Some(13),
        (6, 0b000111) => Some(1),
        (6, 0b001000) => Some(12),
        (6, 0b010111) => Some(192),
        (6, 0b011000) => Some(1664),
        (6, 0b101010) => Some(16),
        (6, 0b101011) => Some(17),
        (6, 0b110100) => Some(14),
        (6, 0b110101) => Some(15),
        (7, 0b0000011) => Some(22),
        (7, 0b0000100) => Some(23),
        (7, 0b0001000) => Some(20),
        (7, 0b0001100) => Some(19),
        (7, 0b0010011) => Some(26),
        (7, 0b0010111) => Some(21),
        (7, 0b0011000) => Some(28),
        (7, 0b0100100) => Some(27),
        (7, 0b0100111) => Some(18),
        (7, 0b0101000) => Some(24),
        (7, 0b0101011) => Some(25),
        (7, 0b0110111) => Some(256),
        (8, 0b00000010) => Some(29),
        (8, 0b00000011) => Some(30),
        (8, 0b00000100) => Some(45),
        (8, 0b00000101) => Some(46),
        (8, 0b00001010) => Some(47),
        (8, 0b00001011) => Some(48),
        (8, 0b00010010) => Some(33),
        (8, 0b00010011) => Some(34),
        (8, 0b00010100) => Some(35),
        (8, 0b00010101) => Some(36),
        (8, 0b00010110) => Some(37),
        (8, 0b00010111) => Some(38),
        (8, 0b00011010) => Some(31),
        (8, 0b00011011) => Some(32),
        (8, 0b00100100) => Some(53),
        (8, 0b00100101) => Some(54),
        (8, 0b00101000) => Some(39),
        (8, 0b00101001) => Some(40),
        (8, 0b00101010) => Some(41),
        (8, 0b00101011) => Some(42),
        (8, 0b00101100) => Some(43),
        (8, 0b00101101) => Some(44),
        (8, 0b00110010) => Some(61),
        (8, 0b00110011) => Some(62),
        (8, 0b00110100) => Some(63),
        (8, 0b00110101) => Some(0),
        (8, 0b00110110) => Some(320),
        (8, 0b00110111) => Some(384),
        (8, 0b01001010) => Some(59),
        (8, 0b01001011) => Some(60),
        (8, 0b01010010) => Some(49),
        (8, 0b01010011) => Some(50),
        (8, 0b01010100) => Some(51),
        (8, 0b01010101) => Some(52),
        (8, 0b01011000) => Some(55),
        (8, 0b01011001) => Some(56),
        (8, 0b01011010) => Some(57),
        (8, 0b01011011) => Some(58),
        (8, 0b01100100) => Some(448),
        (8, 0b01100101) => Some(512),
        (8, 0b01100111) => Some(640),
        (8, 0b01101000) => Some(576),
        (9, 0b010011000) => Some(1472),
        (9, 0b010011001) => Some(1536),
        (9, 0b010011010) => Some(1600),
        (9, 0b010011011) => Some(1728),
        (9, 0b011001100) => Some(704),
        (9, 0b011001101) => Some(768),
        (9, 0b011010010) => Some(832),
        (9, 0b011010011) => Some(896),
        (9, 0b011010100) => Some(960),
        (9, 0b011010101) => Some(1024),
        (9, 0b011010110) => Some(1088),
        (9, 0b011010111) => Some(1152),
        (9, 0b011011000) => Some(1216),
        (9, 0b011011001) => Some(1280),
        (9, 0b011011010) => Some(1344),
        (9, 0b011011011) => Some(1408),
        _ => ext_code(len, code),
    }
}

/// Looks up a codeword of `len` bits in the table of [`white_code`].
pub fn white_lookup(len: u8, code: u16) -> (r: Option<u16>)
    ensures
        r == white_code(len, code),
{
    match (len, code) {
        (4, 0b0111) => Some(2),
        (4, 0b1000) => Some(3),
        (4, 0b1011) => Some(4),
        (4, 0b1100) => Some(5),
        (4, 0b1110) => Some(6),
        (4, 0b1111) => Some(7),
        (5, 0b00111) => Some(10),
        (5, 0b01000) => Some(11),
        (5, 0b10010) => Some(128),
        (5, 0b10011) => Some(8),
        (5, 0b10100) => Some(9),
        (5, 0b11011) => Some(64),
        (6, 0b000011) => Some(13),
        (6, 0b000111) => Some(1),
        (6, 0b001000) => Some(12),
        (6, 0b010111) => Some(192),
        (6, 0b011000) => Some(1664),
        (6, 0b101010) => Some(16),
        (6, 0b101011) => Some(17),
        (6, 0b110100) => Some(14),
        (6, 0b110101) => Some(15),
        (7, 0b0000011) => Some(22),
        (7, 0b0000100) => Some(23),
        (7, 0b0001000) => Some(20),
        (7, 0b0001100) => Some(19),
        (7, 0b0010011) => Some(26),
        (7, 0b0010111) => Some(21),
        (7, 0b0011000) => Some(28),
        (7, 0b0100100) => Some(27),
        (7, 0b0100111) => Some(18),
        (7, 0b0101000) => Some(24),
        (7, 0b0101011) => Some(25),
        (7, 0b0110111) => Some(256),
        (8, 0b00000010) => Some(29),
        (8, 0b00000011) => Some(30),
        (8, 0b00000100) => Some(45),
        (8, 0b00000101) => Some(46),
        (8, 0b00001010) => Some(47),
        (8, 0b00001011) => Some(48),
        (8, 0b00010010) => Some(33),
        (8, 0b00010011) => Some(34),
        (8, 0b00010100) => Some(35),
        (8, 0b00010101) => Some(36),
        (8, 0b00010110) => Some(37),
        (8, 0b00010111) => Some(38),
        (8, 0b00011010) => Some(31),
        (8, 0b00011011) => Some(32),
        (8, 0b00100100) => Some(53),
        (8, 0b00100101) => Some(54),
        (8, 0b00101000) => Some(39),
        (8, 0b00101001) => Some(40),
        (8, 0b00101010) => Some(41),
        (8, 0b00101011) => Some(42),
        (8, 0b00101100) => Some(43),
        (8, 0b00101101) => Some(44),
        (8, 0b00110010) => Some(61),
        (8, 0b00110011) => Some(62),
        (8, 0b00110100) => Some(63),
        (8, 0b00110101) => Some(0),
        (8, 0b00110110) => Some(320),
        (8, 0b00110111) => Some(384),
        (8, 0b01001010) => Some(59),
        (8, 0b01001011) => Some(60),
        (8, 0b01010010) => Some(49),
        (8, 0b01010011) => Some(50),
        (8, 0b01010100) => Some(51),
        (8, 0b01010101) => Some(52),
        (8, 0b01011000) => Some(55),
        (8, 0b01011001) => Some(56),
        (8, 0b01011010) => Some(57),
        (8, 0b01011011) => Some(58),
        (8, 0b01100100) => Some(448),
        (8, 0b01100101) => Some(512),
        (8, 0b01100111) => Some(640),
        (8, 0b01101000) => Some(576),
        (9, 0b010011000) => Some(1472),
        (9, 0b010011001) => Some(1536),
        (9, 0b010011010) => Some(1600),
        (9, 0b010011011) => Some(1728),
        (9, 0b011001100) => Some(704),
        (9, 0b011001101) => Some(768),
        (9, 0b011010010) => Some(832),
        (9, 0b011010011) => Some(896),
        (9, 0b011010100) => Some(960),
        (9, 0b011010101) => Some(1024),
        (9, 0b011010110) => Some(1088),
        (9, 0b011010111) => Some(1152),
        (9, 0b011011000) => Some(1216),
        (9, 0b011011001) => Some(1280),
        (9, 0b011011010) => Some(1344),
        (9, 0b011011011) => Some(1408),
        _ => ext_lookup(len, code),
    }
}

/// The run-length code of black runs: terminating codes (0 to 63) and makeup codes.
pub open spec fn black_code(len: u8, code: u16) -> Option<u16> {
    match (len, code) {
        (2, 0b10) => Some(3),
        (2, 0b11) => Some(2),
        (3, 0b010) => Some(1),
        (3, 0b011) => Some(4),
        (4, 0b0010) => Some(6),
        (4, 0b0011) => Some(5),
        (5, 0b00011) => Some(7),
        (6, 0b000100) => Some(9),
        (6, 0b000101) => Some(8),
        (7, 0b0000100) => Some(10),
        (7, 0b0000101) => Some(11),
        (7, 0b0000111) => Some(12),
        (8, 0b00000100) => Some(13),
        (8, 0b00000111) => Some(14),
        (9, 0b000011000) => Some(15),
        (10, 0b0000001000) => Some(18),
        (10, 0b0000001111) => Some(64),
        (10, 0b0000010111) => Some(16),
        (10, 0b0000011000) => Some(17),
        (10, 0b0000110111) => Some(0),
        (11, 0b00000010111) => Some(24),
        (11, 0b00000011000) => Some(25),
        (11, 0b00000101000) => Some(23),
        (11, 0b00000110111) => Some(22),
        (11, 0b00001100111) => Some(19),
        (11, 0b00001101000) => Some(20),
        (11, 0b00001101100) => Some(21),
        (12, 0b000000100100) => Some(52),
        (12, 0b000000100111) => Some(55),
        (12, 0b000000101000) => Some(56),
        (12, 0b000000101011) => Some(59),
        (12, 0b000000101100) => Some(60),
        (12, 0b000000110011) => Some(320),
        (12, 0b000000110100) => Some(384),
        (12, 0b000000110101) => Some(448),
        (12, 0b000000110111) => Some(53),
        (12, 0b000000111000) => Some(54),
        (12, 0b000001010010) => Some(50),
        (12, 0b000001010011) => Some(51),
        (12, 0b000001010100) => Some(44),
        (12, 0b000001010101) => Some(45),
        (12, 0b000001010110) => Some(46),
        (12, 0b000001010111) => Some(47),
        (12, 0b000001011000) => Some(57),
        (12, 0b000001011001) => Some(58),
        (12, 0b000001011010) => Some(61),
        (12, 0b000001011011) => Some(256),
        (12, 0b000001100100) => Some(48),
        (12, 0b000001100101) => Some(49),
        (12, 0b000001100110) => Some(62),
        (12, 0b000001100111) => Some(63),
        (12, 0b000001101000) => Some(30),
        (12, 0b000001101001) => Some(31),
        (12, 0b000001101010) => Some(32),
        (12, 0b000001101011) => Some(33),
        (12, 0b000001101100) => Some(40),
        (12, 0b000001101101) => Some(41),
        (12, 0b000011001000) => Some(128),
        (12, 0b000011001001) => Some(192),
        (12, 0b000011001010) => Some(26),
        (12, 0b000011001011) => Some(27),
        (12, 0b000011001100) => Some(28),
        (12, 0b000011001101) => Some(29),
        (12, 0b000011010010) => Some(34),
        (12, 0b000011010011) => Some(35),
        (12, 0b000011010100) => Some(36),
        (12, 0b000011010101) => Some(37),
        (12, 0b000011010110) => Some(38),
        (12, 0b000011010111) => Some(39),
        (12, 0b000011011010) => Some(42),
        (12, 0b000011011011) => Some(43),
        (13, 0b0000001001010) => Some(640),
        (13, 0b0000001001011) => Some(704),
        (13, 0b0000001001100) => Some(768),
        (13, 0b0000001001101) => Some(832),
        (13, 0b0000001010010) => Some(1280),
        (13, 0b0000001010011) => Some(1344),
        (13, 0b0000001010100) => Some(1408),
        (13, 0b0000001010101) => Some(1472),
        (13, 0b0000001011010) => Some(1536),
        (13, 0b0000001011011) => Some(1600),
        (13, 0b0000001100100) => Some(1664),
        (13, 0b0000001100101) => Some(1728),
        (13, 0b0000001101100) => Some(512),
        (13, 0b0000001101101) => Some(576),
        (13, 0b0000001110010) => Some(896),
        (13, 0b0000001110011) => Some(960),
        (13, 0b0000001110100) => Some(1024),
        (13, 0b0000001110101) => Some(1088),
        (13, 0b0000001110110) => Some(1152),
        (13, 0b0000001110111) => Some(1216),
        _ => ext_code(len, code),
    }
}

/// Looks up a codeword of `len` bits in the table of [`black_code`].
pub fn black_lookup(len: u8, code: u16) -> (r: Option<u16>)
    ensures
        r == black_code(len, code),
{
    match (len, code) {
        (2, 0b10) => Some(3),
        (2, 0b11) => Some(2),
        (3, 0b010) => Some(1),
        (3, 0b011) => Some(4),
        (4, 0b0010) => Some(6),
        (4, 0b0011) => Some(5),
        (5, 0b00011) => Some(7),
        (6, 0b000100) => Some(9),
        (6, 0b000101) => Some(8),
        (7, 0b0000100) => Some(10),
        (7, 0b0000101) => Some(11),
        (7, 0b0000111) => Some(12),
        (8, 0b00000100) => Some(13),
        (8, 0b00000111) => Some(14),
        (9, 0b000011000) => Some(15),
        (10, 0b0000001000) => Some(18),
        (10, 0b0000001111) => Some(64),
        (10, 0b0000010111) => Some(16),
        (10, 0b0000011000) => Some(17),
        (10, 0b0000110111) => Some(0),
        (11, 0b00000010111) => Some(24),
        (11, 0b00000011000) => Some(25),
        (11, 0b00000101000) => Some(23),
        (11, 0b00000110111) => Some(22),
        (11, 0b00001100111) => Some(19),
        (11, 0b00001101000) => Some(20),
        (11, 0b00001101100) => Some(21),
        (12, 0b000000100100) => Some(52),
        (12, 0b000000100111) => Some(55),
        (12, 0b000000101000) => Some(56),
        (12, 0b000000101011) => Some(59),
        (12, 0b000000101100) => Some(60),
        (12, 0b000000110011) => Some(320),
        (12, 0b000000110100) => Some(384),
        (12, 0b000000110101) => Some(448),
        (12, 0b000000110111) => Some(53),
        (12, 0b000000111000) => Some(54),
        (12, 0b000001010010) => Some(50),
        (12, 0b000001010011) => Some(51),
        (12, 0b000001010100) => Some(44),
        (12, 0b000001010101) => Some(45),
        (12, 0b000001010110) => Some(46),
        (12, 0b000001010111) => Some(47),
        (12, 0b000001011000) => Some(57),
        (12, 0b000001011001) => Some(58),
        (12, 0b000001011010) => Some(61),
        (12, 0b000001011011) => Some(256),
        (12, 0b000001100100) => Some(48),
        (12, 0b000001100101) => Some(49),
        (12, 0b000001100110) => Some(62),
        (12, 0b000001100111) => Some(63),
        (12, 0b000001101000) => Some(30),
        (12, 0b000001101001) => Some(31),
        (12, 0b000001101010) => Some(32),
        (12, 0b000001101011) => Some(33),
        (12, 0b000001101100) => Some(40),
        (12, 0b000001101101) => Some(41),
        (12, 0b000011001000) => Some(128),
        (12, 0b000011001001) => Some(192),
        (12, 0b000011001010) => Some(26),
        (12, 0b000011001011) => Some(27),
        (12, 0b000011001100) => Some(28),
        (12, 0b000011001101) => Some(29),
        (12, 0b000011010010) => Some(34),
        (12, 0b000011010011) => Some(35),
        (12, 0b000011010100) => Some(36),
        (12, 0b000011010101) => Some(37),
        (12, 0b000011010110) => Some(38),
        (12, 0b000011010111) => Some(39),
        (12, 0b000011011010) => Some(42),
        (12, 0b000011011011) => Some(43),
        (13, 0b0000001001010) => Some(640),
        (13, 0b0000001001011) => Some(704),
        (13, 0b0000001001100) => Some(768),
        (13, 0b0000001001101) => Some(832),
        (13, 0b0000001010010) => Some(1280),
        (13, 0b0000001010011) => Some(1344),
        (13, 0b0000001010100) => Some(1408),
        (13, 0b0000001010101) => Some(1472),
        (13, 0b0000001011010) => Some(1536),
        (13, 0b0000001011011) => Some(1600),
        (13, 0b0000001100100) => Some(1664),
        (13, 0b0000001100101) => Some(1728),
        (13, 0b0000001101100) => Some(512),
        (13, 0b0000001101101) => Some(576),
        (13, 0b0000001110010) => Some(896),
        (13, 0b0000001110011) => Some(960),
        (13, 0b0000001110100) => Some(1024),
        (13, 0b0000001110101) => Some(1088),
        (13, 0b0000001110110) => Some(1152),
        (13, 0b0000001110111) => Some(1216),
        _ => ext_lookup(len, code),
    }
}

/// The run-length code of runs of `color`.
pub open spec fn run_code(color: Color, len: u8, code: u16) -> Option<u16> {
    match color {
        Color::White => white_code(len, code),
        Color::Black => black_code(len, code),
    }
}

/// The longest codeword of any table.
pub const MAX_CODE_LEN: u8 = 13;

/// The shortest prefix of at least `len` bits at `pos` that is a codeword of
/// the run-length code of `color`: its value and its length.
pub open spec fn run_match(color: Color, data: Seq<u8>, pos: int, len: nat) -> Option<(u16, nat)>
    decreases 14 - len,
{
    if len > 13 || pos + len > 8 * data.len() {
        None
    } else {
        match run_code(color, len as u8, bits_value(data, pos, len) as u16) {
            Some(v) => Some((v, len)),
            None => run_match(color, data, pos, len + 1),
        }
    }
}

/// The shortest prefix of at least `len` bits at `pos` that is a mode
/// codeword: the mode and its length.
pub open spec fn mode_match(data: Seq<u8>, pos: int, len: nat) -> Option<(Mode, nat)>
    decreases 14 - len,
{
    if len > 13 || pos + len > 8 * data.len() {
        None
    } else {
        match mode_code(len as u8, bits_value(data, pos, len) as u16) {
            Some(m) => Some((m, len)),
            None => mode_match(data, pos, len + 1),
        }
    }
}

pub proof fn lemma_run_match_len(color: Color, data: Seq<u8>, pos: int, len: nat)
    requires
        len >= 1,
    ensures
        run_match(color, data, pos, len) matches Some((v, l)) ==> 1 <= l <= 13 && pos + l <= 8
            * data.len(),
    decreases 14 - len,
{
    if len <= 13 && pos + len <= 8 * data.len() {
        lemma_run_match_len(color, data, pos, len + 1);
    }
}

pub proof fn lemma_mode_match_len(data: Seq<u8>, pos: int, len: nat)
    requires
        len >= 1,
    ensures
        mode_match(data, pos, len) matches Some((m, l)) ==> 1 <= l <= 13 && pos + l <= 8
            * data.len(),
    decreases 14 - len,
{
    if len <= 13 && pos + len <= 8 * data.len() {
        lemma_mode_match_len(data, pos, len + 1);
    }
}

/// Looks up a codeword of `len` bits in the run-length code of `color`.
pub fn run_lookup(color: Color, len: u8, code: u16) -> (r: Option<u16>)
    ensures
        r == run_code(color, len, code),
{
    match color {
        Color::White => white_lookup(len, code),
        Color::Black => black_lookup(len, code),
    }
}

/// Consumes the shortest codeword of the run-length code of `color` that
/// the stream begins with, and returns its value; leaves the stream as it was
/// where no codeword matches.
pub fn decode_code(reader: &mut ByteReader, color: Color) -> (r: Option<u16>)
    requires
        old(reader).wf(),
    ensures
        final(reader).wf(),
        final(reader).data@ == old(reader).data@,
        match run_match(color, old(reader).data@, old(reader).pos as int, 1) {
            Some((v, l)) => r == Some(v) && final(reader).pos == old(reader).pos + l,
            None => r.is_none() && final(reader).pos == old(reader).pos,
        },
{
    let mut len: u8 = 1;
    while len <= MAX_CODE_LEN
        invariant
            reader.wf(),
            1 <= len <= 14,
            reader.data@ == old(reader).data@,
            reader.pos == old(reader).pos,
            run_match(color, reader.data@, reader.pos as int, 1) == run_match(
                color,
                reader.data@,
                reader.pos as int,
                len as nat,
            ),
        decreases 14 - len,
    {
        match reader.peek(len) {
            None => {
                return None;
            },
            Some(v) => {
                match run_lookup(color, len, v) {
                    Some(x) => {
                        reader.consume(len);
                        return Some(x);
                    },
                    None => {},
                }
            },
        }
        len = len + 1;
    }
    None
}

/// Consumes the shortest mode codeword that the stream begins with, and
/// returns its mode; leaves the stream as it was where no codeword matches.
pub fn decode_mode(reader: &mut ByteReader) -> (r: Option<Mode>)
    requires
        old(reader).wf(),
    ensures
        final(reader).wf(),
        final(reader).data@ == old(reader).data@,
        match mode_match(old(reader).data@, old(reader).pos as int, 1) {
            Some((m, l)) => r == Some(m) && final(reader).pos == old(reader).pos + l,
            None => r.is_none() && final(reader).pos == old(reader).pos,
        },
{
    let mut len: u8 = 1;
    while len <= MAX_CODE_LEN
        invariant
            reader.wf(),
            1 <= len <= 14,
            reader.data@ == old(reader).data@,
            reader.pos == old(reader).pos,
            mode_match(reader.data@, reader.pos as int, 1) == mode_match(
                reader.data@,
                reader.pos as int,
                len as nat,
            ),
        decreases 14 - len,
    {
        match reader.peek(len) {
            None => {
                return None;
            },
            Some(v) => {
                match mode_lookup(len, v) {
                    Some(m) => {
                        reader.consume(len);
                        return Some(m);
                    },
                    None => {},
                }
            },
        }
        len = len + 1;
    }
    None
}

} // verus!

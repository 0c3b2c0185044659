//! Country codes of the tax statement: the numeric codes of the All-Russian
//! classifier of the countries of the world (OKSM), by the two-letter code of a
//! country.

use vstd::prelude::*;

use crate::encoding::{
    decimal_text, invalid_value, lemma_natural_text_roundtrip, natural_text_usize, TaxStatementPrimitiveType,
    TaxStatementType,
};
use crate::error::Error;

verus! {

/// An integer of the tax statement.
pub type Integer = usize;

/// The numeric code of the country with the given two-letter code.
pub open spec fn country_code_of(first: char, second: char) -> Option<u16> {
    match (first, second) {
        ('A', 'B') => Some(895u16),
        ('A', 'U') => Some(36u16),
        ('A', 'T') => Some(40u16),
        ('A', 'Z') => Some(31u16),
        ('A', 'L') => Some(8u16),
        ('D', 'Z') => Some(12u16),
        ('A', 'S') => Some(16u16),
        ('A', 'I') => Some(660u16),
        ('A', 'O') => Some(24u16),
        ('A', 'D') => Some(20u16),
        ('A', 'Q') => Some(10u16),
        ('A', 'G') => Some(28u16),
        ('A', 'R') => Some(32u16),
        ('A', 'M') => Some(51u16),
        ('A', 'W') => Some(533u16),
        ('A', 'F') => Some(4u16),
        ('B', 'S') => Some(44u16),
        ('B', 'D') => Some(50u16),
        ('B', 'B') => Some(52u16),
        ('B', 'H') => Some(48u16),
        ('B', 'Y') => Some(112u16),
        ('B', 'Z') => Some(84u16),
        ('B', 'E') => Some(56u16),
        ('B', 'J') => Some(204u16),
        ('B', 'M') => Some(60u16),
        ('B', 'G') => Some(100u16),
        ('B', 'O') => Some(68u16),
        ('B', 'Q') => Some(535u16),
        ('B', 'A') => Some(70u16),
        ('B', 'W') => Some(72u16),
        ('B', 'R') => Some(76u16),
        ('I', 'O') => Some(86u16),
        ('B', 'N') => Some(96u16),
        ('B', 'F') => Some(854u16),
        ('B', 'I') => Some(108u16),
        ('B', 'T') => Some(64u16),
        ('V', 'U') => Some(548u16),
        ('H', 'U') => Some(348u16),
        ('V', 'E') => Some(862u16),
        ('V', 'G') => Some(92u16),
        ('V', 'I') => Some(850u16),
        ('V', 'N') => Some(704u16),
        ('G', 'A') => Some(266u16),
        ('H', 'T') => Some(332u16),
        ('G', 'Y') => Some(328u16),
        ('G', 'M') => Some(270u16),
        ('G', 'H') => Some(288u16),
        ('G', 'P') => Some(312u16),
        ('G', 'T') => Some(320u16),
        ('G', 'N') => Some(324u16),
        ('G', 'W') => Some(624u16),
        ('D', 'E') => Some(276u16),
        ('G', 'G') => Some(831u16),
        ('G', 'I') => Some(292u16),
        ('H', 'N') => Some(340u16),
        ('H', 'K') => Some(344u16),
        ('G', 'D') => Some(308u16),
        ('G', 'L') => Some(304u16),
        ('G', 'R') => Some(300u16),
        ('G', 'E') => Some(268u16),
        ('G', 'U') => Some(316u16),
        ('D', 'K') => Some(208u16),
        ('J', 'E') => Some(832u16),
        ('D', 'J') => Some(262u16),
        ('D', 'M') => Some(212u16),
        ('D', 'O') => Some(214u16),
        ('E', 'G') => Some(818u16),
        ('Z', 'M') => Some(894u16),
        ('E', 'H') => Some(732u16),
        ('Z', 'W') => Some(716u16),
        ('I', 'L') => Some(376u16),
        ('I', 'N') => Some(356u16),
        ('I', 'D') => Some(360u16),
        ('J', 'O') => Some(400u16),
        ('I', 'Q') => Some(368u16),
        ('I', 'R') => Some(364u16),
        ('I', 'E') => Some(372u16),
        ('I', 'S') => Some(352u16),
        ('E', 'S') => Some(724u16),
        ('I', 'T') => Some(380u16),
        ('Y', 'E') => Some(887u16),
        ('C', 'V') => Some(132u16),
        ('K', 'Z') => Some(398u16),
        ('K', 'H') => Some(116u16),
        ('C', 'M') => Some(120u16),
        ('C', 'A') => Some(124u16),
        ('Q', 'A') => Some(634u16),
        ('K', 'E') => Some(404u16),
        ('C', 'Y') => Some(196u16),
        ('K', 'G') => Some(417u16),
        ('K', 'I') => Some(296u16),
        ('C', 'N') => Some(156u16),
        ('C', 'C') => Some(166u16),
        ('C', 'O') => Some(170u16),
        ('K', 'M') => Some(174u16),
        ('C', 'G') => Some(178u16),
        ('C', 'D') => Some(180u16),
        ('K', 'P') => Some(408u16),
        ('K', 'R') => Some(410u16),
        ('C', 'R') => Some(188u16),
        ('C', 'I') => Some(384u16),
        ('C', 'U') => Some(192u16),
        ('K', 'W') => Some(414u16),
        ('C', 'W') => Some(531u16),
        ('L', 'A') => Some(418u16),
        ('L', 'V') => Some(428u16),
        ('L', 'S') => Some(426u16),
        ('L', 'R') => Some(430u16),
        ('L', 'B') => Some(422u16),
        ('L', 'Y') => Some(434u16),
        ('L', 'T') => Some(440u16),
        ('L', 'I') => Some(438u16),
        ('L', 'U') => Some(442u16),
        ('M', 'U') => Some(480u16),
        ('M', 'R') => Some(478u16),
        ('M', 'G') => Some(450u16),
        ('Y', 'T') => Some(175u16),
        ('M', 'O') => Some(446u16),
        ('M', 'W') => Some(454u16),
        ('M', 'Y') => Some(458u16),
        ('M', 'L') => Some(466u16),
        ('U', 'M') => Some(581u16),
        ('M', 'V') => Some(462u16),
        ('M', 'T') => Some(470u16),
        ('M', 'A') => Some(504u16),
        ('M', 'Q') => Some(474u16),
        ('M', 'H') => Some(584u16),
        ('M', 'X') => Some(484u16),
        ('F', 'M') => Some(583u16),
        ('M', 'Z') => Some(508u16),
        ('M', 'D') => Some(498u16),
        ('M', 'C') => Some(492u16),
        ('M', 'N') => Some(496u16),
        ('M', 'S') => Some(500u16),
        ('M', 'M') => Some(104u16),
        ('N', 'A') => Some(516u16),
        ('N', 'R') => Some(520u16),
        ('N', 'P') => Some(524u16),
        ('N', 'E') => Some(562u16),
        ('N', 'G') => Some(566u16),
        ('N', 'L') => Some(528u16),
        ('N', 'I') => Some(558u16),
        ('N', 'U') => Some(570u16),
        ('N', 'Z') => Some(554u16),
        ('N', 'C') => Some(540u16),
        ('N', 'O') => Some(578u16),
        ('A', 'E') => Some(784u16),
        ('O', 'M') => Some(512u16),
        ('K', 'Y') => Some(136u16),
        ('C', 'K') => Some(184u16),
        ('T', 'C') => Some(796u16),
        ('B', 'V') => Some(74u16),
        ('I', 'M') => Some(833u16),
        ('N', 'F') => Some(574u16),
        ('C', 'X') => Some(162u16),
        ('H', 'M') => Some(334u16),
        ('P', 'K') => Some(586u16),
        ('P', 'W') => Some(585u16),
        ('P', 'S') => Some(275u16),
        ('P', 'A') => Some(591u16),
        ('V', 'A') => Some(336u16),
        ('P', 'G') => Some(598u16),
        ('P', 'Y') => Some(600u16),
        ('P', 'E') => Some(604u16),
        ('P', 'N') => Some(612u16),
        ('P', 'L') => Some(616u16),
        ('P', 'T') => Some(620u16),
        ('P', 'R') => Some(630u16),
        ('R', 'E') => Some(638u16),
        ('R', 'U') => Some(643u16),
        ('R', 'W') => Some(646u16),
        ('R', 'O') => Some(642u16),
        ('W', 'S') => Some(882u16),
        ('S', 'M') => Some(674u16),
        ('S', 'T') => Some(678u16),
        ('S', 'A') => Some(682u16),
        ('S', 'H') => Some(654u16),
        ('M', 'K') => Some(807u16),
        ('M', 'P') => Some(580u16),
        ('S', 'C') => Some(690u16),
        ('B', 'L') => Some(652u16),
        ('M', 'F') => Some(663u16),
        ('S', 'X') => Some(534u16),
        ('S', 'N') => Some(686u16),
        ('V', 'C') => Some(670u16),
        ('K', 'N') => Some(659u16),
        ('L', 'C') => Some(662u16),
        ('P', 'M') => Some(666u16),
        ('R', 'S') => Some(688u16),
        ('S', 'G') => Some(702u16),
        ('S', 'Y') => Some(760u16),
        ('S', 'K') => Some(703u16),
        ('S', 'I') => Some(705u16),
        ('G', 'B') => Some(826u16),
        ('U', 'S') => Some(840u16),
        ('S', 'B') => Some(90u16),
        ('S', 'O') => Some(706u16),
        ('S', 'D') => Some(729u16),
        ('S', 'R') => Some(740u16),
        ('S', 'L') => Some(694u16),
        ('T', 'J') => Some(762u16),
        ('T', 'H') => Some(764u16),
        ('T', 'W') => Some(158u16),
        ('T', 'Z') => Some(834u16),
        ('T', 'L') => Some(626u16),
        ('T', 'G') => Some(768u16),
        ('T', 'K') => Some(772u16),
        ('T', 'O') => Some(776u16),
        ('T', 'T') => Some(780u16),
        ('T', 'V') => Some(798u16),
        ('T', 'N') => Some(788u16),
        ('T', 'M') => Some(795u16),
        ('T', 'R') => Some(792u16),
        ('U', 'G') => Some(800u16),
        ('U', 'Z') => Some(860u16),
        ('U', 'A') => Some(804u16),
        ('W', 'F') => Some(876u16),
        ('U', 'Y') => Some(858u16),
        ('F', 'O') => Some(234u16),
        ('F', 'J') => Some(242u16),
        ('P', 'H') => Some(608u16),
        ('F', 'I') => Some(246u16),
        ('F', 'K') => Some(238u16),
        ('F', 'R') => Some(250u16),
        ('G', 'F') => Some(254u16),
        ('P', 'F') => Some(258u16),
        ('T', 'F') => Some(260u16),
        ('H', 'R') => Some(191u16),
        ('C', 'F') => Some(140u16),
        ('T', 'D') => Some(148u16),
        ('M', 'E') => Some(499u16),
        ('C', 'Z') => Some(203u16),
        ('C', 'L') => Some(152u16),
        ('C', 'H') => Some(756u16),
        ('S', 'E') => Some(752u16),
        ('S', 'J') => Some(744u16),
        ('L', 'K') => Some(144u16),
        ('E', 'C') => Some(218u16),
        ('G', 'Q') => Some(226u16),
        ('A', 'X') => Some(248u16),
        ('S', 'V') => Some(222u16),
        ('E', 'R') => Some(232u16),
        ('S', 'Z') => Some(748u16),
        ('E', 'E') => Some(233u16),
        ('E', 'T') => Some(231u16),
        ('Z', 'A') => Some(710u16),
        ('G', 'S') => Some(239u16),
        ('O', 'S') => Some(896u16),
        ('S', 'S') => Some(728u16),
        ('J', 'M') => Some(388u16),
        ('J', 'P') => Some(392u16),
        _ => None,
    }
}

/// The two-letter code of the country that OKSM numbers `code`, by the numeric
/// codes of the classifier.
pub open spec fn oksm_letters(code: u16) -> Option<(char, char)> {
    match code {
        4u16 => Some(('A', 'F')),
        8u16 => Some(('A', 'L')),
        10u16 => Some(('A', 'Q')),
        12u16 => Some(('D', 'Z')),
        16u16 => Some(('A', 'S')),
        20u16 => Some(('A', 'D')),
        24u16 => Some(('A', 'O')),
        28u16 => Some(('A', 'G')),
        31u16 => Some(('A', 'Z')),
        32u16 => Some(('A', 'R')),
        36u16 => Some(('A', 'U')),
        40u16 => Some(('A', 'T')),
        44u16 => Some(('B', 'S')),
        48u16 => Some(('B', 'H')),
        50u16 => Some(('B', 'D')),
        51u16 => Some(('A', 'M')),
        52u16 => Some(('B', 'B')),
        56u16 => Some(('B', 'E')),
        60u16 => Some(('B', 'M')),
        64u16 => Some(('B', 'T')),
        68u16 => Some(('B', 'O')),
        70u16 => Some(('B', 'A')),
        72u16 => Some(('B', 'W')),
        74u16 => Some(('B', 'V')),
        76u16 => Some(('B', 'R')),
        84u16 => Some(('B', 'Z')),
        86u16 => Some(('I', 'O')),
        90u16 => Some(('S', 'B')),
        92u16 => Some(('V', 'G')),
        96u16 => Some(('B', 'N')),
        100u16 => Some(('B', 'G')),
        104u16 => Some(('M', 'M')),
        108u16 => Some(('B', 'I')),
        112u16 => Some(('B', 'Y')),
        116u16 => Some(('K', 'H')),
        120u16 => Some(('C', 'M')),
        124u16 => Some(('C', 'A')),
        132u16 => Some(('C', 'V')),
        136u16 => Some(('K', 'Y')),
        140u16 => Some(('C', 'F')),
        144u16 => Some(('L', 'K')),
        148u16 => Some(('T', 'D')),
        152u16 => Some(('C', 'L')),
        156u16 => Some(('C', 'N')),
        158u16 => Some(('T', 'W')),
        162u16 => Some(('C', 'X')),
        166u16 => Some(('C', 'C')),
        170u16 => Some(('C', 'O')),
        174u16 => Some(('K', 'M')),
        175u16 => Some(('Y', 'T')),
        178u16 => Some(('C', 'G')),
        180u16 => Some(('C', 'D')),
        184u16 => Some(('C', 'K')),
        188u16 => Some(('C', 'R')),
        191u16 => Some(('H', 'R')),
        192u16 => Some(('C', 'U')),
        196u16 => Some(('C', 'Y')),
        203u16 => Some(('C', 'Z')),
        204u16 => Some(('B', 'J')),
        208u16 => Some(('D', 'K')),
        212u16 => Some(('D', 'M')),
        214u16 => Some(('D', 'O')),
        218u16 => Some(('E', 'C')),
        222u16 => Some(('S', 'V')),
        226u16 => Some(('G', 'Q')),
        231u16 => Some(('E', 'T')),
        232u16 => Some(('E', 'R')),
        233u16 => Some(('E', 'E')),
        234u16 => Some(('F', 'O')),
        238u16 => Some(('F', 'K')),
        239u16 => Some(('G', 'S')),
        242u16 => Some(('F', 'J')),
        246u16 => Some(('F', 'I')),
        248u16 => Some(('A', 'X')),
        250u16 => Some(('F', 'R')),
        254u16 => Some(('G', 'F')),
        258u16 => Some(('P', 'F')),
        260u16 => Some(('T', 'F')),
        262u16 => Some(('D', 'J')),
        266u16 => Some(('G', 'A')),
        268u16 => Some(('G', 'E')),
        270u16 => Some(('G', 'M')),
        275u16 => Some(('P', 'S')),
        276u16 => Some(('D', 'E')),
        288u16 => Some(('G', 'H')),
        292u16 => Some(('G', 'I')),
        296u16 => Some(('K', 'I')),
        300u16 => Some(('G', 'R')),
        304u16 => Some(('G', 'L')),
        308u16 => Some(('G', 'D')),
        312u16 => Some(('G', 'P')),
        316u16 => Some(('G', 'U')),
        320u16 => Some(('G', 'T')),
        324u16 => Some(('G', 'N')),
        328u16 => Some(('G', 'Y')),
        332u16 => Some(('H', 'T')),
        334u16 => Some(('H', 'M')),
        336u16 => Some(('V', 'A')),
        340u16 => Some(('H', 'N')),
        344u16 => Some(('H', 'K')),
        348u16 => Some(('H', 'U')),
        352u16 => Some(('I', 'S')),
        356u16 => Some(('I', 'N')),
        360u16 => Some(('I', 'D')),
        364u16 => Some(('I', 'R')),
        368u16 => Some(('I', 'Q')),
        372u16 => Some(('I', 'E')),
        376u16 => Some(('I', 'L')),
        380u16 => Some(('I', 'T')),
        384u16 => Some(('C', 'I')),
        388u16 => Some(('J', 'M')),
        392u16 => Some(('J', 'P')),
        398u16 => Some(('K', 'Z')),
        400u16 => Some(('J', 'O')),
        404u16 => Some(('K', 'E')),
        408u16 => Some(('K', 'P')),
        410u16 => Some(('K', 'R')),
        414u16 => Some(('K', 'W')),
        417u16 => Some(('K', 'G')),
        418u16 => Some(('L', 'A')),
        422u16 => Some(('L', 'B')),
        426u16 => Some(('L', 'S')),
        428u16 => Some(('L', 'V')),
        430u16 => Some(('L', 'R')),
        434u16 => Some(('L', 'Y')),
        438u16 => Some(('L', 'I')),
        440u16 => Some(('L', 'T')),
        442u16 => Some(('L', 'U')),
        446u16 => Some(('M', 'O')),
        450u16 => Some(('M', 'G')),
        454u16 => Some(('M', 'W')),
        458u16 => Some(('M', 'Y')),
        462u16 => Some(('M', 'V')),
        466u16 => Some(('M', 'L')),
        470u16 => Some(('M', 'T')),
        474u16 => Some(('M', 'Q')),
        478u16 => Some(('M', 'R')),
        480u16 => Some(('M', 'U')),
        484u16 => Some(('M', 'X')),
        492u16 => Some(('M', 'C')),
        496u16 => Some(('M', 'N')),
        498u16 => Some(('M', 'D')),
        499u16 => Some(('M', 'E')),
        500u16 => Some(('M', 'S')),
        504u16 => Some(('M', 'A')),
        508u16 => Some(('M', 'Z')),
        512u16 => Some(('O', 'M')),
        516u16 => Some(('N', 'A')),
        520u16 => Some(('N', 'R')),
        524u16 => Some(('N', 'P')),
        528u16 => Some(('N', 'L')),
        531u16 => Some(('C', 'W')),
        533u16 => Some(('A', 'W')),
        534u16 => Some(('S', 'X')),
        535u16 => Some(('B', 'Q')),
        540u16 => Some(('N', 'C')),
        548u16 => Some(('V', 'U')),
        554u16 => Some(('N', 'Z')),
        558u16 => Some(('N', 'I')),
        562u16 => Some(('N', 'E')),
        566u16 => Some(('N', 'G')),
        570u16 => Some(('N', 'U')),
        574u16 => Some(('N', 'F')),
        578u16 => Some(('N', 'O')),
        580u16 => Some(('M', 'P')),
        581u16 => Some(('U', 'M')),
        583u16 => Some(('F', 'M')),
        584u16 => Some(('M', 'H')),
        585u16 => Some(('P', 'W')),
        586u16 => Some(('P', 'K')),
        591u16 => Some(('P', 'A')),
        598u16 => Some(('P', 'G')),
        600u16 => Some(('P', 'Y')),
        604u16 => Some(('P', 'E')),
        608u16 => Some(('P', 'H')),
        612u16 => Some(('P', 'N')),
        616u16 => Some(('P', 'L')),
        620u16 => Some(('P', 'T')),
        624u16 => Some(('G', 'W')),
        626u16 => Some(('T', 'L')),
        630u16 => Some(('P', 'R')),
        634u16 => Some(('Q', 'A')),
        638u16 => Some(('R', 'E')),
        642u16 => Some(('R', 'O')),
        643u16 => Some(('R', 'U')),
        646u16 => Some(('R', 'W')),
        652u16 => Some(('B', 'L')),
        654u16 => Some(('S', 'H')),
        659u16 => Some(('K', 'N')),
        660u16 => Some(('A', 'I')),
        662u16 => Some(('L', 'C')),
        663u16 => Some(('M', 'F')),
        666u16 => Some(('P', 'M')),
        670u16 => Some(('V', 'C')),
        674u16 => Some(('S', 'M')),
        678u16 => Some(('S', 'T')),
        682u16 => Some(('S', 'A')),
        686u16 => Some(('S', 'N')),
        688u16 => Some(('R', 'S')),
        690u16 => Some(('S', 'C')),
        694u16 => Some(('S', 'L')),
        702u16 => Some(('S', 'G')),
        703u16 => Some(('S', 'K')),
        704u16 => Some(('V', 'N')),
        705u16 => Some(('S', 'I')),
        706u16 => Some(('S', 'O')),
        710u16 => Some(('Z', 'A')),
        716u16 => Some(('Z', 'W')),
        724u16 => Some(('E', 'S')),
        728u16 => Some(('S', 'S')),
        729u16 => Some(('S', 'D')),
        732u16 => Some(('E', 'H')),
        740u16 => Some(('S', 'R')),
        744u16 => Some(('S', 'J')),
        748u16 => Some(('S', 'Z')),
        752u16 => Some(('S', 'E')),
        756u16 => Some(('C', 'H')),
        760u16 => Some(('S', 'Y')),
        762u16 => Some(('T', 'J')),
        764u16 => Some(('T', 'H')),
        768u16 => Some(('T', 'G')),
        772u16 => Some(('T', 'K')),
        776u16 => Some(('T', 'O')),
        780u16 => Some(('T', 'T')),
        784u16 => Some(('A', 'E')),
        788u16 => Some(('T', 'N')),
        792u16 => Some(('T', 'R')),
        795u16 => Some(('T', 'M')),
        796u16 => Some(('T', 'C')),
        798u16 => Some(('T', 'V')),
        800u16 => Some(('U', 'G')),
        804u16 => Some(('U', 'A')),
        807u16 => Some(('M', 'K')),
        818u16 => Some(('E', 'G')),
        826u16 => Some(('G', 'B')),
        831u16 => Some(('G', 'G')),
        832u16 => Some(('J', 'E')),
        833u16 => Some(('I', 'M')),
        834u16 => Some(('T', 'Z')),
        840u16 => Some(('U', 'S')),
        850u16 => Some(('V', 'I')),
        854u16 => Some(('B', 'F')),
        858u16 => Some(('U', 'Y')),
        860u16 => Some(('U', 'Z')),
        862u16 => Some(('V', 'E')),
        876u16 => Some(('W', 'F')),
        882u16 => Some(('W', 'S')),
        887u16 => Some(('Y', 'E')),
        894u16 => Some(('Z', 'M')),
        895u16 => Some(('A', 'B')),
        896u16 => Some(('O', 'S')),
        _ => None,
    }
}

/// Each two-letter code has the numeric code that OKSM gives its country: looking
/// that numeric code up in the classifier gives back the two letters. So no two
/// countries share a numeric code.
#[verifier::rlimit(100)]
pub proof fn lemma_country_code_is_oksm(first: char, second: char)
    ensures
        country_code_of(first, second) matches Some(code) ==> oksm_letters(code) == Some((first, second)),
{
}

/// Two-letter codes with the same numeric code are the same.
pub proof fn lemma_country_codes_distinct(first: char, second: char, other_first: char, other_second: char)
    requires
        country_code_of(first, second) is Some,
        country_code_of(first, second) == country_code_of(other_first, other_second),
    ensures
        first == other_first && second == other_second,
{
    lemma_country_code_is_oksm(first, second);
    lemma_country_code_is_oksm(other_first, other_second);
}

/// The numeric code of a country by its two-letter code.
pub open spec fn country_code(country: Seq<char>) -> Option<u16> {
    if country.len() == 2 {
        country_code_of(country[0], country[1])
    } else {
        None
    }
}

fn code_of_letters(first: char, second: char) -> (r: Option<u16>)
    ensures
        r == country_code_of(first, second),
{
    match (first, second) {
        ('A', 'B') => Some(895u16),
        ('A', 'U') => Some(36u16),
        ('A', 'T') => Some(40u16),
        ('A', 'Z') => Some(31u16),
        ('A', 'L') => Some(8u16),
        ('D', 'Z') => Some(12u16),
        ('A', 'S') => Some(16u16),
        ('A', 'I') => Some(660u16),
        ('A', 'O') => Some(24u16),
        ('A', 'D') => Some(20u16),
        ('A', 'Q') => Some(10u16),
        ('A', 'G') => Some(28u16),
        ('A', 'R') => Some(32u16),
        ('A', 'M') => Some(51u16),
        ('A', 'W') => Some(533u16),
        ('A', 'F') => Some(4u16),
        ('B', 'S') => Some(44u16),
        ('B', 'D') => Some(50u16),
        ('B', 'B') => Some(52u16),
        ('B', 'H') => Some(48u16),
        ('B', 'Y') => Some(112u16),
        ('B', 'Z') => Some(84u16),
        ('B', 'E') => Some(56u16),
        ('B', 'J') => Some(204u16),
        ('B', 'M') => Some(60u16),
        ('B', 'G') => Some(100u16),
        ('B', 'O') => Some(68u16),
        ('B', 'Q') => Some(535u16),
        ('B', 'A') => Some(70u16),
        ('B', 'W') => Some(72u16),
        ('B', 'R') => Some(76u16),
        ('I', 'O') => Some(86u16),
        ('B', 'N') => Some(96u16),
        ('B', 'F') => Some(854u16),
        ('B', 'I') => Some(108u16),
        ('B', 'T') => Some(64u16),
        ('V', 'U') => Some(548u16),
        ('H', 'U') => Some(348u16),
        ('V', 'E') => Some(862u16),
        ('V', 'G') => Some(92u16),
        ('V', 'I') => Some(850u16),
        ('V', 'N') => Some(704u16),
        ('G', 'A') => Some(266u16),
        ('H', 'T') => Some(332u16),
        ('G', 'Y') => Some(328u16),
        ('G', 'M') => Some(270u16),
        ('G', 'H') => Some(288u16),
        ('G', 'P') => Some(312u16),
        ('G', 'T') => Some(320u16),
        ('G', 'N') => Some(324u16),
        ('G', 'W') => Some(624u16),
        ('D', 'E') => Some(276u16),
        ('G', 'G') => Some(831u16),
        ('G', 'I') => Some(292u16),
        ('H', 'N') => Some(340u16),
        ('H', 'K') => Some(344u16),
        ('G', 'D') => Some(308u16),
        ('G', 'L') => Some(304u16),
        ('G', 'R') => Some(300u16),
        ('G', 'E') => Some(268u16),
        ('G', 'U') => Some(316u16),
        ('D', 'K') => Some(208u16),
        ('J', 'E') => Some(832u16),
        ('D', 'J') => Some(262u16),
        ('D', 'M') => Some(212u16),
        ('D', 'O') => Some(214u16),
        ('E', 'G') => Some(818u16),
        ('Z', 'M') => Some(894u16),
        ('E', 'H') => Some(732u16),
        ('Z', 'W') => Some(716u16),
        ('I', 'L') => Some(376u16),
        ('I', 'N') => Some(356u16),
        ('I', 'D') => Some(360u16),
        ('J', 'O') => Some(400u16),
        ('I', 'Q') => Some(368u16),
        ('I', 'R') => Some(364u16),
        ('I', 'E') => Some(372u16),
        ('I', 'S') => Some(352u16),
        ('E', 'S') => Some(724u16),
        ('I', 'T') => Some(380u16),
        ('Y', 'E') => Some(887u16),
        ('C', 'V') => Some(132u16),
        ('K', 'Z') => Some(398u16),
        ('K', 'H') => Some(116u16),
        ('C', 'M') => Some(120u16),
        ('C', 'A') => Some(124u16),
        ('Q', 'A') => Some(634u16),
        ('K', 'E') => Some(404u16),
        ('C', 'Y') => Some(196u16),
        ('K', 'G') => Some(417u16),
        ('K', 'I') => Some(296u16),
        ('C', 'N') => Some(156u16),
        ('C', 'C') => Some(166u16),
        ('C', 'O') => Some(170u16),
        ('K', 'M') => Some(174u16),
        ('C', 'G') => Some(178u16),
        ('C', 'D') => Some(180u16),
        ('K', 'P') => Some(408u16),
        ('K', 'R') => Some(410u16),
        ('C', 'R') => Some(188u16),
        ('C', 'I') => Some(384u16),
        ('C', 'U') => Some(192u16),
        ('K', 'W') => Some(414u16),
        ('C', 'W') => Some(531u16),
        ('L', 'A') => Some(418u16),
        ('L', 'V') => Some(428u16),
        ('L', 'S') => Some(426u16),
        ('L', 'R') => Some(430u16),
        ('L', 'B') => Some(422u16),
        ('L', 'Y') => Some(434u16),
        ('L', 'T') => Some(440u16),
        ('L', 'I') => Some(438u16),
        ('L', 'U') => Some(442u16),
        ('M', 'U') => Some(480u16),
        ('M', 'R') => Some(478u16),
        ('M', 'G') => Some(450u16),
        ('Y', 'T') => Some(175u16),
        ('M', 'O') => Some(446u16),
        ('M', 'W') => Some(454u16),
        ('M', 'Y') => Some(458u16),
        ('M', 'L') => Some(466u16),
        ('U', 'M') => Some(581u16),
        ('M', 'V') => Some(462u16),
        ('M', 'T') => Some(470u16),
        ('M', 'A') => Some(504u16),
        ('M', 'Q') => Some(474u16),
        ('M', 'H') => Some(584u16),
        ('M', 'X') => Some(484u16),
        ('F', 'M') => Some(583u16),
        ('M', 'Z') => Some(508u16),
        ('M', 'D') => Some(498u16),
        ('M', 'C') => Some(492u16),
        ('M', 'N') => Some(496u16),
        ('M', 'S') => Some(500u16),
        ('M', 'M') => Some(104u16),
        ('N', 'A') => Some(516u16),
        ('N', 'R') => Some(520u16),
        ('N', 'P') => Some(524u16),
        ('N', 'E') => Some(562u16),
        ('N', 'G') => Some(566u16),
        ('N', 'L') => Some(528u16),
        ('N', 'I') => Some(558u16),
        ('N', 'U') => Some(570u16),
        ('N', 'Z') => Some(554u16),
        ('N', 'C') => Some(540u16),
        ('N', 'O') => Some(578u16),
        ('A', 'E') => Some(784u16),
        ('O', 'M') => Some(512u16),
        ('K', 'Y') => Some(136u16),
        ('C', 'K') => Some(184u16),
        ('T', 'C') => Some(796u16),
        ('B', 'V') => Some(74u16),
        ('I', 'M') => Some(833u16),
        ('N', 'F') => Some(574u16),
        ('C', 'X') => Some(162u16),
        ('H', 'M') => Some(334u16),
        ('P', 'K') => Some(586u16),
        ('P', 'W') => Some(585u16),
        ('P', 'S') => Some(275u16),
        ('P', 'A') => Some(591u16),
        ('V', 'A') => Some(336u16),
        ('P', 'G') => Some(598u16),
        ('P', 'Y') => Some(600u16),
        ('P', 'E') => Some(604u16),
        ('P', 'N') => Some(612u16),
        ('P', 'L') => Some(616u16),
        ('P', 'T') => Some(620u16),
        ('P', 'R') => Some(630u16),
        ('R', 'E') => Some(638u16),
        ('R', 'U') => Some(643u16),
        ('R', 'W') => Some(646u16),
        ('R', 'O') => Some(642u16),
        ('W', 'S') => Some(882u16),
        ('S', 'M') => Some(674u16),
        ('S', 'T') => Some(678u16),
        ('S', 'A') => Some(682u16),
        ('S', 'H') => Some(654u16),
        ('M', 'K') => Some(807u16),
        ('M', 'P') => Some(580u16),
        ('S', 'C') => Some(690u16),
        ('B', 'L') => Some(652u16),
        ('M', 'F') => Some(663u16),
        ('S', 'X') => Some(534u16),
        ('S', 'N') => Some(686u16),
        ('V', 'C') => Some(670u16),
        ('K', 'N') => Some(659u16),
        ('L', 'C') => Some(662u16),
        ('P', 'M') => Some(666u16),
        ('R', 'S') => Some(688u16),
        ('S', 'G') => Some(702u16),
        ('S', 'Y') => Some(760u16),
        ('S', 'K') => Some(703u16),
        ('S', 'I') => Some(705u16),
        ('G', 'B') => Some(826u16),
        ('U', 'S') => Some(840u16),
        ('S', 'B') => Some(90u16),
        ('S', 'O') => Some(706u16),
        ('S', 'D') => Some(729u16),
        ('S', 'R') => Some(740u16),
        ('S', 'L') => Some(694u16),
        ('T', 'J') => Some(762u16),
        ('T', 'H') => Some(764u16),
        ('T', 'W') => Some(158u16),
        ('T', 'Z') => Some(834u16),
        ('T', 'L') => Some(626u16),
        ('T', 'G') => Some(768u16),
        ('T', 'K') => Some(772u16),
        ('T', 'O') => Some(776u16),
        ('T', 'T') => Some(780u16),
        ('T', 'V') => Some(798u16),
        ('T', 'N') => Some(788u16),
        ('T', 'M') => Some(795u16),
        ('T', 'R') => Some(792u16),
        ('U', 'G') => Some(800u16),
        ('U', 'Z') => Some(860u16),
        ('U', 'A') => Some(804u16),
        ('W', 'F') => Some(876u16),
        ('U', 'Y') => Some(858u16),
        ('F', 'O') => Some(234u16),
        ('F', 'J') => Some(242u16),
        ('P', 'H') => Some(608u16),
        ('F', 'I') => Some(246u16),
        ('F', 'K') => Some(238u16),
        ('F', 'R') => Some(250u16),
        ('G', 'F') => Some(254u16),
        ('P', 'F') => Some(258u16),
        ('T', 'F') => Some(260u16),
        ('H', 'R') => Some(191u16),
        ('C', 'F') => Some(140u16),
        ('T', 'D') => Some(148u16),
        ('M', 'E') => Some(499u16),
        ('C', 'Z') => Some(203u16),
        ('C', 'L') => Some(152u16),
        ('C', 'H') => Some(756u16),
        ('S', 'E') => Some(752u16),
        ('S', 'J') => Some(744u16),
        ('L', 'K') => Some(144u16),
        ('E', 'C') => Some(218u16),
        ('G', 'Q') => Some(226u16),
        ('A', 'X') => Some(248u16),
        ('S', 'V') => Some(222u16),
        ('E', 'R') => Some(232u16),
        ('S', 'Z') => Some(748u16),
        ('E', 'E') => Some(233u16),
        ('E', 'T') => Some(231u16),
        ('Z', 'A') => Some(710u16),
        ('G', 'S') => Some(239u16),
        ('O', 'S') => Some(896u16),
        ('S', 'S') => Some(728u16),
        ('J', 'M') => Some(388u16),
        ('J', 'P') => Some(392u16),
        _ => None,
    }
}

/// The numeric code of a country by its two-letter code.
pub fn get_code(country: &str) -> (r: Result<u16, Error>)
    ensures
        match country_code(country@) {
            Some(code) => r == Ok::<u16, Error>(code),
            None => r matches Err(Error::UnknownCountry(name)) && name@ == country@,
        },
{
    let code = if country.unicode_len() == 2 {
        code_of_letters(country.get_char(0), country.get_char(1))
    } else {
        None
    };
    match code {
        Some(code) => Ok(code),
        None => Err(Error::UnknownCountry(country.to_owned())),
    }
}

/// The country of a tax statement record.
#[derive(Debug, Clone, Copy, PartialEq, Eq, Structural)]
pub enum CountryCode {
    Russia,
    Usa,
    Other(Integer),
}

/// Russia's code.
pub const RUSSIA_CODE: Integer = 643;

/// The code of the USA.
pub const USA_CODE: Integer = 840;

/// The country with the given numeric code.
pub open spec fn country_of_code(code: Integer) -> CountryCode {
    if code == RUSSIA_CODE {
        CountryCode::Russia
    } else if code == USA_CODE {
        CountryCode::Usa
    } else {
        CountryCode::Other(code)
    }
}

/// The numeric code of a country.
pub open spec fn code_of_country(country: CountryCode) -> Integer {
    match country {
        CountryCode::Russia => RUSSIA_CODE,
        CountryCode::Usa => USA_CODE,
        CountryCode::Other(code) => code,
    }
}

/// A country written as its numeric code.
pub open spec fn canonical_country(country: CountryCode) -> CountryCode {
    country_of_code(code_of_country(country))
}

impl CountryCode {
    /// The country with the given two-letter code.
    pub fn new(country: &str) -> (r: Result<CountryCode, Error>)
        ensures
            match country_code(country@) {
                Some(code) => r == Ok::<CountryCode, Error>(country_of_code(code as Integer)),
                None => r matches Err(Error::UnknownCountry(name)) && name@ == country@,
            },
    {
        let code = get_code(country)?;
        Ok(CountryCode::from_code(code as Integer))
    }

    /// The country with the given numeric code.
    pub fn from_code(code: Integer) -> (r: CountryCode)
        ensures
            r == country_of_code(code),
    {
        if code == RUSSIA_CODE {
            CountryCode::Russia
        } else if code == USA_CODE {
            CountryCode::Usa
        } else {
            CountryCode::Other(code)
        }
    }

    /// The numeric code of the country.
    pub fn to_code(self) -> (r: Integer)
        ensures
            r == code_of_country(self),
    {
        match self {
            CountryCode::Russia => RUSSIA_CODE,
            CountryCode::Usa => USA_CODE,
            CountryCode::Other(code) => code,
        }
    }
}

impl TaxStatementType for CountryCode {
    /// The country of the numeric code in `data`.
    fn read(data: &str) -> (r: Result<CountryCode, Error>)
        ensures
            natural_text_usize(data@) matches Some(code) ==> r == Ok::<CountryCode, Error>(country_of_code(code)),
            natural_text_usize(data@) is None ==> invalid_value(r, data@),
    {
        let code = <Integer as TaxStatementPrimitiveType>::decode(data)?;
        Ok(CountryCode::from_code(code))
    }

    /// Appends the numeric code of the country to `buffer`.
    fn write(&self, buffer: &mut String) -> (r: Result<(), Error>)
        ensures
            r is Ok,
            final(buffer)@ == old(buffer)@ + decimal_text(code_of_country(*self) as nat),
    {
        self.to_code().encode(buffer)
    }
}

/// A numeric code names the country that has it.
pub proof fn lemma_code_of_country_of_code(code: Integer)
    ensures
        code_of_country(country_of_code(code)) == code,
{
}

/// Reading back a written country gives the country, where it is written in its
/// canonical form (not as `Other` with the code of Russia or the USA).
pub proof fn lemma_country_write_read(country: CountryCode)
    ensures
        natural_text_usize(decimal_text(code_of_country(country) as nat)) == Some(code_of_country(country)),
        country_of_code(code_of_country(country)) == canonical_country(country),
        country != CountryCode::Other(RUSSIA_CODE) && country != CountryCode::Other(USA_CODE)
            ==> canonical_country(country) == country,
{
    lemma_natural_text_roundtrip(code_of_country(country) as nat);
}

} // verus!

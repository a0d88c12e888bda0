//! Code page 437, the IBM PC character set of classic roguelike tilesets.
use vstd::prelude::*;

verus! {

/// The character that code page 437 shows for `code`.
pub open spec fn cp437_spec(code: u8) -> char {
    match code {
        0u8 => '\0',
        1u8 => '☺',
        2u8 => '☻',
        3u8 => '♥',
        4u8 => '♦',
        5u8 => '♣',
        6u8 => '♠',
        7u8 => '•',
        8u8 => '◘',
        9u8 => '○',
        10u8 => '◙',
        11u8 => '♂',
        12u8 => '♀',
        13u8 => '♪',
        14u8 => '♫',
        15u8 => '☼',
        16u8 => '►',
        17u8 => '◄',
        18u8 => '↕',
        19u8 => '‼',
        20u8 => '¶',
        21u8 => '§',
        22u8 => '▬',
        23u8 => '↨',
        24u8 => '↑',
        25u8 => '↓',
        26u8 => '→',
        27u8 => '←',
        28u8 => '∟',
        29u8 => '↔',
        30u8 => '▲',
        31u8 => '▼',
        32u8 => ' ',
        33u8 => '!',
        34u8 => '"',
        35u8 => '#',
        36u8 => '$',
        37u8 => '%',
        38u8 => '&',
        39u8 => '\'',
        40u8 => '(',
        41u8 => ')',
        42u8 => '*',
        43u8 => '+',
        44u8 => ',',
        45u8 => '-',
        46u8 => '.',
        47u8 => '/',
        48u8 => '0',
        49u8 => '1',
        50u8 => '2',
        51u8 => '3',
        52u8 => '4',
        53u8 => '5',
        54u8 => '6',
        55u8 => '7',
        56u8 => '8',
        57u8 => '9',
        58u8 => ':',
        59u8 => ';',
        60u8 => '<',
        61u8 => '=',
        62u8 => '>',
        63u8 => '?',
        64u8 => '@',
        65u8 => 'A',
        66u8 => 'B',
        67u8 => 'C',
        68u8 => 'D',
        69u8 => 'E',
        70u8 => 'F',
        71u8 => 'G',
        72u8 => 'H',
        73u8 => 'I',
        74u8 => 'J',
        75u8 => 'K',
        76u8 => 'L',
        77u8 => 'M',
        78u8 => 'N',
        79u8 => 'O',
        80u8 => 'P',
        81u8 => 'Q',
        82u8 => 'R',
        83u8 => 'S',
        84u8 => 'T',
        85u8 => 'U',
        86u8 => 'V',
        87u8 => 'W',
        88u8 => 'X',
        89u8 => 'Y',
        90u8 => 'Z',
        91u8 => '[',
        92u8 => '\\',
        93u8 => ']',
        94u8 => '^',
        95u8 => '_',
        96u8 => '`',
        97u8 => 'a',
        98u8 => 'b',
        99u8 => 'c',
        100u8 => 'd',
        101u8 => 'e',
        102u8 => 'f',
        103u8 => 'g',
        104u8 => 'h',
        105u8 => 'i',
        106u8 => 'j',
        107u8 => 'k',
        108u8 => 'l',
        109u8 => 'm',
        110u8 => 'n',
        111u8 => 'o',
        112u8 => 'p',
        113u8 => 'q',
        114u8 => 'r',
        115u8 => 's',
        116u8 => 't',
        117u8 => 'u',
        118u8 => 'v',
        119u8 => 'w',
        120u8 => 'x',
        121u8 => 'y',
        122u8 => 'z',
        123u8 => '{',
        124u8 => '|',
        125u8 => '}',
        126u8 => '~',
        127u8 => '⌂',
        128u8 => 'Ç',
        129u8 => 'ü',
        130u8 => 'é',
        131u8 => 'â',
        132u8 => 'ä',
        133u8 => 'à',
        134u8 => 'å',
        135u8 => 'ç',
        136u8 => 'ê',
        137u8 => 'ë',
        138u8 => 'è',
        139u8 => 'ï',
        140u8 => 'î',
        141u8 => 'ì',
        142u8 => 'Ä',
        143u8 => 'Å',
        144u8 => 'É',
        145u8 => 'æ',
        146u8 => 'Æ',
        147u8 => 'ô',
        148u8 => 'ö',
        149u8 => 'ò',
        150u8 => 'û',
        151u8 => 'ù',
        152u8 => 'ÿ',
        153u8 => 'Ö',
        154u8 => 'Ü',
        155u8 => '¢',
        156u8 => '£',
        157u8 => '¥',
        158u8 => '₧',
        159u8 => 'ƒ',
        160u8 => 'á',
        161u8 => 'í',
        162u8 => 'ó',
        163u8 => 'ú',
        164u8 => 'ñ',
        165u8 => 'Ñ',
        166u8 => 'ª',
        167u8 => 'º',
        168u8 => '¿',
        169u8 => '⌐',
        170u8 => '¬',
        171u8 => '½',
        172u8 => '¼',
        173u8 => '¡',
        174u8 => '«',
        175u8 => '»',
        176u8 => '░',
        177u8 => '▒',
        178u8 => '▓',
        179u8 => '│',
        180u8 => '┤',
        181u8 => '╡',
        182u8 => '╢',
        183u8 => '╖',
        184u8 => '╕',
        185u8 => '╣',
        186u8 => '║',
        187u8 => '╗',
        188u8 => '╝',
        189u8 => '╜',
        190u8 => '╛',
        191u8 => '┐',
        192u8 => '└',
        193u8 => '┴',
        194u8 => '┬',
        195u8 => '├',
        196u8 => '─',
        197u8 => '┼',
        198u8 => '╞',
        199u8 => '╟',
        200u8 => '╚',
        201u8 => '╔',
        202u8 => '╩',
        203u8 => '╦',
        204u8 => '╠',
        205u8 => '═',
        206u8 => '╬',
        207u8 => '╧',
        208u8 => '╨',
        209u8 => '╤',
        210u8 => '╥',
        211u8 => '╙',
        212u8 => '╘',
        213u8 => '╒',
        214u8 => '╓',
        215u8 => '╫',
        216u8 => '╪',
        217u8 => '┘',
        218u8 => '┌',
        219u8 => '█',
        220u8 => '▄',
        221u8 => '▌',
        222u8 => '▐',
        223u8 => '▀',
        224u8 => 'α',
        225u8 => 'ß',
        226u8 => 'Γ',
        227u8 => 'π',
        228u8 => 'Σ',
        229u8 => 'σ',
        230u8 => 'µ',
        231u8 => 'τ',
        232u8 => 'Φ',
        233u8 => 'Θ',
        234u8 => 'Ω',
        235u8 => 'δ',
        236u8 => '∞',
        237u8 => 'φ',
        238u8 => 'ε',
        239u8 => '∩',
        240u8 => '≡',
        241u8 => '±',
        242u8 => '≥',
        243u8 => '≤',
        244u8 => '⌠',
        245u8 => '⌡',
        246u8 => '÷',
        247u8 => '≈',
        248u8 => '°',
        249u8 => '∙',
        250u8 => '·',
        251u8 => '√',
        252u8 => 'ⁿ',
        253u8 => '²',
        254u8 => '■',
        _ => ' ',
    }
}

/// The character that code page 437 shows for `code`.
pub fn cp437_to_char(code: u8) -> (c: char)
    ensures
        c == cp437_spec(code),
{
    match code {
        0u8 => '\0',
        1u8 => '☺',
        2u8 => '☻',
        3u8 => '♥',
        4u8 => '♦',
        5u8 => '♣',
        6u8 => '♠',
        7u8 => '•',
        8u8 => '◘',
        9u8 => '○',
        10u8 => '◙',
        11u8 => '♂',
        12u8 => '♀',
        13u8 => '♪',
        14u8 => '♫',
        15u8 => '☼',
        16u8 => '►',
        17u8 => '◄',
        18u8 => '↕',
        19u8 => '‼',
        20u8 => '¶',
        21u8 => '§',
        22u8 => '▬',
        23u8 => '↨',
        24u8 => '↑',
        25u8 => '↓',
        26u8 => '→',
        27u8 => '←',
        28u8 => '∟',
        29u8 => '↔',
        30u8 => '▲',
        31u8 => '▼',
        32u8 => ' ',
        33u8 => '!',
        34u8 => '"',
        35u8 => '#',
        36u8 => '$',
        37u8 => '%',
        38u8 => '&',
        39u8 => '\'',
        40u8 => '(',
        41u8 => ')',
        42u8 => '*',
        43u8 => '+',
        44u8 => ',',
        45u8 => '-',
        46u8 => '.',
        47u8 => '/',
        48u8 => '0',
        49u8 => '1',
        50u8 => '2',
        51u8 => '3',
        52u8 => '4',
        53u8 => '5',
        54u8 => '6',
        55u8 => '7',
        56u8 => '8',
        57u8 => '9',
        58u8 => ':',
        59u8 => ';',
        60u8 => '<',
        61u8 => '=',
        62u8 => '>',
        63u8 => '?',
        64u8 => '@',
        65u8 => 'A',
        66u8 => 'B',
        67u8 => 'C',
        68u8 => 'D',
        69u8 => 'E',
        70u8 => 'F',
        71u8 => 'G',
        72u8 => 'H',
        73u8 => 'I',
        74u8 => 'J',
        75u8 => 'K',
        76u8 => 'L',
        77u8 => 'M',
        78u8 => 'N',
        79u8 => 'O',
        80u8 => 'P',
        81u8 => 'Q',
        82u8 => 'R',
        83u8 => 'S',
        84u8 => 'T',
        85u8 => 'U',
        86u8 => 'V',
        87u8 => 'W',
        88u8 => 'X',
        89u8 => 'Y',
        90u8 => 'Z',
        91u8 => '[',
        92u8 => '\\',
        93u8 => ']',
        94u8 => '^',
        95u8 => '_',
        96u8 => '`',
        97u8 => 'a',
        98u8 => 'b',
        99u8 => 'c',
        100u8 => 'd',
        101u8 => 'e',
        102u8 => 'f',
        103u8 => 'g',
        104u8 => 'h',
        105u8 => 'i',
        106u8 => 'j',
        107u8 => 'k',
        108u8 => 'l',
        109u8 => 'm',
        110u8 => 'n',
        111u8 => 'o',
        112u8 => 'p',
        113u8 => 'q',
        114u8 => 'r',
        115u8 => 's',
        116u8 => 't',
        117u8 => 'u',
        118u8 => 'v',
        119u8 => 'w',
        120u8 => 'x',
        121u8 => 'y',
        122u8 => 'z',
        123u8 => '{',
        124u8 => '|',
        125u8 => '}',
        126u8 => '~',
        127u8 => '⌂',
        128u8 => 'Ç',
        129u8 => 'ü',
        130u8 => 'é',
        131u8 => 'â',
        132u8 => 'ä',
        133u8 => 'à',
        134u8 => 'å',
        135u8 => 'ç',
        136u8 => 'ê',
        137u8 => 'ë',
        138u8 => 'è',
        139u8 => 'ï',
        140u8 => 'î',
        141u8 => 'ì',
        142u8 => 'Ä',
        143u8 => 'Å',
        144u8 => 'É',
        145u8 => 'æ',
        146u8 => 'Æ',
        147u8 => 'ô',
        148u8 => 'ö',
        149u8 => 'ò',
        150u8 => 'û',
        151u8 => 'ù',
        152u8 => 'ÿ',
        153u8 => 'Ö',
        154u8 => 'Ü',
        155u8 => '¢',
        156u8 => '£',
        157u8 => '¥',
        158u8 => '₧',
        159u8 => 'ƒ',
        160u8 => 'á',
        161u8 => 'í',
        162u8 => 'ó',
        163u8 => 'ú',
        164u8 => 'ñ',
        165u8 => 'Ñ',
        166u8 => 'ª',
        167u8 => 'º',
        168u8 => '¿',
        169u8 => '⌐',
        170u8 => '¬',
        171u8 => '½',
        172u8 => '¼',
        173u8 => '¡',
        174u8 => '«',
        175u8 => '»',
        176u8 => '░',
        177u8 => '▒',
        178u8 => '▓',
        179u8 => '│',
        180u8 => '┤',
        181u8 => '╡',
        182u8 => '╢',
        183u8 => '╖',
        184u8 => '╕',
        185u8 => '╣',
        186u8 => '║',
        187u8 => '╗',
        188u8 => '╝',
        189u8 => '╜',
        190u8 => '╛',
        191u8 => '┐',
        192u8 => '└',
        193u8 => '┴',
        194u8 => '┬',
        195u8 => '├',
        196u8 => '─',
        197u8 => '┼',
        198u8 => '╞',
        199u8 => '╟',
        200u8 => '╚',
        201u8 => '╔',
        202u8 => '╩',
        203u8 => '╦',
        204u8 => '╠',
        205u8 => '═',
        206u8 => '╬',
        207u8 => '╧',
        208u8 => '╨',
        209u8 => '╤',
        210u8 => '╥',
        211u8 => '╙',
        212u8 => '╘',
        213u8 => '╒',
        214u8 => '╓',
        215u8 => '╫',
        216u8 => '╪',
        217u8 => '┘',
        218u8 => '┌',
        219u8 => '█',
        220u8 => '▄',
        221u8 => '▌',
        222u8 => '▐',
        223u8 => '▀',
        224u8 => 'α',
        225u8 => 'ß',
        226u8 => 'Γ',
        227u8 => 'π',
        228u8 => 'Σ',
        229u8 => 'σ',
        230u8 => 'µ',
        231u8 => 'τ',
        232u8 => 'Φ',
        233u8 => 'Θ',
        234u8 => 'Ω',
        235u8 => 'δ',
        236u8 => '∞',
        237u8 => 'φ',
        238u8 => 'ε',
        239u8 => '∩',
        240u8 => '≡',
        241u8 => '±',
        242u8 => '≥',
        243u8 => '≤',
        244u8 => '⌠',
        245u8 => '⌡',
        246u8 => '÷',
        247u8 => '≈',
        248u8 => '°',
        249u8 => '∙',
        250u8 => '·',
        251u8 => '√',
        252u8 => 'ⁿ',
        253u8 => '²',
        254u8 => '■',
        _ => ' ',
    }
}

/// The characters outside printable ASCII that have a code: those of codes 0 to 31
/// and 176 to 254.
pub open spec fn listed_spec(c: char) -> bool {
    c == '\0' || c == '☺' || c == '☻' || c == '♥' || c == '♦' || c == '♣' || c == '♠' || c == '•' || c == '◘' || c == '○' || c == '◙' || c == '♂' || c == '♀' || c == '♪' || c == '♫' || c == '☼' || c == '►' || c == '◄' || c == '↕' || c == '‼' || c == '¶' || c == '§' || c == '▬' || c == '↨' || c == '↑' || c == '↓' || c == '→' || c == '←' || c == '∟' || c == '↔' || c == '▲' || c == '▼' || c == '░' || c == '▒' || c == '▓' || c == '│' || c == '┤' || c == '╡' || c == '╢' || c == '╖' || c == '╕' || c == '╣' || c == '║' || c == '╗' || c == '╝' || c == '╜' || c == '╛' || c == '┐' || c == '└' || c == '┴' || c == '┬' || c == '├' || c == '─' || c == '┼' || c == '╞' || c == '╟' || c == '╚' || c == '╔' || c == '╩' || c == '╦' || c == '╠' || c == '═' || c == '╬' || c == '╧' || c == '╨' || c == '╤' || c == '╥' || c == '╙' || c == '╘' || c == '╒' || c == '╓' || c == '╫' || c == '╪' || c == '┘' || c == '┌' || c == '█' || c == '▄' || c == '▌' || c == '▐' || c == '▀' || c == 'α' || c == 'ß' || c == 'Γ' || c == 'π' || c == 'Σ' || c == 'σ' || c == 'µ' || c == 'τ' || c == 'Φ' || c == 'Θ' || c == 'Ω' || c == 'δ' || c == '∞' || c == 'φ' || c == 'ε' || c == '∩' || c == '≡' || c == '±' || c == '≥' || c == '≤' || c == '⌠' || c == '⌡' || c == '÷' || c == '≈' || c == '°' || c == '∙' || c == '·' || c == '√' || c == 'ⁿ' || c == '²' || c == '■'
}

/// The code page 437 code of `c`: printable ASCII maps to itself, and the characters
/// of codes 0 to 31 and 176 to 254 (symbols, box drawing, blocks, Greek and
/// mathematics) to their code; `None` for every other character, the accented
/// letters of codes 127 to 175 included. Whatever code comes back shows `c` again.
pub fn char_to_cp437(c: char) -> (r: Option<u8>)
    ensures
        r matches Some(code) ==> cp437_spec(code) == c,
        r matches Some(code) ==> (code < 32 || 176 <= code <= 254 || code == c as u32),
        0x20 <= c as u32 <= 0x7E ==> r == Some(c as u8),
        r is None <==> (!(0x20 <= c as u32 <= 0x7E) && !listed_spec(c)),
{
    if c as u32 >= 0x20 && c as u32 <= 0x7E {
        return Some(c as u8);
    }
    match c {
        '\0' => Some(0),
        '☺' => Some(1),
        '☻' => Some(2),
        '♥' => Some(3),
        '♦' => Some(4),
        '♣' => Some(5),
        '♠' => Some(6),
        '•' => Some(7),
        '◘' => Some(8),
        '○' => Some(9),
        '◙' => Some(10),
        '♂' => Some(11),
        '♀' => Some(12),
        '♪' => Some(13),
        '♫' => Some(14),
        '☼' => Some(15),
        '►' => Some(16),
        '◄' => Some(17),
        '↕' => Some(18),
        '‼' => Some(19),
        '¶' => Some(20),
        '§' => Some(21),
        '▬' => Some(22),
        '↨' => Some(23),
        '↑' => Some(24),
        '↓' => Some(25),
        '→' => Some(26),
        '←' => Some(27),
        '∟' => Some(28),
        '↔' => Some(29),
        '▲' => Some(30),
        '▼' => Some(31),
        '░' => Some(176),
        '▒' => Some(177),
        '▓' => Some(178),
        '│' => Some(179),
        '┤' => Some(180),
        '╡' => Some(181),
        '╢' => Some(182),
        '╖' => Some(183),
        '╕' => Some(184),
        '╣' => Some(185),
        '║' => Some(186),
        '╗' => Some(187),
        '╝' => Some(188),
        '╜' => Some(189),
        '╛' => Some(190),
        '┐' => Some(191),
        '└' => Some(192),
        '┴' => Some(193),
        '┬' => Some(194),
        '├' => Some(195),
        '─' => Some(196),
        '┼' => Some(197),
        '╞' => Some(198),
        '╟' => Some(199),
        '╚' => Some(200),
        '╔' => Some(201),
        '╩' => Some(202),
        '╦' => Some(203),
        '╠' => Some(204),
        '═' => Some(205),
        '╬' => Some(206),
        '╧' => Some(207),
        '╨' => Some(208),
        '╤' => Some(209),
        '╥' => Some(210),
        '╙' => Some(211),
        '╘' => Some(212),
        '╒' => Some(213),
        '╓' => Some(214),
        '╫' => Some(215),
        '╪' => Some(216),
        '┘' => Some(217),
        '┌' => Some(218),
        '█' => Some(219),
        '▄' => Some(220),
        '▌' => Some(221),
        '▐' => Some(222),
        '▀' => Some(223),
        'α' => Some(224),
        'ß' => Some(225),
        'Γ' => Some(226),
        'π' => Some(227),
        'Σ' => Some(228),
        'σ' => Some(229),
        'µ' => Some(230),
        'τ' => Some(231),
        'Φ' => Some(232),
        'Θ' => Some(233),
        'Ω' => Some(234),
        'δ' => Some(235),
        '∞' => Some(236),
        'φ' => Some(237),
        'ε' => Some(238),
        '∩' => Some(239),
        '≡' => Some(240),
        '±' => Some(241),
        '≥' => Some(242),
        '≤' => Some(243),
        '⌠' => Some(244),
        '⌡' => Some(245),
        '÷' => Some(246),
        '≈' => Some(247),
        '°' => Some(248),
        '∙' => Some(249),
        '·' => Some(250),
        '√' => Some(251),
        'ⁿ' => Some(252),
        '²' => Some(253),
        '■' => Some(254),
        _ => None,
    }
}

} // verus!

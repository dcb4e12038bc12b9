//! The table of the 128 seven-bit codes: for each code its mnemonic and description.

use vstd::prelude::*;

verus! {

/// Mnemonic and description of each code, indexed by the code's value.
pub const TABLE: [(&'static str, &'static str); 128] = [
    ("NUL", "Null"),
    ("SOH", "Start of heading"),
    ("STX", "Start of text"),
    ("ETX", "End of text"),
    ("EOT", "End of transmission"),
    ("ENQ", "Enquiry"),
    ("ACK", "Acknowledgement"),
    ("BEL", "Bell"),
    ("BS", "Backspace"),
    ("HT", "Horizontal tab"),
    ("LF", "Line feed"),
    ("VT", "Vertical tab"),
    ("FF", "Form feed"),
    ("CR", "Carriage return"),
    ("SO", "Shift out"),
    ("SI", "Shift in"),
    ("DLE", "Data link escape"),
    ("DC1", "Device control 1"),
    ("DC2", "Device control 2"),
    ("DC3", "Device control 3"),
    ("DC4", "Device control 4"),
    ("NAK", "Negative acknowlegment"),
    ("SYN", "Synchronous idle"),
    ("ETB", "End of transmission block"),
    ("CAN", "Cancel"),
    ("EM", "End of medium"),
    ("SUB", "Substitude"),
    ("ESC", "Escape"),
    ("FS", "File separator"),
    ("GS", "Group separator"),
    ("RS", "Record separator"),
    ("US", "Unit separator"),
    (" ", "Space"),
    ("!", "Exlamation mark"),
    ("\"", "Double quotation mark"),
    ("#", "Number sign"),
    ("$", "Dollar sign"),
    ("%", "Percent sign"),
    ("&", "Ampersand"),
    ("'", "Apostrophe"),
    ("(", "Left parenthesis"),
    (")", "Right parenthesis"),
    ("*", "Asterisk"),
    ("+", "Plus sign"),
    (",", "Comma"),
    ("-", "Hyphen/Minus sign"),
    (".", "Period"),
    ("/", "Solidus"),
    ("0", ""),
    ("1", ""),
    ("2", ""),
    ("3", ""),
    ("4", ""),
    ("5", ""),
    ("6", ""),
    ("7", ""),
    ("8", ""),
    ("9", ""),
    (":", "Colon"),
    (";", "Semicolon"),
    ("<", "Less-than sign"),
    ("=", "Equals sign"),
    (">", "Greater-than sign"),
    ("?", "Question mark"),
    ("@", "At sign"),
    ("A", ""),
    ("B", ""),
    ("C", ""),
    ("D", ""),
    ("E", ""),
    ("F", ""),
    ("G", ""),
    ("H", ""),
    ("I", ""),
    ("J", ""),
    ("K", ""),
    ("L", ""),
    ("M", ""),
    ("N", ""),
    ("O", ""),
    ("P", ""),
    ("Q", ""),
    ("R", ""),
    ("S", ""),
    ("T", ""),
    ("U", ""),
    ("V", ""),
    ("W", ""),
    ("X", ""),
    ("Y", ""),
    ("Z", ""),
    ("[", "Left bracket"),
    ("\\", "Reverse solidus"),
    ("]", "Right bracket"),
    ("^", "Circumflex accent"),
    ("_", "Underscore"),
    ("`", "Grave accent"),
    ("a", ""),
    ("b", ""),
    ("c", ""),
    ("d", ""),
    ("e", ""),
    ("f", ""),
    ("g", ""),
    ("h", ""),
    ("i", ""),
    ("j", ""),
    ("k", ""),
    ("l", ""),
    ("m", ""),
    ("n", ""),
    ("o", ""),
    ("p", ""),
    ("q", ""),
    ("r", ""),
    ("s", ""),
    ("t", ""),
    ("u", ""),
    ("v", ""),
    ("w", ""),
    ("x", ""),
    ("y", ""),
    ("z", ""),
    ("{", "Left brace"),
    ("|", "Verical line"),
    ("}", "Right brace"),
    ("~", "Tilde"),
    ("DEL", "Delete"),
];

/// Mnemonic of code `i`, as a sequence of characters.
pub open spec fn mnemonic(i: int) -> Seq<char>
    recommends
        0 <= i < 128,
{
    TABLE[i].0@
}

/// Description of code `i`, as a sequence of characters.
pub open spec fn description(i: int) -> Seq<char>
    recommends
        0 <= i < 128,
{
    TABLE[i].1@
}

/// No mnemonic of the table is empty, and none is longer than three characters. The
/// mnemonic of a code from 32 to 126 is the one character that the code stands for.
pub proof fn lemma_mnemonic(i: int)
    requires
        0 <= i < 128,
    ensures
        1 <= mnemonic(i).len() <= 3,
        32 <= i < 127 ==> mnemonic(i) == seq![i as u8 as char],
{
    if i == 0 {
        reveal_strlit("NUL");
        assert(TABLE[0].0@.len() == 3);
    } else if i == 1 {
        reveal_strlit("SOH");
        assert(TABLE[1].0@.len() == 3);
    } else if i == 2 {
        reveal_strlit("STX");
        assert(TABLE[2].0@.len() == 3);
    } else if i == 3 {
        reveal_strlit("ETX");
        assert(TABLE[3].0@.len() == 3);
    } else if i == 4 {
        reveal_strlit("EOT");
        assert(TABLE[4].0@.len() == 3);
    } else if i == 5 {
        reveal_strlit("ENQ");
        assert(TABLE[5].0@.len() == 3);
    } else if i == 6 {
        reveal_strlit("ACK");
        assert(TABLE[6].0@.len() == 3);
    } else if i == 7 {
        reveal_strlit("BEL");
        assert(TABLE[7].0@.len() == 3);
    } else if i == 8 {
        reveal_strlit("BS");
        assert(TABLE[8].0@.len() == 2);
    } else if i == 9 {
        reveal_strlit("HT");
        assert(TABLE[9].0@.len() == 2);
    } else if i == 10 {
        reveal_strlit("LF");
        assert(TABLE[10].0@.len() == 2);
    } else if i == 11 {
        reveal_strlit("VT");
        assert(TABLE[11].0@.len() == 2);
    } else if i == 12 {
        reveal_strlit("FF");
        assert(TABLE[12].0@.len() == 2);
    } else if i == 13 {
        reveal_strlit("CR");
        assert(TABLE[13].0@.len() == 2);
    } else if i == 14 {
        reveal_strlit("SO");
        assert(TABLE[14].0@.len() == 2);
    } else if i == 15 {
        reveal_strlit("SI");
        assert(TABLE[15].0@.len() == 2);
    } else if i == 16 {
        reveal_strlit("DLE");
        assert(TABLE[16].0@.len() == 3);
    } else if i == 17 {
        reveal_strlit("DC1");
        assert(TABLE[17].0@.len() == 3);
    } else if i == 18 {
        reveal_strlit("DC2");
        assert(TABLE[18].0@.len() == 3);
    } else if i == 19 {
        reveal_strlit("DC3");
        assert(TABLE[19].0@.len() == 3);
    } else if i == 20 {
        reveal_strlit("DC4");
        assert(TABLE[20].0@.len() == 3);
    } else if i == 21 {
        reveal_strlit("NAK");
        assert(TABLE[21].0@.len() == 3);
    } else if i == 22 {
        reveal_strlit("SYN");
        assert(TABLE[22].0@.len() == 3);
    } else if i == 23 {
        reveal_strlit("ETB");
        assert(TABLE[23].0@.len() == 3);
    } else if i == 24 {
        reveal_strlit("CAN");
        assert(TABLE[24].0@.len() == 3);
    } else if i == 25 {
        reveal_strlit("EM");
        assert(TABLE[25].0@.len() == 2);
    } else if i == 26 {
        reveal_strlit("SUB");
        assert(TABLE[26].0@.len() == 3);
    } else if i == 27 {
        reveal_strlit("ESC");
        assert(TABLE[27].0@.len() == 3);
    } else if i == 28 {
        reveal_strlit("FS");
        assert(TABLE[28].0@.len() == 2);
    } else if i == 29 {
        reveal_strlit("GS");
        assert(TABLE[29].0@.len() == 2);
    } else if i == 30 {
        reveal_strlit("RS");
        assert(TABLE[30].0@.len() == 2);
    } else if i == 31 {
        reveal_strlit("US");
        assert(TABLE[31].0@.len() == 2);
    } else if i == 32 {
        reveal_strlit(" ");
        assert(TABLE[32].0@.len() == 1);
        assert(TABLE[32].0@ =~= seq![' ']);
    } else if i == 33 {
        reveal_strlit("!");
        assert(TABLE[33].0@.len() == 1);
        assert(TABLE[33].0@ =~= seq!['!']);
    } else if i == 34 {
        reveal_strlit("\"");
        assert(TABLE[34].0@.len() == 1);
        assert(TABLE[34].0@ =~= seq!['"']);
    } else if i == 35 {
        reveal_strlit("#");
        assert(TABLE[35].0@.len() == 1);
        assert(TABLE[35].0@ =~= seq!['#']);
    } else if i == 36 {
        reveal_strlit("$");
        assert(TABLE[36].0@.len() == 1);
        assert(TABLE[36].0@ =~= seq!['$']);
    } else if i == 37 {
        reveal_strlit("%");
        assert(TABLE[37].0@.len() == 1);
        assert(TABLE[37].0@ =~= seq!['%']);
    } else if i == 38 {
        reveal_strlit("&");
        assert(TABLE[38].0@.len() == 1);
        assert(TABLE[38].0@ =~= seq!['&']);
    } else if i == 39 {
        reveal_strlit("'");
        assert(TABLE[39].0@.len() == 1);
        assert(TABLE[39].0@ =~= seq!['\'']);
    } else if i == 40 {
        reveal_strlit("(");
        assert(TABLE[40].0@.len() == 1);
        assert(TABLE[40].0@ =~= seq!['(']);
    } else if i == 41 {
        reveal_strlit(")");
        assert(TABLE[41].0@.len() == 1);
        assert(TABLE[41].0@ =~= seq![')']);
    } else if i == 42 {
        reveal_strlit("*");
        assert(TABLE[42].0@.len() == 1);
        assert(TABLE[42].0@ =~= seq!['*']);
    } else if i == 43 {
        reveal_strlit("+");
        assert(TABLE[43].0@.len() == 1);
        assert(TABLE[43].0@ =~= seq!['+']);
    } else if i == 44 {
        reveal_strlit(",");
        assert(TABLE[44].0@.len() == 1);
        assert(TABLE[44].0@ =~= seq![',']);
    } else if i == 45 {
        reveal_strlit("-");
        assert(TABLE[45].0@.len() == 1);
        assert(TABLE[45].0@ =~= seq!['-']);
    } else if i == 46 {
        reveal_strlit(".");
        assert(TABLE[46].0@.len() == 1);
        assert(TABLE[46].0@ =~= seq!['.']);
    } else if i == 47 {
        reveal_strlit("/");
        assert(TABLE[47].0@.len() == 1);
        assert(TABLE[47].0@ =~= seq!['/']);
    } else if i == 48 {
        reveal_strlit("0");
        assert(TABLE[48].0@.len() == 1);
        assert(TABLE[48].0@ =~= seq!['0']);
    } else if i == 49 {
        reveal_strlit("1");
        assert(TABLE[49].0@.len() == 1);
        assert(TABLE[49].0@ =~= seq!['1']);
    } else if i == 50 {
        reveal_strlit("2");
        assert(TABLE[50].0@.len() == 1);
        assert(TABLE[50].0@ =~= seq!['2']);
    } else if i == 51 {
        reveal_strlit("3");
        assert(TABLE[51].0@.len() == 1);
        assert(TABLE[51].0@ =~= seq!['3']);
    } else if i == 52 {
        reveal_strlit("4");
        assert(TABLE[52].0@.len() == 1);
        assert(TABLE[52].0@ =~= seq!['4']);
    } else if i == 53 {
        reveal_strlit("5");
        assert(TABLE[53].0@.len() == 1);
        assert(TABLE[53].0@ =~= seq!['5']);
    } else if i == 54 {
        reveal_strlit("6");
        assert(TABLE[54].0@.len() == 1);
        assert(TABLE[54].0@ =~= seq!['6']);
    } else if i == 55 {
        reveal_strlit("7");
        assert(TABLE[55].0@.len() == 1);
        assert(TABLE[55].0@ =~= seq!['7']);
    } else if i == 56 {
        reveal_strlit("8");
        assert(TABLE[56].0@.len() == 1);
        assert(TABLE[56].0@ =~= seq!['8']);
    } else if i == 57 {
        reveal_strlit("9");
        assert(TABLE[57].0@.len() == 1);
        assert(TABLE[57].0@ =~= seq!['9']);
    } else if i == 58 {
        reveal_strlit(":");
        assert(TABLE[58].0@.len() == 1);
        assert(TABLE[58].0@ =~= seq![':']);
    } else if i == 59 {
        reveal_strlit(";");
        assert(TABLE[59].0@.len() == 1);
        assert(TABLE[59].0@ =~= seq![';']);
    } else if i == 60 {
        reveal_strlit("<");
        assert(TABLE[60].0@.len() == 1);
        assert(TABLE[60].0@ =~= seq!['<']);
    } else if i == 61 {
        reveal_strlit("=");
        assert(TABLE[61].0@.len() == 1);
        assert(TABLE[61].0@ =~= seq!['=']);
    } else if i == 62 {
        reveal_strlit(">");
        assert(TABLE[62].0@.len() == 1);
        assert(TABLE[62].0@ =~= seq!['>']);
    } else if i == 63 {
        reveal_strlit("?");
        assert(TABLE[63].0@.len() == 1);
        assert(TABLE[63].0@ =~= seq!['?']);
    } else if i == 64 {
        reveal_strlit("@");
        assert(TABLE[64].0@.len() == 1);
        assert(TABLE[64].0@ =~= seq!['@']);
    } else if i == 65 {
        reveal_strlit("A");
        assert(TABLE[65].0@.len() == 1);
        assert(TABLE[65].0@ =~= seq!['A']);
    } else if i == 66 {
        reveal_strlit("B");
        assert(TABLE[66].0@.len() == 1);
        assert(TABLE[66].0@ =~= seq!['B']);
    } else if i == 67 {
        reveal_strlit("C");
        assert(TABLE[67].0@.len() == 1);
        assert(TABLE[67].0@ =~= seq!['C']);
    } else if i == 68 {
        reveal_strlit("D");
        assert(TABLE[68].0@.len() == 1);
        assert(TABLE[68].0@ =~= seq!['D']);
    } else if i == 69 {
        reveal_strlit("E");
        assert(TABLE[69].0@.len() == 1);
        assert(TABLE[69].0@ =~= seq!['E']);
    } else if i == 70 {
        reveal_strlit("F");
        assert(TABLE[70].0@.len() == 1);
        assert(TABLE[70].0@ =~= seq!['F']);
    } else if i == 71 {
        reveal_strlit("G");
        assert(TABLE[71].0@.len() == 1);
        assert(TABLE[71].0@ =~= seq!['G']);
    } else if i == 72 {
        reveal_strlit("H");
        assert(TABLE[72].0@.len() == 1);
        assert(TABLE[72].0@ =~= seq!['H']);
    } else if i == 73 {
        reveal_strlit("I");
        assert(TABLE[73].0@.len() == 1);
        assert(TABLE[73].0@ =~= seq!['I']);
    } else if i == 74 {
        reveal_strlit("J");
        assert(TABLE[74].0@.len() == 1);
        assert(TABLE[74].0@ =~= seq!['J']);
    } else if i == 75 {
        reveal_strlit("K");
        assert(TABLE[75].0@.len() == 1);
        assert(TABLE[75].0@ =~= seq!['K']);
    } else if i == 76 {
        reveal_strlit("L");
        assert(TABLE[76].0@.len() == 1);
        assert(TABLE[76].0@ =~= seq!['L']);
    } else if i == 77 {
        reveal_strlit("M");
        assert(TABLE[77].0@.len() == 1);
        assert(TABLE[77].0@ =~= seq!['M']);
    } else if i == 78 {
        reveal_strlit("N");
        assert(TABLE[78].0@.len() == 1);
        assert(TABLE[78].0@ =~= seq!['N']);
    } else if i == 79 {
        reveal_strlit("O");
        assert(TABLE[79].0@.len() == 1);
        assert(TABLE[79].0@ =~= seq!['O']);
    } else if i == 80 {
        reveal_strlit("P");
        assert(TABLE[80].0@.len() == 1);
        assert(TABLE[80].0@ =~= seq!['P']);
    } else if i == 81 {
        reveal_strlit("Q");
        assert(TABLE[81].0@.len() == 1);
        assert(TABLE[81].0@ =~= seq!['Q']);
    } else if i == 82 {
        reveal_strlit("R");
        assert(TABLE[82].0@.len() == 1);
        assert(TABLE[82].0@ =~= seq!['R']);
    } else if i == 83 {
        reveal_strlit("S");
        assert(TABLE[83].0@.len() == 1);
        assert(TABLE[83].0@ =~= seq!['S']);
    } else if i == 84 {
        reveal_strlit("T");
        assert(TABLE[84].0@.len() == 1);
        assert(TABLE[84].0@ =~= seq!['T']);
    } else if i == 85 {
        reveal_strlit("U");
        assert(TABLE[85].0@.len() == 1);
        assert(TABLE[85].0@ =~= seq!['U']);
    } else if i == 86 {
        reveal_strlit("V");
        assert(TABLE[86].0@.len() == 1);
        assert(TABLE[86].0@ =~= seq!['V']);
    } else if i == 87 {
        reveal_strlit("W");
        assert(TABLE[87].0@.len() == 1);
        assert(TABLE[87].0@ =~= seq!['W']);
    } else if i == 88 {
        reveal_strlit("X");
        assert(TABLE[88].0@.len() == 1);
        assert(TABLE[88].0@ =~= seq!['X']);
    } else if i == 89 {
        reveal_strlit("Y");
        assert(TABLE[89].0@.len() == 1);
        assert(TABLE[89].0@ =~= seq!['Y']);
    } else if i == 90 {
        reveal_strlit("Z");
        assert(TABLE[90].0@.len() == 1);
        assert(TABLE[90].0@ =~= seq!['Z']);
    } else if i == 91 {
        reveal_strlit("[");
        assert(TABLE[91].0@.len() == 1);
        assert(TABLE[91].0@ =~= seq!['[']);
    } else if i == 92 {
        reveal_strlit("\\");
        assert(TABLE[92].0@.len() == 1);
        assert(TABLE[92].0@ =~= seq!['\\']);
    } else if i == 93 {
        reveal_strlit("]");
        assert(TABLE[93].0@.len() == 1);
        assert(TABLE[93].0@ =~= seq![']']);
    } else if i == 94 {
        reveal_strlit("^");
        assert(TABLE[94].0@.len() == 1);
        assert(TABLE[94].0@ =~= seq!['^']);
    } else if i == 95 {
        reveal_strlit("_");
        assert(TABLE[95].0@.len() == 1);
        assert(TABLE[95].0@ =~= seq!['_']);
    } else if i == 96 {
        reveal_strlit("`");
        assert(TABLE[96].0@.len() == 1);
        assert(TABLE[96].0@ =~= seq!['`']);
    } else if i == 97 {
        reveal_strlit("a");
        assert(TABLE[97].0@.len() == 1);
        assert(TABLE[97].0@ =~= seq!['a']);
    } else if i == 98 {
        reveal_strlit("b");
        assert(TABLE[98].0@.len() == 1);
        assert(TABLE[98].0@ =~= seq!['b']);
    } else if i == 99 {
        reveal_strlit("c");
        assert(TABLE[99].0@.len() == 1);
        assert(TABLE[99].0@ =~= seq!['c']);
    } else if i == 100 {
        reveal_strlit("d");
        assert(TABLE[100].0@.len() == 1);
        assert(TABLE[100].0@ =~= seq!['d']);
    } else if i == 101 {
        reveal_strlit("e");
        assert(TABLE[101].0@.len() == 1);
        assert(TABLE[101].0@ =~= seq!['e']);
    } else if i == 102 {
        reveal_strlit("f");
        assert(TABLE[102].0@.len() == 1);
        assert(TABLE[102].0@ =~= seq!['f']);
    } else if i == 103 {
        reveal_strlit("g");
        assert(TABLE[103].0@.len() == 1);
        assert(TABLE[103].0@ =~= seq!['g']);
    } else if i == 104 {
        reveal_strlit("h");
        assert(TABLE[104].0@.len() == 1);
        assert(TABLE[104].0@ =~= seq!['h']);
    } else if i == 105 {
        reveal_strlit("i");
        assert(TABLE[105].0@.len() == 1);
        assert(TABLE[105].0@ =~= seq!['i']);
    } else if i == 106 {
        reveal_strlit("j");
        assert(TABLE[106].0@.len() == 1);
        assert(TABLE[106].0@ =~= seq!['j']);
    } else if i == 107 {
        reveal_strlit("k");
        assert(TABLE[107].0@.len() == 1);
        assert(TABLE[107].0@ =~= seq!['k']);
    } else if i == 108 {
        reveal_strlit("l");
        assert(TABLE[108].0@.len() == 1);
        assert(TABLE[108].0@ =~= seq!['l']);
    } else if i == 109 {
        reveal_strlit("m");
        assert(TABLE[109].0@.len() == 1);
        assert(TABLE[109].0@ =~= seq!['m']);
    } else if i == 110 {
        reveal_strlit("n");
        assert(TABLE[110].0@.len() == 1);
        assert(TABLE[110].0@ =~= seq!['n']);
    } else if i == 111 {
        reveal_strlit("o");
        assert(TABLE[111].0@.len() == 1);
        assert(TABLE[111].0@ =~= seq!['o']);
    } else if i == 112 {
        reveal_strlit("p");
        assert(TABLE[112].0@.len() == 1);
        assert(TABLE[112].0@ =~= seq!['p']);
    } else if i == 113 {
        reveal_strlit("q");
        assert(TABLE[113].0@.len() == 1);
        assert(TABLE[113].0@ =~= seq!['q']);
    } else if i == 114 {
        reveal_strlit("r");
        assert(TABLE[114].0@.len() == 1);
        assert(TABLE[114].0@ =~= seq!['r']);
    } else if i == 115 {
        reveal_strlit("s");
        assert(TABLE[115].0@.len() == 1);
        assert(TABLE[115].0@ =~= seq!['s']);
    } else if i == 116 {
        reveal_strlit("t");
        assert(TABLE[116].0@.len() == 1);
        assert(TABLE[116].0@ =~= seq!['t']);
    } else if i == 117 {
        reveal_strlit("u");
        assert(TABLE[117].0@.len() == 1);
        assert(TABLE[117].0@ =~= seq!['u']);
    } else if i == 118 {
        reveal_strlit("v");
        assert(TABLE[118].0@.len() == 1);
        assert(TABLE[118].0@ =~= seq!['v']);
    } else if i == 119 {
        reveal_strlit("w");
        assert(TABLE[119].0@.len() == 1);
        assert(TABLE[119].0@ =~= seq!['w']);
    } else if i == 120 {
        reveal_strlit("x");
        assert(TABLE[120].0@.len() == 1);
        assert(TABLE[120].0@ =~= seq!['x']);
    } else if i == 121 {
        reveal_strlit("y");
        assert(TABLE[121].0@.len() == 1);
        assert(TABLE[121].0@ =~= seq!['y']);
    } else if i == 122 {
        reveal_strlit("z");
        assert(TABLE[122].0@.len() == 1);
        assert(TABLE[122].0@ =~= seq!['z']);
    } else if i == 123 {
        reveal_strlit("{");
        assert(TABLE[123].0@.len() == 1);
        assert(TABLE[123].0@ =~= seq!['{']);
    } else if i == 124 {
        reveal_strlit("|");
        assert(TABLE[124].0@.len() == 1);
        assert(TABLE[124].0@ =~= seq!['|']);
    } else if i == 125 {
        reveal_strlit("}");
        assert(TABLE[125].0@.len() == 1);
        assert(TABLE[125].0@ =~= seq!['}']);
    } else if i == 126 {
        reveal_strlit("~");
        assert(TABLE[126].0@.len() == 1);
        assert(TABLE[126].0@ =~= seq!['~']);
    } else if i == 127 {
        reveal_strlit("DEL");
        assert(TABLE[127].0@.len() == 3);
    }
}

} // verus!

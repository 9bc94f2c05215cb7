//! Value representations.

use vstd::prelude::*;

verus! {

/// The value representation of an element: a two-letter code that says how
/// the bytes of its value are to be read.
#[derive(Clone, Copy, Debug, PartialEq, Eq, Structural, Hash)]
pub enum VR {
    /// Application Entity
    AE,
    /// Age String
    AS,
    /// Attribute Tag
    AT,
    /// Code String
    CS,
    /// Date
    DA,
    /// Decimal String
    DS,
    /// Date Time
    DT,
    /// Floating Point Single
    FL,
    /// Floating Point Double
    FD,
    /// Integer String
    IS,
    /// Long String
    LO,
    /// Long Text
    LT,
    /// Other Byte
    OB,
    /// Other Double
    OD,
    /// Other Float
    OF,
    /// Other Long
    OL,
    /// Other Very Long
    OV,
    /// Other Word
    OW,
    /// Person Name
    PN,
    /// Short String
    SH,
    /// Signed Long
    SL,
    /// Sequence of Items
    SQ,
    /// Signed Short
    SS,
    /// Short Text
    ST,
    /// Signed Very Long
    SV,
    /// Time
    TM,
    /// Unlimited Characters
    UC,
    /// Unique Identifier
    UI,
    /// Unsigned Long
    UL,
    /// Unknown
    UN,
    /// Universal Resource Locator
    UR,
    /// Unsigned Short
    US,
    /// Unlimited Text
    UT,
    /// Unsigned Very Long
    UV,
}

impl VR {
    /// The two letters of the code.
    pub open spec fn letters(self) -> (char, char) {
        match self {
            VR::AE => ('A', 'E'),
            VR::AS => ('A', 'S'),
            VR::AT => ('A', 'T'),
            VR::CS => ('C', 'S'),
            VR::DA => ('D', 'A'),
            VR::DS => ('D', 'S'),
            VR::DT => ('D', 'T'),
            VR::FL => ('F', 'L'),
            VR::FD => ('F', 'D'),
            VR::IS => ('I', 'S'),
            VR::LO => ('L', 'O'),
            VR::LT => ('L', 'T'),
            VR::OB => ('O', 'B'),
            VR::OD => ('O', 'D'),
            VR::OF => ('O', 'F'),
            VR::OL => ('O', 'L'),
            VR::OV => ('O', 'V'),
            VR::OW => ('O', 'W'),
            VR::PN => ('P', 'N'),
            VR::SH => ('S', 'H'),
            VR::SL => ('S', 'L'),
            VR::SQ => ('S', 'Q'),
            VR::SS => ('S', 'S'),
            VR::ST => ('S', 'T'),
            VR::SV => ('S', 'V'),
            VR::TM => ('T', 'M'),
            VR::UC => ('U', 'C'),
            VR::UI => ('U', 'I'),
            VR::UL => ('U', 'L'),
            VR::UN => ('U', 'N'),
            VR::UR => ('U', 'R'),
            VR::US => ('U', 'S'),
            VR::UT => ('U', 'T'),
            VR::UV => ('U', 'V'),
        }
    }

    /// The value representation that two letters name, if any.
    pub open spec fn of_letters(a: char, b: char) -> Option<VR> {
        if a == 'A' && b == 'E' {
            Some(VR::AE)
        } else if a == 'A' && b == 'S' {
            Some(VR::AS)
        } else if a == 'A' && b == 'T' {
            Some(VR::AT)
        } else if a == 'C' && b == 'S' {
            Some(VR::CS)
        } else if a == 'D' && b == 'A' {
            Some(VR::DA)
        } else if a == 'D' && b == 'S' {
            Some(VR::DS)
        } else if a == 'D' && b == 'T' {
            Some(VR::DT)
        } else if a == 'F' && b == 'L' {
            Some(VR::FL)
        } else if a == 'F' && b == 'D' {
            Some(VR::FD)
        } else if a == 'I' && b == 'S' {
            Some(VR::IS)
        } else if a == 'L' && b == 'O' {
            Some(VR::LO)
        } else if a == 'L' && b == 'T' {
            Some(VR::LT)
        } else if a == 'O' && b == 'B' {
            Some(VR::OB)
        } else if a == 'O' && b == 'D' {
            Some(VR::OD)
        } else if a == 'O' && b == 'F' {
            Some(VR::OF)
        } else if a == 'O' && b == 'L' {
            Some(VR::OL)
        } else if a == 'O' && b == 'V' {
            Some(VR::OV)
        } else if a == 'O' && b == 'W' {
            Some(VR::OW)
        } else if a == 'P' && b == 'N' {
            Some(VR::PN)
        } else if a == 'S' && b == 'H' {
            Some(VR::SH)
        } else if a == 'S' && b == 'L' {
            Some(VR::SL)
        } else if a == 'S' && b == 'Q' {
            Some(VR::SQ)
        } else if a == 'S' && b == 'S' {
            Some(VR::SS)
        } else if a == 'S' && b == 'T' {
            Some(VR::ST)
        } else if a == 'S' && b == 'V' {
            Some(VR::SV)
        } else if a == 'T' && b == 'M' {
            Some(VR::TM)
        } else if a == 'U' && b == 'C' {
            Some(VR::UC)
        } else if a == 'U' && b == 'I' {
            Some(VR::UI)
        } else if a == 'U' && b == 'L' {
            Some(VR::UL)
        } else if a == 'U' && b == 'N' {
            Some(VR::UN)
        } else if a == 'U' && b == 'R' {
            Some(VR::UR)
        } else if a == 'U' && b == 'S' {
            Some(VR::US)
        } else if a == 'U' && b == 'T' {
            Some(VR::UT)
        } else if a == 'U' && b == 'V' {
            Some(VR::UV)
        } else {
            None
        }
    }

    /// The two-letter code as text.
    pub open spec fn text_spec(self) -> Seq<char> {
        seq![self.letters().0, self.letters().1]
    }

    /// The value representation that a text names: the text must be exactly
    /// the two upper-case letters of the code.
    pub open spec fn of_text(text: Seq<char>) -> Option<VR> {
        if text.len() == 2 {
            VR::of_letters(text[0], text[1])
        } else {
            None
        }
    }

    /// The value representation that two bytes name, read as ASCII letters.
    pub open spec fn of_bytes(a: u8, b: u8) -> Option<VR> {
        VR::of_letters(a as char, b as char)
    }

    /// Whether the explicit encodings write the length of such an element in
    /// 32 bits, after two reserved bytes, and not in 16 bits.
    pub open spec fn long_length_spec(self) -> bool {
        self == VR::OB
            || self == VR::OD
            || self == VR::OF
            || self == VR::OL
            || self == VR::OV
            || self == VR::OW
            || self == VR::SQ
            || self == VR::UC
            || self == VR::UN
            || self == VR::UR
            || self == VR::UT
            || self == VR::UV
    }

    /// Whether values of this representation are written as text.
    pub open spec fn textual_spec(self) -> bool {
        self == VR::AE
            || self == VR::AS
            || self == VR::CS
            || self == VR::DA
            || self == VR::DS
            || self == VR::DT
            || self == VR::IS
            || self == VR::LO
            || self == VR::LT
            || self == VR::PN
            || self == VR::SH
            || self == VR::ST
            || self == VR::TM
            || self == VR::UC
            || self == VR::UI
            || self == VR::UR
            || self == VR::UT
    }

    /// Reads a value representation from its two-letter code.
    pub fn from_str(text: &str) -> (r: Option<VR>)
        ensures
            r == VR::of_text(text@),
    {
        if text.unicode_len() != 2 {
            return None;
        }
        let a: char = text.get_char(0);
        let b: char = text.get_char(1);
        VR::from_letters(a, b)
    }

    /// Reads a value representation from the two bytes of its code.
    pub fn from_binary(bytes: [u8; 2]) -> (r: Option<VR>)
        ensures
            r == VR::of_bytes(bytes[0], bytes[1]),
    {
        VR::from_letters(bytes[0] as char, bytes[1] as char)
    }

    /// The value representation that two letters name, if any.
    pub fn from_letters(a: char, b: char) -> (r: Option<VR>)
        ensures
            r == VR::of_letters(a, b),
    {
        match (a, b) {
            ('A', 'E') => Some(VR::AE),
            ('A', 'S') => Some(VR::AS),
            ('A', 'T') => Some(VR::AT),
            ('C', 'S') => Some(VR::CS),
            ('D', 'A') => Some(VR::DA),
            ('D', 'S') => Some(VR::DS),
            ('D', 'T') => Some(VR::DT),
            ('F', 'L') => Some(VR::FL),
            ('F', 'D') => Some(VR::FD),
            ('I', 'S') => Some(VR::IS),
            ('L', 'O') => Some(VR::LO),
            ('L', 'T') => Some(VR::LT),
            ('O', 'B') => Some(VR::OB),
            ('O', 'D') => Some(VR::OD),
            ('O', 'F') => Some(VR::OF),
            ('O', 'L') => Some(VR::OL),
            ('O', 'V') => Some(VR::OV),
            ('O', 'W') => Some(VR::OW),
            ('P', 'N') => Some(VR::PN),
            ('S', 'H') => Some(VR::SH),
            ('S', 'L') => Some(VR::SL),
            ('S', 'Q') => Some(VR::SQ),
            ('S', 'S') => Some(VR::SS),
            ('S', 'T') => Some(VR::ST),
            ('S', 'V') => Some(VR::SV),
            ('T', 'M') => Some(VR::TM),
            ('U', 'C') => Some(VR::UC),
            ('U', 'I') => Some(VR::UI),
            ('U', 'L') => Some(VR::UL),
            ('U', 'N') => Some(VR::UN),
            ('U', 'R') => Some(VR::UR),
            ('U', 'S') => Some(VR::US),
            ('U', 'T') => Some(VR::UT),
            ('U', 'V') => Some(VR::UV),
            _ => None,
        }
    }

    /// The two-letter code.
    pub fn to_string(self) -> (s: &'static str)
        ensures
            s@ == self.text_spec(),
    {
        match self {
            VR::AE => {
                proof {
                    reveal_strlit("AE");
                }
                assert("AE"@ =~= seq!['A', 'E']);
                "AE"
            },
            VR::AS => {
                proof {
                    reveal_strlit("AS");
                }
                assert("AS"@ =~= seq!['A', 'S']);
                "AS"
            },
            VR::AT => {
                proof {
                    reveal_strlit("AT");
                }
                assert("AT"@ =~= seq!['A', 'T']);
                "AT"
            },
            VR::CS => {
                proof {
                    reveal_strlit("CS");
                }
                assert("CS"@ =~= seq!['C', 'S']);
                "CS"
            },
            VR::DA => {
                proof {
                    reveal_strlit("DA");
                }
                assert("DA"@ =~= seq!['D', 'A']);
                "DA"
            },
            VR::DS => {
                proof {
                    reveal_strlit("DS");
                }
                assert("DS"@ =~= seq!['D', 'S']);
                "DS"
            },
            VR::DT => {
                proof {
                    reveal_strlit("DT");
                }
                assert("DT"@ =~= seq!['D', 'T']);
                "DT"
            },
            VR::FL => {
                proof {
                    reveal_strlit("FL");
                }
                assert("FL"@ =~= seq!['F', 'L']);
                "FL"
            },
            VR::FD => {
                proof {
                    reveal_strlit("FD");
                }
                assert("FD"@ =~= seq!['F', 'D']);
                "FD"
            },
            VR::IS => {
                proof {
                    reveal_strlit("IS");
                }
                assert("IS"@ =~= seq!['I', 'S']);
                "IS"
            },
            VR::LO => {
                proof {
                    reveal_strlit("LO");
                }
                assert("LO"@ =~= seq!['L', 'O']);
                "LO"
            },
            VR::LT => {
                proof {
                    reveal_strlit("LT");
                }
                assert("LT"@ =~= seq!['L', 'T']);
                "LT"
            },
            VR::OB => {
                proof {
                    reveal_strlit("OB");
                }
                assert("OB"@ =~= seq!['O', 'B']);
                "OB"
            },
            VR::OD => {
                proof {
                    reveal_strlit("OD");
                }
                assert("OD"@ =~= seq!['O', 'D']);
                "OD"
            },
            VR::OF => {
                proof {
                    reveal_strlit("OF");
                }
                assert("OF"@ =~= seq!['O', 'F']);
                "OF"
            },
            VR::OL => {
                proof {
                    reveal_strlit("OL");
                }
                assert("OL"@ =~= seq!['O', 'L']);
                "OL"
            },
            VR::OV => {
                proof {
                    reveal_strlit("OV");
                }
                assert("OV"@ =~= seq!['O', 'V']);
                "OV"
            },
            VR::OW => {
                proof {
                    reveal_strlit("OW");
                }
                assert("OW"@ =~= seq!['O', 'W']);
                "OW"
            },
            VR::PN => {
                proof {
                    reveal_strlit("PN");
                }
                assert("PN"@ =~= seq!['P', 'N']);
                "PN"
            },
            VR::SH => {
                proof {
                    reveal_strlit("SH");
                }
                assert("SH"@ =~= seq!['S', 'H']);
                "SH"
            },
            VR::SL => {
                proof {
                    reveal_strlit("SL");
                }
                assert("SL"@ =~= seq!['S', 'L']);
                "SL"
            },
            VR::SQ => {
                proof {
                    reveal_strlit("SQ");
                }
                assert("SQ"@ =~= seq!['S', 'Q']);
                "SQ"
            },
            VR::SS => {
                proof {
                    reveal_strlit("SS");
                }
                assert("SS"@ =~= seq!['S', 'S']);
                "SS"
            },
            VR::ST => {
                proof {
                    reveal_strlit("ST");
                }
                assert("ST"@ =~= seq!['S', 'T']);
                "ST"
            },
            VR::SV => {
                proof {
                    reveal_strlit("SV");
                }
                assert("SV"@ =~= seq!['S', 'V']);
                "SV"
            },
            VR::TM => {
                proof {
                    reveal_strlit("TM");
                }
                assert("TM"@ =~= seq!['T', 'M']);
                "TM"
            },
            VR::UC => {
                proof {
                    reveal_strlit("UC");
                }
                assert("UC"@ =~= seq!['U', 'C']);
                "UC"
            },
            VR::UI => {
                proof {
                    reveal_strlit("UI");
                }
                assert("UI"@ =~= seq!['U', 'I']);
                "UI"
            },
            VR::UL => {
                proof {
                    reveal_strlit("UL");
                }
                assert("UL"@ =~= seq!['U', 'L']);
                "UL"
            },
            VR::UN => {
                proof {
                    reveal_strlit("UN");
                }
                assert("UN"@ =~= seq!['U', 'N']);
                "UN"
            },
            VR::UR => {
                proof {
                    reveal_strlit("UR");
                }
                assert("UR"@ =~= seq!['U', 'R']);
                "UR"
            },
            VR::US => {
                proof {
                    reveal_strlit("US");
                }
                assert("US"@ =~= seq!['U', 'S']);
                "US"
            },
            VR::UT => {
                proof {
                    reveal_strlit("UT");
                }
                assert("UT"@ =~= seq!['U', 'T']);
                "UT"
            },
            VR::UV => {
                proof {
                    reveal_strlit("UV");
                }
                assert("UV"@ =~= seq!['U', 'V']);
                "UV"
            },
        }
    }

    /// The two bytes of the code, as ASCII letters.
    pub fn to_bytes(self) -> (bytes: [u8; 2])
        ensures
            bytes[0] as char == self.letters().0,
            bytes[1] as char == self.letters().1,
            VR::of_bytes(bytes[0], bytes[1]) == Some(self),
    {
        match self {
            VR::AE => [65, 69],
            VR::AS => [65, 83],
            VR::AT => [65, 84],
            VR::CS => [67, 83],
            VR::DA => [68, 65],
            VR::DS => [68, 83],
            VR::DT => [68, 84],
            VR::FL => [70, 76],
            VR::FD => [70, 68],
            VR::IS => [73, 83],
            VR::LO => [76, 79],
            VR::LT => [76, 84],
            VR::OB => [79, 66],
            VR::OD => [79, 68],
            VR::OF => [79, 70],
            VR::OL => [79, 76],
            VR::OV => [79, 86],
            VR::OW => [79, 87],
            VR::PN => [80, 78],
            VR::SH => [83, 72],
            VR::SL => [83, 76],
            VR::SQ => [83, 81],
            VR::SS => [83, 83],
            VR::ST => [83, 84],
            VR::SV => [83, 86],
            VR::TM => [84, 77],
            VR::UC => [85, 67],
            VR::UI => [85, 73],
            VR::UL => [85, 76],
            VR::UN => [85, 78],
            VR::UR => [85, 82],
            VR::US => [85, 83],
            VR::UT => [85, 84],
            VR::UV => [85, 86],
        }
    }

    /// Whether the explicit encodings write the length of such an element in
    /// 32 bits, after two reserved bytes, and not in 16 bits.
    pub fn has_long_length(self) -> (b: bool)
        ensures
            b == self.long_length_spec(),
    {
        match self {
            VR::OB | VR::OD | VR::OF | VR::OL | VR::OV | VR::OW | VR::SQ | VR::UC | VR::UN | VR::UR | VR::UT | VR::UV => true,
            _ => false,
        }
    }

    /// Whether values of this representation are written as text.
    pub fn is_textual(self) -> (b: bool)
        ensures
            b == self.textual_spec(),
    {
        match self {
            VR::AE | VR::AS | VR::CS | VR::DA | VR::DS | VR::DT | VR::IS | VR::LO | VR::LT | VR::PN | VR::SH | VR::ST | VR::TM | VR::UC | VR::UI | VR::UR | VR::UT => true,
            _ => false,
        }
    }

    /// Whether the value is a sequence of items.
    pub fn is_sequence(self) -> (b: bool)
        ensures
            b == (self == VR::SQ),
    {
        match self {
            VR::SQ => true,
            _ => false,
        }
    }

    /// Whether an element of this representation may hold pixel data in
    /// encapsulated form.
    pub fn may_be_encapsulated(self) -> (b: bool)
        ensures
            b == (self == VR::OB || self == VR::OW),
    {
        match self {
            VR::OB | VR::OW => true,
            _ => false,
        }
    }
}

/// Every value representation is read back from its two letters, and two
/// letters name at most the one whose code they are.
pub proof fn lemma_letters_name(vr: VR)
    ensures
        VR::of_letters(vr.letters().0, vr.letters().1) == Some(vr),
        VR::of_text(vr.text_spec()) == Some(vr),
        forall|a: char, b: char| VR::of_letters(a, b) == Some(vr) ==> (a, b) == vr.letters(),
{
}

} // verus!

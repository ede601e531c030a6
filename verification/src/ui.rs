//! The computational side of the terminal front end: seven-segment
//! patterns for the display registers, level-meter bit tests and hex
//! rendering.  The drawing itself lives with the host.

use crate::rail_state::RailState;
use crate::rail_state::step_state;
use crate::rail_system::RailSystem;
use crate::rail_system::RailSystemTrait;
use vstd::prelude::*;
use vstd::string::StrSliceExecFns;
use vstd::string::StringExecFns;

verus! {

/// The hexadecimal digit character for a value below 16.
pub open spec fn hex_digit(n: u8) -> char {
    if n < 10 {
        ((48 + n) as u8) as char
    } else {
        ((55 + n) as u8) as char
    }
}

/// The top row of the seven-segment pattern of one hex digit.
pub open spec fn seg_top(n: u8) -> Seq<char> {
    if n == 1 || n == 4 || n == 11 || n == 13 || n >= 16 {
        "   "@
    } else {
        " _ "@
    }
}

/// The middle row of the seven-segment pattern of one hex digit.
pub open spec fn seg_mid(n: u8) -> Seq<char> {
    if n == 0 {
        "| |"@
    } else if n == 1 || n == 7 {
        "  |"@
    } else if n == 2 || n == 3 || n == 13 {
        " _|"@
    } else if n == 4 || n == 8 || n == 9 || n == 10 {
        "|_|"@
    } else if n == 5 || n == 6 || n == 11 || n == 14 || n == 15 {
        "|_ "@
    } else if n == 12 {
        "|  "@
    } else {
        "   "@
    }
}

/// The bottom row of the seven-segment pattern of one hex digit.
pub open spec fn seg_bot(n: u8) -> Seq<char> {
    if n == 0 || n == 6 || n == 8 || n == 11 || n == 13 {
        "|_|"@
    } else if n == 1 || n == 4 || n == 7 {
        "  |"@
    } else if n == 2 || n == 12 || n == 14 {
        "|_ "@
    } else if n == 3 || n == 5 || n == 9 {
        " _|"@
    } else if n == 10 {
        "| |"@
    } else if n == 15 {
        "|  "@
    } else {
        "   "@
    }
}

/// The terminal front end's handle on a machine; rendering reads the
/// machine through it.
pub struct RailTerminalUI {
    rail_system: RailSystem,
}

impl View for RailTerminalUI {
    type V = RailState;

    closed spec fn view(&self) -> RailState {
        self.rail_system@
    }
}

impl RailTerminalUI {
    /// Structural well-formedness of the wrapped machine.
    pub closed spec fn wf(&self) -> bool {
        self.rail_system.wf()
    }

    pub fn new(rail_system: RailSystem) -> (r: RailTerminalUI)
        ensures
            r@ == rail_system@,
            r.wf() == rail_system.wf(),
    {
        RailTerminalUI { rail_system }
    }

    /// The wrapped machine, for rendering.
    pub fn system(&self) -> (r: &RailSystem)
        ensures
            r@ == self@,
            r.wf() == self.wf(),
    {
        &self.rail_system
    }

    /// Advance the wrapped machine by one step.
    pub fn step(&mut self)
        requires
            old(self).wf(),
        ensures
            final(self).wf(),
            final(self)@ == step_state(old(self)@),
    {
        self.rail_system.step();
    }

    /// The three text rows of the seven-segment rendering of a byte:
    /// high digit, a space, low digit.
    pub fn get_segs_for_byte(value: u8) -> (r: Vec<String>)
        ensures
            r@.len() == 3,
            r@[0]@ == seg_top(value / 16) + seq![' '] + seg_top(value % 16),
            r@[1]@ == seg_mid(value / 16) + seq![' '] + seg_mid(value % 16),
            r@[2]@ == seg_bot(value / 16) + seq![' '] + seg_bot(value % 16),
    {
        let high_nibble = value / 16;
        let low_nibble = value % 16;
        let high_segs = Self::get_segs_for_nibble(high_nibble);
        let low_segs = Self::get_segs_for_nibble(low_nibble);
        let mut r: Vec<String> = Vec::new();
        r.push(String::from_str(high_segs[0]).concat(" ").concat(low_segs[0]));
        r.push(String::from_str(high_segs[1]).concat(" ").concat(low_segs[1]));
        r.push(String::from_str(high_segs[2]).concat(" ").concat(low_segs[2]));
        proof {
            reveal_strlit(" ");
            assert(r@[0]@ =~= seg_top(value / 16) + seq![' '] + seg_top(value % 16));
            assert(r@[1]@ =~= seg_mid(value / 16) + seq![' '] + seg_mid(value % 16));
            assert(r@[2]@ =~= seg_bot(value / 16) + seq![' '] + seg_bot(value % 16));
        }
        r
    }

    /// The three text rows of the seven-segment pattern of one hex
    /// digit; values above 15 render blank.
    pub fn get_segs_for_nibble(nibble: u8) -> (r: Vec<&'static str>)
        ensures
            r@.len() == 3,
            r@[0]@ == seg_top(nibble),
            r@[1]@ == seg_mid(nibble),
            r@[2]@ == seg_bot(nibble),
    {
        let rows: (&'static str, &'static str, &'static str) = match nibble {
            0 => (" _ ", "| |", "|_|"),
            1 => ("   ", "  |", "  |"),
            2 => (" _ ", " _|", "|_ "),
            3 => (" _ ", " _|", " _|"),
            4 => ("   ", "|_|", "  |"),
            5 => (" _ ", "|_ ", " _|"),
            6 => (" _ ", "|_ ", "|_|"),
            7 => (" _ ", "  |", "  |"),
            8 => (" _ ", "|_|", "|_|"),
            9 => (" _ ", "|_|", " _|"),
            10 => (" _ ", "|_|", "| |"),
            11 => ("   ", "|_ ", "|_|"),
            12 => (" _ ", "|  ", "|_ "),
            13 => ("   ", " _|", "|_|"),
            14 => (" _ ", "|_ ", "|_ "),
            15 => (" _ ", "|_ ", "|  "),
            _ => ("   ", "   ", "   "),
        };
        let mut r: Vec<&'static str> = Vec::new();
        r.push(rows.0);
        r.push(rows.1);
        r.push(rows.2);
        r
    }

    /// Whether the bit at the given position (0 is the most significant)
    /// is set.
    pub fn is_bit_pos_on(value: u8, pos: usize) -> (r: bool)
        requires
            pos < 8,
        ensures
            r == (value & (1u8 << ((7 - pos) as u8)) > 0),
    {
        let mask: u8 = 1u8 << ((7 - pos) as u8);
        value & mask > 0
    }

    /// The two hex digits of a byte.
    pub fn hex_str(byte: u8) -> (r: String)
        ensures
            r@ == seq![hex_digit(byte / 16), hex_digit(byte % 16)],
    {
        let r = Self::get_byte_in_hex(byte, "");
        proof {
            reveal_strlit("");
            assert(r@ =~= seq![hex_digit(byte / 16), hex_digit(byte % 16)]);
        }
        r
    }

    /// The two hex digits of a byte, after a prefix.
    pub fn get_byte_in_hex(byte: u8, prefix: &str) -> (r: String)
        ensures
            r@ == prefix@ + seq![hex_digit(byte / 16), hex_digit(byte % 16)],
    {
        let mut s = String::from_str(prefix);
        s.append(hex_digit_str(byte / 16));
        s.append(hex_digit_str(byte % 16));
        proof {
            assert(s@ =~= prefix@ + seq![hex_digit(byte / 16), hex_digit(byte % 16)]);
        }
        s
    }
}

/// The hexadecimal digit of a value below 16, as text.
fn hex_digit_str(n: u8) -> (r: &'static str)
    requires
        n < 16,
    ensures
        r@ == seq![hex_digit(n)],
{
    proof {
        reveal_strlit("0");
        reveal_strlit("1");
        reveal_strlit("2");
        reveal_strlit("3");
        reveal_strlit("4");
        reveal_strlit("5");
        reveal_strlit("6");
        reveal_strlit("7");
        reveal_strlit("8");
        reveal_strlit("9");
        reveal_strlit("A");
        reveal_strlit("B");
        reveal_strlit("C");
        reveal_strlit("D");
        reveal_strlit("E");
        reveal_strlit("F");
    }
    match n {
        0 => "0",
        1 => "1",
        2 => "2",
        3 => "3",
        4 => "4",
        5 => "5",
        6 => "6",
        7 => "7",
        8 => "8",
        9 => "9",
        10 => "A",
        11 => "B",
        12 => "C",
        13 => "D",
        14 => "E",
        _ => "F",
    }
}

/// One hex rendering step per byte: the prefix, two digits and a space,
/// and a newline after every fourth byte.
pub open spec fn hex_dump_rec(bytes: Seq<u8>, prefix: Seq<char>, count: int) -> Seq<char>
    decreases bytes.len(),
{
    if bytes.len() == 0 {
        Seq::empty()
    } else {
        let cell = prefix + seq![hex_digit(bytes[0] / 16), hex_digit(bytes[0] % 16), ' '];
        let line_end: Seq<char> = if count % 4 == 3 {
            seq!['\n']
        } else {
            Seq::empty()
        };
        cell + line_end + hex_dump_rec(bytes.drop_first(), prefix, count + 1)
    }
}

/// A binary rendered as `HH HH HH HH` groups of four, one group per
/// line.
pub fn byte_array_in_hex(byte_array: &[u8], prefix: &str) -> (r: String)
    ensures
        r@ == hex_dump_rec(byte_array@, prefix@, 0),
{
    let ghost bv = byte_array@;
    let mut result = String::new();
    let n = byte_array.len();
    let mut count: usize = 0;
    proof {
        assert(bv.skip(0) =~= bv);
        assert(result@ + hex_dump_rec(bv, prefix@, 0) =~= hex_dump_rec(bv, prefix@, 0));
    }
    while count < n
        invariant
            0 <= count <= n,
            n == bv.len(),
            bv == byte_array@,
            hex_dump_rec(bv, prefix@, 0) == result@ + hex_dump_rec(
                bv.skip(count as int),
                prefix@,
                count as int,
            ),
        decreases n - count,
    {
        proof {
            assert(bv.skip(count as int)[0] == bv[count as int]);
            assert(bv.skip(count as int).drop_first() =~= bv.skip(count + 1));
        }
        let byte = byte_array[count];
        let cell = RailTerminalUI::get_byte_in_hex(byte, prefix);
        result.append(cell.as_str());
        result.append(" ");
        proof {
            reveal_strlit(" ");
        }
        if count % 4 == 3 {
            result.append("\n");
            proof {
                reveal_strlit("\n");
            }
        }
        proof {
            assert(hex_dump_rec(bv, prefix@, 0) =~= result@ + hex_dump_rec(
                bv.skip(count + 1),
                prefix@,
                count + 1,
            ));
        }
        count += 1;
    }
    proof {
        assert(hex_dump_rec(bv.skip(n as int), prefix@, n as int) =~= Seq::<char>::empty());
        assert(result@ + Seq::<char>::empty() =~= result@);
    }
    result
}

} // verus!

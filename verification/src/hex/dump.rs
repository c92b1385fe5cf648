//! A hexadecimal dump of a byte slice: two upper-case digits and a space for
//! each byte, with an optional limit and an optional line length.

use vstd::prelude::*;

verus! {

/// The digit for a value below sixteen.
pub open spec fn hex_digit(n: int) -> char {
    seq!['0', '1', '2', '3', '4', '5', '6', '7', '8', '9', 'A', 'B', 'C', 'D', 'E', 'F'][n]
}

/// What a dump is made from.
pub struct DumpView {
    /// The bytes.
    pub data: Seq<u8>,
    /// At most this many bytes are shown.
    pub max: usize,
    /// A line break stands before every byte whose position is a multiple of
    /// this; zero means one line.
    pub wrap: usize,
}

impl DumpView {
    /// The number of bytes shown.
    pub open spec fn shown(self) -> nat {
        if self.data.len() <= self.max {
            self.data.len()
        } else {
            self.max as nat
        }
    }

    /// Whether a line break stands before the byte at `i`.
    pub open spec fn breaks_before(self, i: int) -> bool {
        i > 0 && self.wrap > 0 && i % (self.wrap as int) == 0
    }

    /// The text for the byte at `i`: the line break if one is due, the two
    /// digits, and a space.
    pub open spec fn cell(self, i: int) -> Seq<char> {
        let line_break = if self.breaks_before(i) {
            seq!['\r', '\n']
        } else {
            Seq::empty()
        };
        line_break + seq![
            hex_digit(self.data[i] as int / 16),
            hex_digit(self.data[i] as int % 16),
            ' ',
        ]
    }

    /// The text for the first `n` bytes.
    pub open spec fn prefix(self, n: nat) -> Seq<char>
        decreases n,
    {
        if n == 0 {
            Seq::empty()
        } else {
            self.prefix((n - 1) as nat) + self.cell(n - 1)
        }
    }

    /// The whole text.
    pub open spec fn text(self) -> Seq<char> {
        self.prefix(self.shown())
    }
}

/// A dump of a byte slice.
pub struct Dump<'a> {
    data: &'a [u8],
    max: usize,
    wrap: usize,
}

impl<'a> View for Dump<'a> {
    type V = DumpView;

    closed spec fn view(&self) -> DumpView {
        DumpView { data: self.data@, max: self.max, wrap: self.wrap }
    }
}

/// The digit for `n`, as a string of one character.
fn digit(n: u8) -> (s: &'static str)
    requires
        n < 16,
    ensures
        s@ == seq![hex_digit(n as int)],
{
    proof {
        reveal_strlit("0");
        reveal_strlit("1");
        reveal_strlit("2");
        reveal_strlit("3");
        reveal_strlit("4");
        reveal_strlit("5");
        reveal_strlit("6");
        reveal_strlit("7");
        reveal_strlit("8");
        reveal_strlit("9");
        reveal_strlit("A");
        reveal_strlit("B");
        reveal_strlit("C");
        reveal_strlit("D");
        reveal_strlit("E");
        reveal_strlit("F");
    }
    let s = match n {
        0 => "0",
        1 => "1",
        2 => "2",
        3 => "3",
        4 => "4",
        5 => "5",
        6 => "6",
        7 => "7",
        8 => "8",
        9 => "9",
        10 => "A",
        11 => "B",
        12 => "C",
        13 => "D",
        14 => "E",
        _ => "F",
    };
    assert(s@ =~= seq![hex_digit(n as int)]);
    s
}

impl<'a> Dump<'a> {
    /// A dump of all of `a` on one line.
    pub fn slice(a: &'a [u8]) -> (dump: Self)
        ensures
            dump@ == (DumpView { data: a@, max: a@.len() as usize, wrap: a@.len() as usize }),
    {
        Dump { data: a, max: a.len(), wrap: a.len() }
    }

    /// The same dump, of at most `max` bytes.
    pub fn with_max(self, max: usize) -> (dump: Self)
        ensures
            dump@ == (DumpView { max, ..self@ }),
    {
        let mut dump = self;
        dump.max = max;
        dump
    }

    /// The same dump, with a line break after every `wrap` bytes; zero
    /// switches the line breaks off.
    pub fn with_line_wrap(self, wrap: usize) -> (dump: Self)
        ensures
            dump@ == (DumpView { wrap, ..self@ }),
    {
        let mut dump = self;
        dump.wrap = wrap;
        dump
    }

    /// The text of the dump.
    pub fn to_hex(&self) -> (text: String)
        ensures
            text@ == self@.text(),
    {
        let mut text = String::new();
        let shown = if self.data.len() <= self.max {
            self.data.len()
        } else {
            self.max
        };
        let mut index: usize = 0;
        while index < shown
            invariant
                index <= shown,
                shown == self@.shown(),
                shown <= self.data@.len(),
                text@ == self@.prefix(index as nat),
            decreases shown - index,
        {
            let byte = self.data[index];
            if index > 0 && self.wrap > 0 && index % self.wrap == 0 {
                text.append("\r\n");
            }
            text.append(digit(byte / 16));
            text.append(digit(byte % 16));
            text.append(" ");
            proof {
                reveal_strlit("\r\n");
                reveal_strlit(" ");
                assert(text@ =~= self@.prefix(index as nat) + self@.cell(index as int));
            }
            index = index + 1;
        }
        text
    }
}

} // verus!

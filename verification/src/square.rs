//! Squares of the board: a file and a rank, each from 0 to 7.
//!
//! File 0 is the a-file and rank 0 is White's home rank, so `e1` is file 4,
//! rank 0. Squares are scanned rank by rank, each rank from the a-file
//! upwards, and a square's index is its place in that scan.

use vstd::prelude::*;
use vstd::string::StringExecFns;

verus! {

/// A square of the board.
#[derive(Copy, Clone, Debug, PartialEq, Eq, Hash, Structural)]
pub struct Square {
    pub file: u8,
    pub rank: u8,
}

/// Whether the coordinates name a square of the board.
pub open spec fn on_board(f: int, r: int) -> bool {
    0 <= f < 8 && 0 <= r < 8
}

/// The square with the given coordinates.
pub open spec fn square_at(f: int, r: int) -> Square {
    Square { file: f as u8, rank: r as u8 }
}

/// The letter of a file, from `a` for file 0 to `h` for file 7.
pub open spec fn file_letter(f: int) -> char {
    if f == 0 {
        'a'
    } else if f == 1 {
        'b'
    } else if f == 2 {
        'c'
    } else if f == 3 {
        'd'
    } else if f == 4 {
        'e'
    } else if f == 5 {
        'f'
    } else if f == 6 {
        'g'
    } else {
        'h'
    }
}

/// The digit of a rank, from `1` for rank 0 to `8` for rank 7.
pub open spec fn rank_digit(r: int) -> char {
    if r == 0 {
        '1'
    } else if r == 1 {
        '2'
    } else if r == 2 {
        '3'
    } else if r == 3 {
        '4'
    } else if r == 4 {
        '5'
    } else if r == 5 {
        '6'
    } else if r == 6 {
        '7'
    } else {
        '8'
    }
}

/// The file that a letter names, if it names one.
pub open spec fn file_of_letter(c: char) -> Option<int> {
    if exists|f: int| 0 <= f < 8 && file_letter(f) == c {
        Some(choose|f: int| 0 <= f < 8 && file_letter(f) == c)
    } else {
        None
    }
}

/// The rank that a digit names, if it names one.
pub open spec fn rank_of_digit(c: char) -> Option<int> {
    if exists|r: int| 0 <= r < 8 && rank_digit(r) == c {
        Some(choose|r: int| 0 <= r < 8 && rank_digit(r) == c)
    } else {
        None
    }
}

/// The square that a letter and a digit name, if they name one.
pub open spec fn square_of_chars(fc: char, rc: char) -> Option<Square> {
    match (file_of_letter(fc), rank_of_digit(rc)) {
        (Some(f), Some(r)) => Some(square_at(f, r)),
        _ => None,
    }
}

impl Square {
    /// Whether file and rank both lie on the board.
    pub open spec fn valid(self) -> bool {
        self.file < 8 && self.rank < 8
    }

    /// The place of the square in the scan of the board.
    pub open spec fn spec_index(self) -> int {
        self.rank * 8 + self.file
    }

    /// The two characters that name the square, such as `e2`.
    pub open spec fn spec_name(self) -> Seq<char> {
        seq![file_letter(self.file as int), rank_digit(self.rank as int)]
    }

    /// The square with the given file and rank, if both are below 8.
    pub fn new(file: u8, rank: u8) -> (s: Option<Square>)
        ensures
            s == (if file < 8 && rank < 8 {
                Some(Square { file, rank })
            } else {
                None
            }),
    {
        if file < 8 && rank < 8 {
            Some(Square { file, rank })
        } else {
            None
        }
    }

    /// Whether file and rank both lie on the board.
    pub fn is_valid(&self) -> (ok: bool)
        ensures
            ok == self.valid(),
    {
        self.file < 8 && self.rank < 8
    }

    /// The file, from 0 for the a-file.
    pub fn file(&self) -> (f: u8)
        ensures
            f == self.file,
    {
        self.file
    }

    /// The rank, from 0 for White's home rank.
    pub fn rank(&self) -> (r: u8)
        ensures
            r == self.rank,
    {
        self.rank
    }

    /// The place of the square in the scan of the board, from 0 to 63.
    pub fn index(&self) -> (i: usize)
        requires
            self.valid(),
        ensures
            i == self.spec_index(),
            i < 64,
    {
        (self.rank as usize) * 8 + (self.file as usize)
    }

    /// The square at a place in the scan of the board, if the place is below 64.
    pub fn from_index(i: usize) -> (s: Option<Square>)
        ensures
            s == (if i < 64 {
                Some(square_at(i as int % 8, i as int / 8))
            } else {
                None
            }),
            s matches Some(q) ==> q.valid() && q.spec_index() == i,
    {
        if i < 64 {
            Some(Square { file: (i % 8) as u8, rank: (i / 8) as u8 })
        } else {
            None
        }
    }

    /// The square reached by moving `df` files and `dr` ranks, if it is on
    /// the board.
    pub fn offset(&self, df: i8, dr: i8) -> (s: Option<Square>)
        requires
            self.valid(),
        ensures
            s == (if on_board(self.file + df, self.rank + dr) {
                Some(square_at(self.file + df, self.rank + dr))
            } else {
                None
            }),
            s matches Some(q) ==> q.valid(),
    {
        let f: i16 = self.file as i16 + df as i16;
        let r: i16 = self.rank as i16 + dr as i16;
        if 0 <= f && f < 8 && 0 <= r && r < 8 {
            Some(Square { file: f as u8, rank: r as u8 })
        } else {
            None
        }
    }

    /// The name of the square in coordinate notation, such as `e2`.
    pub fn name(&self) -> (s: String)
        requires
            self.valid(),
        ensures
            s@ == self.spec_name(),
    {
        proof {
            reveal_strlit("a");
            reveal_strlit("b");
            reveal_strlit("c");
            reveal_strlit("d");
            reveal_strlit("e");
            reveal_strlit("f");
            reveal_strlit("g");
            reveal_strlit("h");
            reveal_strlit("1");
            reveal_strlit("2");
            reveal_strlit("3");
            reveal_strlit("4");
            reveal_strlit("5");
            reveal_strlit("6");
            reveal_strlit("7");
            reveal_strlit("8");
        }
        let f = match self.file {
            0 => "a",
            1 => "b",
            2 => "c",
            3 => "d",
            4 => "e",
            5 => "f",
            6 => "g",
            _ => "h",
        };
        let r = match self.rank {
            0 => "1",
            1 => "2",
            2 => "3",
            3 => "4",
            4 => "5",
            5 => "6",
            6 => "7",
            _ => "8",
        };
        let s = String::from_str(f).concat(r);
        assert(s@ =~= self.spec_name());
        s
    }

    /// The square that a file letter and a rank digit name: `a` to `h`
    /// and `1` to `8`, in lower case. None for any other characters.
    pub fn from_chars(fc: char, rc: char) -> (s: Option<Square>)
        ensures
            s == square_of_chars(fc, rc),
            s matches Some(q) ==> q.valid() && q.spec_name() == seq![fc, rc],
            s is None ==> forall|q: Square| q.valid() ==> q.spec_name() != seq![fc, rc],
    {
        let f: Option<u8> = match fc {
            'a' => Some(0),
            'b' => Some(1),
            'c' => Some(2),
            'd' => Some(3),
            'e' => Some(4),
            'f' => Some(5),
            'g' => Some(6),
            'h' => Some(7),
            _ => None,
        };
        let r: Option<u8> = match rc {
            '1' => Some(0),
            '2' => Some(1),
            '3' => Some(2),
            '4' => Some(3),
            '5' => Some(4),
            '6' => Some(5),
            '7' => Some(6),
            '8' => Some(7),
            _ => None,
        };
        proof {
            match f {
                Some(x) => {
                    assert(0 <= x < 8 && file_letter(x as int) == fc);
                    let y = choose|y: int| 0 <= y < 8 && file_letter(y) == fc;
                    assert(y == x);
                },
                None => {
                    assert(forall|y: int| 0 <= y < 8 ==> file_letter(y) != fc);
                },
            }
            match r {
                Some(x) => {
                    assert(0 <= x < 8 && rank_digit(x as int) == rc);
                    let y = choose|y: int| 0 <= y < 8 && rank_digit(y) == rc;
                    assert(y == x);
                },
                None => {
                    assert(forall|y: int| 0 <= y < 8 ==> rank_digit(y) != rc);
                },
            }
            assert forall|q: Square| q.valid() && q.spec_name() == seq![fc, rc] implies f is Some
                && r is Some by {
                assert(q.spec_name()[0] == fc);
                assert(q.spec_name()[1] == rc);
            }
        }
        match (f, r) {
            (Some(file), Some(rank)) => {
                let q = Square { file, rank };
                assert(q.spec_name() =~= seq![fc, rc]);
                Some(q)
            },
            _ => None,
        }
    }
}

} // verus!

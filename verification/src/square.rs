use vstd::prelude::*;

verus! {

/// One of the 64 cells of the board, or `Unset` for "no square".
///
/// The cells are laid out rank by rank: `A1` has index 0, `H1` index 7,
/// `A2` index 8 and `H8` index 63. `Unset` has index 64 and lies off the board.
#[derive(Clone, Copy, Debug, PartialEq, Eq, Hash, Structural)]
pub enum Square {
    A1, B1, C1, D1, E1, F1, G1, H1,
    A2, B2, C2, D2, E2, F2, G2, H2,
    A3, B3, C3, D3, E3, F3, G3, H3,
    A4, B4, C4, D4, E4, F4, G4, H4,
    A5, B5, C5, D5, E5, F5, G5, H5,
    A6, B6, C6, D6, E6, F6, G6, H6,
    A7, B7, C7, D7, E7, F7, G7, H7,
    A8, B8, C8, D8, E8, F8, G8, H8,
    Unset,
}

impl Square {
    /// The flat index of the square: `rank * 8 + file`, and 64 for `Unset`.
    #[verifier::opaque]
    pub open spec fn index(self) -> int {
        match self {
            Square::A1 => 0,
            Square::B1 => 1,
            Square::C1 => 2,
            Square::D1 => 3,
            Square::E1 => 4,
            Square::F1 => 5,
            Square::G1 => 6,
            Square::H1 => 7,
            Square::A2 => 8,
            Square::B2 => 9,
            Square::C2 => 10,
            Square::D2 => 11,
            Square::E2 => 12,
            Square::F2 => 13,
            Square::G2 => 14,
            Square::H2 => 15,
            Square::A3 => 16,
            Square::B3 => 17,
            Square::C3 => 18,
            Square::D3 => 19,
            Square::E3 => 20,
            Square::F3 => 21,
            Square::G3 => 22,
            Square::H3 => 23,
            Square::A4 => 24,
            Square::B4 => 25,
            Square::C4 => 26,
            Square::D4 => 27,
            Square::E4 => 28,
            Square::F4 => 29,
            Square::G4 => 30,
            Square::H4 => 31,
            Square::A5 => 32,
            Square::B5 => 33,
            Square::C5 => 34,
            Square::D5 => 35,
            Square::E5 => 36,
            Square::F5 => 37,
            Square::G5 => 38,
            Square::H5 => 39,
            Square::A6 => 40,
            Square::B6 => 41,
            Square::C6 => 42,
            Square::D6 => 43,
            Square::E6 => 44,
            Square::F6 => 45,
            Square::G6 => 46,
            Square::H6 => 47,
            Square::A7 => 48,
            Square::B7 => 49,
            Square::C7 => 50,
            Square::D7 => 51,
            Square::E7 => 52,
            Square::F7 => 53,
            Square::G7 => 54,
            Square::H7 => 55,
            Square::A8 => 56,
            Square::B8 => 57,
            Square::C8 => 58,
            Square::D8 => 59,
            Square::E8 => 60,
            Square::F8 => 61,
            Square::G8 => 62,
            Square::H8 => 63,
            Square::Unset => 64,
        }
    }

    /// The square with flat index `i`; `Unset` when `i` is not in `0..64`.
    #[verifier::opaque]
    pub open spec fn of_index(i: int) -> Square {
        if i == 0 {
            Square::A1
        } else if i == 1 {
            Square::B1
        } else if i == 2 {
            Square::C1
        } else if i == 3 {
            Square::D1
        } else if i == 4 {
            Square::E1
        } else if i == 5 {
            Square::F1
        } else if i == 6 {
            Square::G1
        } else if i == 7 {
            Square::H1
        } else if i == 8 {
            Square::A2
        } else if i == 9 {
            Square::B2
        } else if i == 10 {
            Square::C2
        } else if i == 11 {
            Square::D2
        } else if i == 12 {
            Square::E2
        } else if i == 13 {
            Square::F2
        } else if i == 14 {
            Square::G2
        } else if i == 15 {
            Square::H2
        } else if i == 16 {
            Square::A3
        } else if i == 17 {
            Square::B3
        } else if i == 18 {
            Square::C3
        } else if i == 19 {
            Square::D3
        } else if i == 20 {
            Square::E3
        } else if i == 21 {
            Square::F3
        } else if i == 22 {
            Square::G3
        } else if i == 23 {
            Square::H3
        } else if i == 24 {
            Square::A4
        } else if i == 25 {
            Square::B4
        } else if i == 26 {
            Square::C4
        } else if i == 27 {
            Square::D4
        } else if i == 28 {
            Square::E4
        } else if i == 29 {
            Square::F4
        } else if i == 30 {
            Square::G4
        } else if i == 31 {
            Square::H4
        } else if i == 32 {
            Square::A5
        } else if i == 33 {
            Square::B5
        } else if i == 34 {
            Square::C5
        } else if i == 35 {
            Square::D5
        } else if i == 36 {
            Square::E5
        } else if i == 37 {
            Square::F5
        } else if i == 38 {
            Square::G5
        } else if i == 39 {
            Square::H5
        } else if i == 40 {
            Square::A6
        } else if i == 41 {
            Square::B6
        } else if i == 42 {
            Square::C6
        } else if i == 43 {
            Square::D6
        } else if i == 44 {
            Square::E6
        } else if i == 45 {
            Square::F6
        } else if i == 46 {
            Square::G6
        } else if i == 47 {
            Square::H6
        } else if i == 48 {
            Square::A7
        } else if i == 49 {
            Square::B7
        } else if i == 50 {
            Square::C7
        } else if i == 51 {
            Square::D7
        } else if i == 52 {
            Square::E7
        } else if i == 53 {
            Square::F7
        } else if i == 54 {
            Square::G7
        } else if i == 55 {
            Square::H7
        } else if i == 56 {
            Square::A8
        } else if i == 57 {
            Square::B8
        } else if i == 58 {
            Square::C8
        } else if i == 59 {
            Square::D8
        } else if i == 60 {
            Square::E8
        } else if i == 61 {
            Square::F8
        } else if i == 62 {
            Square::G8
        } else if i == 63 {
            Square::H8
        } else {
            Square::Unset
        }
    }

    /// The square on the given file and rank; `Unset` when either is outside `0..8`.
    pub open spec fn at(file: int, rank: int) -> Square {
        if 0 <= file < 8 && 0 <= rank < 8 {
            Square::of_index(rank * 8 + file)
        } else {
            Square::Unset
        }
    }

    /// The file (column) of the square, 0 for the A file; -1 for `Unset`.
    pub open spec fn file(self) -> int {
        if self == Square::Unset {
            -1
        } else {
            self.index() % 8
        }
    }

    /// The rank (row) of the square, 0 for the first rank; -1 for `Unset`.
    pub open spec fn rank(self) -> int {
        if self == Square::Unset {
            -1
        } else {
            self.index() / 8
        }
    }

    /// The two-letter name of the square, such as `E2`; `-` for `Unset`.
    pub open spec fn name_of(self) -> Seq<char> {
        match self {
            Square::A1 => "A1"@,
            Square::B1 => "B1"@,
            Square::C1 => "C1"@,
            Square::D1 => "D1"@,
            Square::E1 => "E1"@,
            Square::F1 => "F1"@,
            Square::G1 => "G1"@,
            Square::H1 => "H1"@,
            Square::A2 => "A2"@,
            Square::B2 => "B2"@,
            Square::C2 => "C2"@,
            Square::D2 => "D2"@,
            Square::E2 => "E2"@,
            Square::F2 => "F2"@,
            Square::G2 => "G2"@,
            Square::H2 => "H2"@,
            Square::A3 => "A3"@,
            Square::B3 => "B3"@,
            Square::C3 => "C3"@,
            Square::D3 => "D3"@,
            Square::E3 => "E3"@,
            Square::F3 => "F3"@,
            Square::G3 => "G3"@,
            Square::H3 => "H3"@,
            Square::A4 => "A4"@,
            Square::B4 => "B4"@,
            Square::C4 => "C4"@,
            Square::D4 => "D4"@,
            Square::E4 => "E4"@,
            Square::F4 => "F4"@,
            Square::G4 => "G4"@,
            Square::H4 => "H4"@,
            Square::A5 => "A5"@,
            Square::B5 => "B5"@,
            Square::C5 => "C5"@,
            Square::D5 => "D5"@,
            Square::E5 => "E5"@,
            Square::F5 => "F5"@,
            Square::G5 => "G5"@,
            Square::H5 => "H5"@,
            Square::A6 => "A6"@,
            Square::B6 => "B6"@,
            Square::C6 => "C6"@,
            Square::D6 => "D6"@,
            Square::E6 => "E6"@,
            Square::F6 => "F6"@,
            Square::G6 => "G6"@,
            Square::H6 => "H6"@,
            Square::A7 => "A7"@,
            Square::B7 => "B7"@,
            Square::C7 => "C7"@,
            Square::D7 => "D7"@,
            Square::E7 => "E7"@,
            Square::F7 => "F7"@,
            Square::G7 => "G7"@,
            Square::H7 => "H7"@,
            Square::A8 => "A8"@,
            Square::B8 => "B8"@,
            Square::C8 => "C8"@,
            Square::D8 => "D8"@,
            Square::E8 => "E8"@,
            Square::F8 => "F8"@,
            Square::G8 => "G8"@,
            Square::H8 => "H8"@,
            Square::Unset => "-"@,
        }
    }

    /// The index is in `0..=64`, only `Unset` has index 64, and `of_index` inverts `index`.
    pub proof fn lemma_index(self)
        ensures
            0 <= self.index() <= 64,
            self.index() == 64 <==> self == Square::Unset,
            Square::of_index(self.index()) == self,
    {
        reveal(Square::index);
        reveal(Square::of_index);
    }

    /// `index` inverts `of_index` on `0..64`; everything else maps to `Unset`.
    pub proof fn lemma_of_index(i: int)
        ensures
            0 <= i < 64 ==> Square::of_index(i).index() == i,
            !(0 <= i < 64) ==> Square::of_index(i) == Square::Unset,
    {
        reveal(Square::index);
        reveal(Square::of_index);
    }

    /// On the board, `at` yields a square with exactly the given file and rank.
    pub proof fn lemma_at(file: int, rank: int)
        ensures
            0 <= file < 8 && 0 <= rank < 8 ==> {
                &&& Square::at(file, rank) != Square::Unset
                &&& Square::at(file, rank).file() == file
                &&& Square::at(file, rank).rank() == rank
                &&& Square::at(file, rank).index() == rank * 8 + file
            },
            !(0 <= file < 8 && 0 <= rank < 8) ==> Square::at(file, rank) == Square::Unset,
    {
        if 0 <= file < 8 && 0 <= rank < 8 {
            Square::lemma_of_index(rank * 8 + file);
            Square::of_index(rank * 8 + file).lemma_index();
        }
    }

    /// A square on the board is determined by its file and rank, both in `0..8`.
    pub proof fn lemma_coordinates(self)
        ensures
            self != Square::Unset ==> {
                &&& 0 <= self.file() < 8
                &&& 0 <= self.rank() < 8
                &&& Square::at(self.file(), self.rank()) == self
            },
            self == Square::Unset ==> self.file() == -1 && self.rank() == -1,
    {
        self.lemma_index();
    }

    /// Builds the square on `position.0` (file) and `position.1` (rank).
    /// Coordinates outside the board give `Unset`.
    pub fn from_position(position: (i32, i32)) -> (square: Square)
        ensures
            square == Square::at(position.0 as int, position.1 as int),
    {
        let file: i32 = position.0;
        let rank: i32 = position.1;
        if 0 <= file && file < 8 && 0 <= rank && rank < 8 {
            Square::from_index((rank * 8 + file) as usize)
        } else {
            Square::Unset
        }
    }

    /// Builds the square with the given flat index; an index of 64 or more gives `Unset`.
    pub fn from_index(index: usize) -> (square: Square)
        ensures
            square == Square::of_index(index as int),
    {
        proof {
            reveal(Square::of_index);
        }
        match index {
            0 => Square::A1,
            1 => Square::B1,
            2 => Square::C1,
            3 => Square::D1,
            4 => Square::E1,
            5 => Square::F1,
            6 => Square::G1,
            7 => Square::H1,
            8 => Square::A2,
            9 => Square::B2,
            10 => Square::C2,
            11 => Square::D2,
            12 => Square::E2,
            13 => Square::F2,
            14 => Square::G2,
            15 => Square::H2,
            16 => Square::A3,
            17 => Square::B3,
            18 => Square::C3,
            19 => Square::D3,
            20 => Square::E3,
            21 => Square::F3,
            22 => Square::G3,
            23 => Square::H3,
            24 => Square::A4,
            25 => Square::B4,
            26 => Square::C4,
            27 => Square::D4,
            28 => Square::E4,
            29 => Square::F4,
            30 => Square::G4,
            31 => Square::H4,
            32 => Square::A5,
            33 => Square::B5,
            34 => Square::C5,
            35 => Square::D5,
            36 => Square::E5,
            37 => Square::F5,
            38 => Square::G5,
            39 => Square::H5,
            40 => Square::A6,
            41 => Square::B6,
            42 => Square::C6,
            43 => Square::D6,
            44 => Square::E6,
            45 => Square::F6,
            46 => Square::G6,
            47 => Square::H6,
            48 => Square::A7,
            49 => Square::B7,
            50 => Square::C7,
            51 => Square::D7,
            52 => Square::E7,
            53 => Square::F7,
            54 => Square::G7,
            55 => Square::H7,
            56 => Square::A8,
            57 => Square::B8,
            58 => Square::C8,
            59 => Square::D8,
            60 => Square::E8,
            61 => Square::F8,
            62 => Square::G8,
            63 => Square::H8,
            _ => Square::Unset,
        }
    }

    /// The flat index of the square; 64 for `Unset`.
    pub fn to_index(&self) -> (index: usize)
        ensures
            index == self.index(),
    {
        proof {
            reveal(Square::index);
        }
        match self {
            Square::A1 => 0,
            Square::B1 => 1,
            Square::C1 => 2,
            Square::D1 => 3,
            Square::E1 => 4,
            Square::F1 => 5,
            Square::G1 => 6,
            Square::H1 => 7,
            Square::A2 => 8,
            Square::B2 => 9,
            Square::C2 => 10,
            Square::D2 => 11,
            Square::E2 => 12,
            Square::F2 => 13,
            Square::G2 => 14,
            Square::H2 => 15,
            Square::A3 => 16,
            Square::B3 => 17,
            Square::C3 => 18,
            Square::D3 => 19,
            Square::E3 => 20,
            Square::F3 => 21,
            Square::G3 => 22,
            Square::H3 => 23,
            Square::A4 => 24,
            Square::B4 => 25,
            Square::C4 => 26,
            Square::D4 => 27,
            Square::E4 => 28,
            Square::F4 => 29,
            Square::G4 => 30,
            Square::H4 => 31,
            Square::A5 => 32,
            Square::B5 => 33,
            Square::C5 => 34,
            Square::D5 => 35,
            Square::E5 => 36,
            Square::F5 => 37,
            Square::G5 => 38,
            Square::H5 => 39,
            Square::A6 => 40,
            Square::B6 => 41,
            Square::C6 => 42,
            Square::D6 => 43,
            Square::E6 => 44,
            Square::F6 => 45,
            Square::G6 => 46,
            Square::H6 => 47,
            Square::A7 => 48,
            Square::B7 => 49,
            Square::C7 => 50,
            Square::D7 => 51,
            Square::E7 => 52,
            Square::F7 => 53,
            Square::G7 => 54,
            Square::H7 => 55,
            Square::A8 => 56,
            Square::B8 => 57,
            Square::C8 => 58,
            Square::D8 => 59,
            Square::E8 => 60,
            Square::F8 => 61,
            Square::G8 => 62,
            Square::H8 => 63,
            Square::Unset => 64,
        }
    }

    /// The file of the square, 0 to 7; -1 for `Unset`.
    pub fn get_file(&self) -> (file: i32)
        ensures
            file == self.file(),
    {
        proof {
            self.lemma_index();
        }
        let index: usize = self.to_index();
        if index >= 64 {
            -1
        } else {
            (index % 8) as i32
        }
    }

    /// The rank of the square, 0 to 7; -1 for `Unset`.
    pub fn get_rank(&self) -> (rank: i32)
        ensures
            rank == self.rank(),
    {
        proof {
            self.lemma_index();
        }
        let index: usize = self.to_index();
        if index >= 64 {
            -1
        } else {
            (index / 8) as i32
        }
    }

    /// The file and rank of the square as a pair.
    pub fn to_position(&self) -> (position: (i32, i32))
        ensures
            position.0 == self.file(),
            position.1 == self.rank(),
    {
        (self.get_file(), self.get_rank())
    }

    /// Whether this is the off-board value.
    pub fn is_none(&self) -> (none: bool)
        ensures
            none == (*self == Square::Unset),
    {
        match self {
            Square::Unset => true,
            _ => false,
        }
    }

    /// The name of the square as text, such as `E2`; `-` for `Unset`.
    pub fn name(&self) -> (text: &'static str)
        ensures
            text@ == self.name_of(),
    {
        match self {
            Square::A1 => "A1",
            Square::B1 => "B1",
            Square::C1 => "C1",
            Square::D1 => "D1",
            Square::E1 => "E1",
            Square::F1 => "F1",
            Square::G1 => "G1",
            Square::H1 => "H1",
            Square::A2 => "A2",
            Square::B2 => "B2",
            Square::C2 => "C2",
            Square::D2 => "D2",
            Square::E2 => "E2",
            Square::F2 => "F2",
            Square::G2 => "G2",
            Square::H2 => "H2",
            Square::A3 => "A3",
            Square::B3 => "B3",
            Square::C3 => "C3",
            Square::D3 => "D3",
            Square::E3 => "E3",
            Square::F3 => "F3",
            Square::G3 => "G3",
            Square::H3 => "H3",
            Square::A4 => "A4",
            Square::B4 => "B4",
            Square::C4 => "C4",
            Square::D4 => "D4",
            Square::E4 => "E4",
            Square::F4 => "F4",
            Square::G4 => "G4",
            Square::H4 => "H4",
            Square::A5 => "A5",
            Square::B5 => "B5",
            Square::C5 => "C5",
            Square::D5 => "D5",
            Square::E5 => "E5",
            Square::F5 => "F5",
            Square::G5 => "G5",
            Square::H5 => "H5",
            Square::A6 => "A6",
            Square::B6 => "B6",
            Square::C6 => "C6",
            Square::D6 => "D6",
            Square::E6 => "E6",
            Square::F6 => "F6",
            Square::G6 => "G6",
            Square::H6 => "H6",
            Square::A7 => "A7",
            Square::B7 => "B7",
            Square::C7 => "C7",
            Square::D7 => "D7",
            Square::E7 => "E7",
            Square::F7 => "F7",
            Square::G7 => "G7",
            Square::H7 => "H7",
            Square::A8 => "A8",
            Square::B8 => "B8",
            Square::C8 => "C8",
            Square::D8 => "D8",
            Square::E8 => "E8",
            Square::F8 => "F8",
            Square::G8 => "G8",
            Square::H8 => "H8",
            Square::Unset => "-",
        }
    }
}

} // verus!

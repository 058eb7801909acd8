//! Chess as a game the engine can search: a position is the chess crate's
//! board, carried opaquely; everything the search logic reads from it
//! (moves, status, side to move, hash) comes out as plain values through
//! trusted wrappers.

use vstd::prelude::*;
use vstd::string::StringExecFns;
use crate::traits::GameState;

verus! {

#[derive(Clone, Copy, Debug, PartialEq, Eq, Structural, Hash)]
pub enum Color {
    White,
    Black,
}

#[derive(Clone, Copy, Debug, PartialEq, Eq, Structural)]
pub enum BoardStatus {
    Ongoing,
    Stalemate,
    Checkmate,
}

#[derive(Clone, Copy, Debug, PartialEq, Eq, Structural, Hash)]
pub enum Promotion {
    NoPromotion,
    ToKnight,
    ToBishop,
    ToRook,
    ToQueen,
}

/// A move as plain values: source and destination square indices
/// (`file + 8 * rank`) and an optional promotion piece.
#[derive(Clone, Copy, Debug, PartialEq, Eq, Structural, Hash)]
pub struct ChessMove {
    pub from: u8,
    pub to: u8,
    pub promotion: Promotion,
}

#[verifier::external_type_specification]
#[verifier::external_body]
pub struct ExBoard(chess::Board);

/// The legal moves of a board, in the move generator's order.
pub uninterp spec fn board_moves(b: chess::Board) -> Seq<ChessMove>;

/// The board a legal move leads to.
pub uninterp spec fn board_after(b: chess::Board, m: ChessMove) -> chess::Board;

/// Whether a board is ongoing, stalemate or checkmate.
pub uninterp spec fn board_status(b: chess::Board) -> BoardStatus;

/// The side to move.
pub uninterp spec fn board_turn(b: chess::Board) -> Color;

/// The Zobrist key of a board.
pub uninterp spec fn board_key(b: chess::Board) -> u64;

/// How many pieces stand on a board.
pub uninterp spec fn board_piece_count(b: chess::Board) -> u32;

/// The position a FEN string names, when it parses.
pub uninterp spec fn board_of_fen(fen: Seq<char>) -> Option<chess::Board>;

/// Relies on `chess::Board`'s `FromStr` impl: parses a FEN string, a pure
/// function of the text.
#[verifier::external_body]
fn parse_fen(fen: &str) -> (r: Option<chess::Board>)
    ensures
        r == board_of_fen(fen@),
{
    <chess::Board as core::str::FromStr>::from_str(fen).ok()
}

/// Relies on `chess::Board` being `Copy`: duplicates a board value.
#[verifier::external_body]
fn board_clone(b: &chess::Board) -> (r: chess::Board)
    ensures
        r == *b,
{
    *b
}

/// Relies on `chess::MoveGen::new_legal` and `chess::ChessMove`'s
/// accessors: the legal moves, converted one for one to plain values.
/// Move generation is a pure function of the board.
#[verifier::external_body]
fn board_moves_exec(b: &chess::Board) -> (r: Vec<ChessMove>)
    ensures
        r@ == board_moves(*b),
        forall|i: int| 0 <= i < r@.len() ==> (#[trigger] r@[i]).from < 64 && r@[i].to < 64,
{
    chess::MoveGen::new_legal(b).map(|m| ChessMove {
        from: m.get_source().to_index() as u8,
        to: m.get_dest().to_index() as u8,
        promotion: match m.get_promotion() {
            Some(chess::Piece::Knight) => Promotion::ToKnight,
            Some(chess::Piece::Bishop) => Promotion::ToBishop,
            Some(chess::Piece::Rook) => Promotion::ToRook,
            Some(chess::Piece::Queen) => Promotion::ToQueen,
            _ => Promotion::NoPromotion,
        },
    }).collect()
}

/// Relies on `chess::Board::status`, which derives the verdict from the
/// legal move count: a board is ongoing exactly when it has a legal move.
#[verifier::external_body]
fn board_status_exec(b: &chess::Board) -> (r: BoardStatus)
    ensures
        r == board_status(*b),
        (r == BoardStatus::Ongoing) <==> board_moves(*b).len() > 0,
{
    match b.status() {
        chess::BoardStatus::Ongoing => BoardStatus::Ongoing,
        chess::BoardStatus::Stalemate => BoardStatus::Stalemate,
        chess::BoardStatus::Checkmate => BoardStatus::Checkmate,
    }
}

/// Relies on `chess::Board::side_to_move`.
#[verifier::external_body]
fn board_turn_exec(b: &chess::Board) -> (r: Color)
    ensures
        r == board_turn(*b),
{
    match b.side_to_move() {
        chess::Color::White => Color::White,
        chess::Color::Black => Color::Black,
    }
}

/// Relies on `chess::Board::get_hash`: the Zobrist key, a pure function of
/// the position.
#[verifier::external_body]
fn board_key_exec(b: &chess::Board) -> (r: u64)
    ensures
        r == board_key(*b),
{
    b.get_hash()
}

/// Relies on `chess::Board::combined` and `chess::BitBoard::popcnt`.
#[verifier::external_body]
fn board_piece_count_exec(b: &chess::Board) -> (r: u32)
    ensures
        r == board_piece_count(*b),
{
    b.combined().popcnt()
}

/// Relies on `chess::Board::make_move_new`, which requires a legal move.
#[verifier::external_body]
fn board_make_exec(b: &chess::Board, m: &ChessMove) -> (r: chess::Board)
    requires
        board_moves(*b).contains(*m),
        m.from < 64,
        m.to < 64,
    ensures
        r == board_after(*b, *m),
{
    let promo = match m.promotion {
        Promotion::ToKnight => Some(chess::Piece::Knight),
        Promotion::ToBishop => Some(chess::Piece::Bishop),
        Promotion::ToRook => Some(chess::Piece::Rook),
        Promotion::ToQueen => Some(chess::Piece::Queen),
        Promotion::NoPromotion => None,
    };
    b.make_move_new(chess::ChessMove::new(
        chess::ALL_SQUARES[m.from as usize],
        chess::ALL_SQUARES[m.to as usize],
        promo,
    ))
}

fn contains_move(v: &Vec<ChessMove>, x: &ChessMove) -> (r: bool)
    ensures
        r == v@.contains(*x),
{
    let mut i: usize = 0;
    while i < v.len()
        invariant
            i <= v@.len(),
            forall|j: int| 0 <= j < i ==> v@[j] != *x,
        decreases v@.len() - i,
    {
        if v[i] == *x {
            return true;
        }
        i = i + 1;
    }
    false
}

/// A chess position.
pub struct ChessState {
    pub board: chess::Board,
}

impl ChessState {
    /// Parses a FEN position.
    pub fn from_fen(fen: &str) -> (r: Option<ChessState>)
        ensures
            r is Some <==> board_of_fen(fen@) is Some,
            r is Some ==> r->Some_0.board == board_of_fen(fen@)->Some_0,
    {
        match parse_fen(fen) {
            Some(b) => Some(ChessState { board: b }),
            None => None,
        }
    }

    pub fn status(&self) -> (r: BoardStatus)
        ensures
            r == board_status(self.board),
    {
        board_status_exec(&self.board)
    }

    pub fn piece_count(&self) -> (r: u32)
        ensures
            r == board_piece_count(self.board),
    {
        board_piece_count_exec(&self.board)
    }
}

impl GameState for ChessState {
    type Move = ChessMove;

    type Player = Color;

    open spec fn next_state(self, m: ChessMove) -> ChessState {
        ChessState { board: board_after(self.board, m) }
    }

    open spec fn spec_moves(self) -> Seq<ChessMove> {
        board_moves(self.board)
    }

    open spec fn spec_player(self) -> Color {
        board_turn(self.board)
    }

    open spec fn spec_hash(self) -> u64 {
        board_key(self.board)
    }

    fn clone_state(&self) -> ChessState {
        ChessState { board: board_clone(&self.board) }
    }

    fn clone_move(m: &ChessMove) -> ChessMove {
        *m
    }

    fn current_player(&self) -> Color {
        board_turn_exec(&self.board)
    }

    fn available_moves(&self) -> Vec<ChessMove> {
        board_moves_exec(&self.board)
    }

    fn make_move(&mut self, m: &ChessMove) {
        let moves = board_moves_exec(&self.board);
        if contains_move(&moves, m) {
            proof {
                let i = choose|i: int| 0 <= i < moves@.len() && moves@[i] == *m;
                assert(moves@[i].from < 64 && moves@[i].to < 64);
            }
            self.board = board_make_exec(&self.board, m);
        }
    }

    fn hash(&self) -> u64 {
        board_key_exec(&self.board)
    }
}

/// The file letter of a square index.
pub open spec fn file_char(f: int) -> char {
    if f == 0 {
        'a'
    } else if f == 1 {
        'b'
    } else if f == 2 {
        'c'
    } else if f == 3 {
        'd'
    } else if f == 4 {
        'e'
    } else if f == 5 {
        'f'
    } else if f == 6 {
        'g'
    } else {
        'h'
    }
}

/// The rank digit of a square index.
pub open spec fn rank_char(r: int) -> char {
    if r == 0 {
        '1'
    } else if r == 1 {
        '2'
    } else if r == 2 {
        '3'
    } else if r == 3 {
        '4'
    } else if r == 4 {
        '5'
    } else if r == 5 {
        '6'
    } else if r == 6 {
        '7'
    } else {
        '8'
    }
}

pub open spec fn promotion_chars(p: Promotion) -> Seq<char> {
    match p {
        Promotion::NoPromotion => Seq::empty(),
        Promotion::ToKnight => seq!['n'],
        Promotion::ToBishop => seq!['b'],
        Promotion::ToRook => seq!['r'],
        Promotion::ToQueen => seq!['q'],
    }
}

/// The UCI text of a move: source square, destination square, and the
/// promotion letter if any.
pub open spec fn spec_uci(m: ChessMove) -> Seq<char> {
    seq![
        file_char(m.from as int % 64 % 8),
        rank_char(m.from as int % 64 / 8),
        file_char(m.to as int % 64 % 8),
        rank_char(m.to as int % 64 / 8),
    ] + promotion_chars(m.promotion)
}

fn file_str(f: u8) -> (r: &'static str)
    requires
        f < 8,
    ensures
        r@ == seq![file_char(f as int)],
{
    proof {
        reveal_strlit("a");
        reveal_strlit("b");
        reveal_strlit("c");
        reveal_strlit("d");
        reveal_strlit("e");
        reveal_strlit("f");
        reveal_strlit("g");
        reveal_strlit("h");
    }
    let r = match f {
        0 => "a",
        1 => "b",
        2 => "c",
        3 => "d",
        4 => "e",
        5 => "f",
        6 => "g",
        _ => "h",
    };
    proof {
        assert(r@ =~= seq![file_char(f as int)]);
    }
    r
}

fn rank_str(k: u8) -> (r: &'static str)
    requires
        k < 8,
    ensures
        r@ == seq![rank_char(k as int)],
{
    proof {
        reveal_strlit("1");
        reveal_strlit("2");
        reveal_strlit("3");
        reveal_strlit("4");
        reveal_strlit("5");
        reveal_strlit("6");
        reveal_strlit("7");
        reveal_strlit("8");
    }
    let r = match k {
        0 => "1",
        1 => "2",
        2 => "3",
        3 => "4",
        4 => "5",
        5 => "6",
        6 => "7",
        _ => "8",
    };
    proof {
        assert(r@ =~= seq![rank_char(k as int)]);
    }
    r
}

fn promotion_str(p: Promotion) -> (r: &'static str)
    ensures
        r@ == promotion_chars(p),
{
    proof {
        reveal_strlit("");
        reveal_strlit("n");
        reveal_strlit("b");
        reveal_strlit("r");
        reveal_strlit("q");
    }
    let r = match p {
        Promotion::NoPromotion => "",
        Promotion::ToKnight => "n",
        Promotion::ToBishop => "b",
        Promotion::ToRook => "r",
        Promotion::ToQueen => "q",
    };
    proof {
        assert(r@ =~= promotion_chars(p));
    }
    r
}

impl ChessMove {
    /// The move in UCI notation, e.g. a rook promotion as `g7f8r`.
    pub fn uci(&self) -> (r: String)
        ensures
            r@ == spec_uci(*self),
    {
        let from = self.from % 64;
        let to = self.to % 64;
        let mut s = String::new();
        s.append(file_str(from % 8));
        s.append(rank_str(from / 8));
        s.append(file_str(to % 8));
        s.append(rank_str(to / 8));
        s.append(promotion_str(self.promotion));
        proof {
            assert(s@ =~= spec_uci(*self));
        }
        s
    }
}

} // verus!

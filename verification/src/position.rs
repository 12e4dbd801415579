//! The board as the search sees it.
//!
//! A [`chess::Board`] is opaque to the verifier. Its mathematical model is a
//! [`BoardView`]; the functions in this module that call the `chess` crate
//! state what they return over that model, and those contracts are taken on
//! trust from the crate's source. What is computed from their answers is
//! proved.

use vstd::prelude::*;

verus! {

/// The kind of a chess piece.
#[derive(Clone, Copy, Debug, PartialEq, Eq, Structural, PartialOrd, Hash)]
pub enum PieceKind {
    Pawn,
    Knight,
    Bishop,
    Rook,
    Queen,
    King,
}

/// One of the two players.
#[derive(Clone, Copy, Debug, PartialEq, Eq, Structural, PartialOrd, Hash)]
pub enum Side {
    White,
    Black,
}

impl Side {
    /// The opponent of this player.
    pub open spec fn other(self) -> Side {
        match self {
            Side::White => Side::Black,
            Side::Black => Side::White,
        }
    }

    /// The opponent of this player.
    pub fn opponent(self) -> (side: Side)
        ensures
            side == self.other(),
    {
        match self {
            Side::White => Side::Black,
            Side::Black => Side::White,
        }
    }
}

/// A piece standing on a square.
#[derive(Clone, Copy, Debug, PartialEq, Eq, Structural, PartialOrd, Hash)]
pub struct Occupant {
    pub kind: PieceKind,
    pub side: Side,
}

/// A move: the index of the square left, the index of the square reached, and
/// the piece a pawn turns into where it promotes. Squares are numbered from
/// 0 (`a1`) along the ranks to 63 (`h8`).
#[derive(Clone, Copy, Debug, PartialEq, Eq, Structural, PartialOrd, Hash)]
pub struct Move {
    pub source: u8,
    pub dest: u8,
    pub promotion: Option<PieceKind>,
}

/// Whether the game goes on in a position, and how it ended if not.
#[derive(Clone, Copy, Debug, PartialEq, Eq, Structural, PartialOrd, Hash)]
pub enum Status {
    Ongoing,
    Stalemate,
    Checkmate,
}

/// What a board records.
pub struct BoardView {
    /// The occupant of each of the 64 squares, `a1` first and `h8` last.
    pub squares: Seq<Option<Occupant>>,
    /// The player whose turn it is.
    pub side_to_move: Side,
    /// The squares of the pieces that give check to the player to move.
    pub checkers: Set<int>,
    /// The squares of the pieces that are pinned to the king of the player to move.
    pub pinned: Set<int>,
    /// For White and then for Black: may the king still castle on the king's
    /// side, and on the queen's side.
    pub castling: Seq<bool>,
    /// The square of a pawn that may be taken in passing, if there is one.
    pub en_passant: Option<int>,
}

impl BoardView {
    /// The kind of the piece on `square`, if one stands there.
    pub open spec fn kind_at(self, square: int) -> Option<PieceKind> {
        match self.squares[square] {
            Some(occupant) => Some(occupant.kind),
            None => None,
        }
    }

    /// The owner of the piece on `square`, if one stands there.
    pub open spec fn side_at(self, square: int) -> Option<Side> {
        match self.squares[square] {
            Some(occupant) => Some(occupant.side),
            None => None,
        }
    }

    /// A piece of kind `kind` owned by `side` stands on `square`.
    pub open spec fn holds(self, square: int, kind: PieceKind, side: Side) -> bool {
        self.squares[square] == Some(Occupant { kind, side })
    }

    /// The player to move is in check.
    pub open spec fn in_check(self) -> bool {
        exists|square: int| 0 <= square < 64 && self.checkers.contains(square)
    }
}

/// The largest number of pieces that a side has in a game.
pub const MAX_PIECES: u8 = 16;

/// 1 if a piece of `side` stands on `square`, else 0.
pub open spec fn square_piece(view: BoardView, side: Side, square: int) -> int {
    if view.side_at(square) == Some(side) {
        1
    } else {
        0
    }
}

/// The number of pieces of `side` on the squares below `limit`.
pub open spec fn pieces_below(view: BoardView, side: Side, limit: int) -> int
    decreases limit,
{
    if limit <= 0 {
        0
    } else {
        pieces_below(view, side, limit - 1) + square_piece(view, side, limit - 1)
    }
}

/// The number of pieces of `side`.
pub open spec fn piece_count(view: BoardView, side: Side) -> int {
    pieces_below(view, side, 64)
}

/// Neither side has more pieces than a side has in a game. The move
/// generator of the `chess` crate has room for the moves of so many pieces
/// and no more.
pub open spec fn within_piece_limit(view: BoardView) -> bool {
    piece_count(view, Side::White) <= MAX_PIECES && piece_count(view, Side::Black) <= MAX_PIECES
}

/// The square onto which a pawn of the player to move steps when it takes
/// the pawn on `square` in passing: the next square on its file, as that
/// player sees the board.
pub open spec fn passing_target(view: BoardView, square: int) -> int {
    match view.side_to_move {
        Side::White => square + 8,
        Side::Black => square - 8,
    }
}

/// Does `mv` take a pawn in passing? It does where a pawn may be taken so,
/// and a pawn steps from another file onto the empty square behind it.
pub open spec fn takes_in_passing(view: BoardView, mv: Move) -> bool {
    match view.en_passant {
        Some(square) => mv.source < 64 && mv.dest < 64 && mv.dest == passing_target(view, square)
            && view.kind_at(mv.source as int) == Some(PieceKind::Pawn) && view.squares[mv.dest as int]
            == None::<Occupant> && mv.source % 8 != mv.dest % 8,
        None => false,
    }
}

/// Does `mv` capture a piece of the opponent of the player to move? It does
/// where it ends on a square that the opponent holds, or takes a pawn in
/// passing.
pub open spec fn is_capture(view: BoardView, mv: Move) -> bool {
    (mv.dest < 64 && view.side_at(mv.dest as int) == Some(view.side_to_move.other()))
        || takes_in_passing(view, mv)
}

/// The kind of the piece that a capture takes.
pub open spec fn captured_kind(view: BoardView, mv: Move) -> PieceKind {
    match view.kind_at(mv.dest as int) {
        Some(kind) => kind,
        None => PieceKind::Pawn,
    }
}

/// The captures among `moves`, in their order.
pub open spec fn captures_among(view: BoardView, moves: Seq<Move>) -> Seq<Move>
    decreases moves.len(),
{
    if moves.len() == 0 {
        Seq::empty()
    } else if is_capture(view, moves.last()) {
        captures_among(view, moves.drop_last()).push(moves.last())
    } else {
        captures_among(view, moves.drop_last())
    }
}

/// The legal moves in a position that capture, in the order of the legal moves.
pub open spec fn capture_moves_of(view: BoardView) -> Seq<Move> {
    captures_among(view, legal_moves_of(view))
}

/// A capture among `moves` is one of `moves`, and a capture; and every
/// capture of `moves` is among them.
pub proof fn captures_are_the_captures(view: BoardView, moves: Seq<Move>)
    ensures
        forall|i: int|
            0 <= i < captures_among(view, moves).len() ==> moves.contains(
                #[trigger] captures_among(view, moves)[i],
            ) && is_capture(view, captures_among(view, moves)[i]),
        forall|mv: Move|
            #[trigger] moves.contains(mv) && is_capture(view, mv) ==> captures_among(
                view,
                moves,
            ).contains(mv),
    decreases moves.len(),
{
    if moves.len() > 0 {
        let front = moves.drop_last();
        let last = moves.last();
        captures_are_the_captures(view, front);
        let among = captures_among(view, moves);
        let before = captures_among(view, front);
        assert forall|i: int| 0 <= i < among.len() implies moves.contains(#[trigger] among[i])
            && is_capture(view, among[i]) by {
            if i < before.len() {
                assert(among[i] == before[i]);
                assert(front.contains(before[i]));
                let k = choose|k: int| 0 <= k < front.len() && front[k] == before[i];
                assert(moves[k] == before[i]);
            } else {
                assert(among[i] == last);
                assert(moves[moves.len() - 1] == last);
            }
        }
        assert forall|mv: Move| #[trigger] moves.contains(mv) && is_capture(view, mv) implies among.contains(
            mv,
        ) by {
            let k = choose|k: int| 0 <= k < moves.len() && moves[k] == mv;
            if k < front.len() {
                assert(front[k] == mv);
                assert(front.contains(mv));
                assert(before.contains(mv));
                let j = choose|j: int| 0 <= j < before.len() && before[j] == mv;
                assert(among[j] == mv);
            } else {
                assert(among[among.len() - 1] == mv);
            }
        }
    }
}

/// Bit number `square` of a bitboard is set.
pub open spec fn bit_is_set(bits: u64, square: int) -> bool {
    (bits >> (square as u64)) & 1 == 1
}

/// How the game stands in a position: it goes on while the player to move has
/// a legal move; without one it is checkmate if that player is in check, and
/// stalemate if not.
pub open spec fn status_of(view: BoardView) -> Status {
    if legal_moves_of(view).len() > 0 {
        Status::Ongoing
    } else if view.in_check() {
        Status::Checkmate
    } else {
        Status::Stalemate
    }
}

#[verifier::external_type_specification]
#[verifier::external_body]
pub struct ExBoard(chess::Board);

/// The record held by a board of the `chess` crate. It is read only of a
/// board that the crate takes for sane: on another board the crate's own
/// records of a square may disagree.
pub uninterp spec fn board_view(board: chess::Board) -> BoardView;

/// Does `chess::Board::is_sane` take the board with this record for sane?
/// It does where the records of the pieces agree, each side has one king,
/// the kings do not touch, the player who has moved is not in check, and
/// the castling rights and the pawn to be taken in passing are backed by
/// the pieces on the board.
pub uninterp spec fn sane_of(view: BoardView) -> bool;

/// A board that the search can work on: sane, and with no more pieces than
/// a game has.
pub open spec fn playable(view: BoardView) -> bool {
    sane_of(view) && within_piece_limit(view)
}

/// The legal moves in a position, in the order in which `chess::MoveGen`
/// yields them.
pub uninterp spec fn legal_moves_of(view: BoardView) -> Seq<Move>;

/// The position that a legal move leads to.
pub uninterp spec fn successor(view: BoardView, mv: Move) -> BoardView;

/// The 64-bit Zobrist fingerprint of a position.
pub uninterp spec fn fingerprint_of(view: BoardView) -> u64;

/// Calls `chess::Board::piece_on` for the square with index `square`, and
/// gives the kind of the piece that the board records there. It reads the
/// record of all pieces, which agrees with the record of the colours on a
/// sane board.
#[verifier::external_body]
pub(crate) fn piece_on(board: &chess::Board, square: u8) -> (kind: Option<PieceKind>)
    requires
        sane_of(board_view(*board)),
        square < 64,
    ensures
        kind == board_view(*board).kind_at(square as int),
{
    match board.piece_on(chess::ALL_SQUARES[square as usize])? {
        chess::Piece::Pawn => Some(PieceKind::Pawn),
        chess::Piece::Knight => Some(PieceKind::Knight),
        chess::Piece::Bishop => Some(PieceKind::Bishop),
        chess::Piece::Rook => Some(PieceKind::Rook),
        chess::Piece::Queen => Some(PieceKind::Queen),
        chess::Piece::King => Some(PieceKind::King),
    }
}

/// Calls `chess::Board::color_on` for the square with index `square`, and
/// gives the owner of the piece that the board records there. It reads the
/// record of the colours, which agrees with the record of all pieces on a
/// sane board.
#[verifier::external_body]
pub(crate) fn color_on(board: &chess::Board, square: u8) -> (side: Option<Side>)
    requires
        sane_of(board_view(*board)),
        square < 64,
    ensures
        side == board_view(*board).side_at(square as int),
{
    match board.color_on(chess::ALL_SQUARES[square as usize])? {
        chess::Color::White => Some(Side::White),
        chess::Color::Black => Some(Side::Black),
    }
}

/// Calls `chess::Board::side_to_move`.
#[verifier::external_body]
pub(crate) fn side_to_move(board: &chess::Board) -> (side: Side)
    requires
        sane_of(board_view(*board)),
    ensures
        side == board_view(*board).side_to_move,
{
    match board.side_to_move() {
        chess::Color::White => Side::White,
        chess::Color::Black => Side::Black,
    }
}

/// Calls `chess::Board::checkers` and gives the bitboard as an integer: bit
/// `s` is set exactly when the piece on the square with index `s` gives check.
#[verifier::external_body]
pub(crate) fn checkers(board: &chess::Board) -> (bits: u64)
    requires
        sane_of(board_view(*board)),
    ensures
        forall|square: int|
            0 <= square < 64 ==> (bit_is_set(bits, square) <==> #[trigger] board_view(
                *board,
            ).checkers.contains(square)),
{
    board.checkers().0
}

/// Calls `chess::Board::status`, which counts the legal moves and looks at the
/// checking pieces. The move generator writes beyond its list on a board
/// with more pieces than a game has, and may not return on a board that is
/// not sane, so only sane boards within that limit are admitted.
#[verifier::external_body]
pub(crate) fn board_status(board: &chess::Board) -> (status: Status)
    requires
        sane_of(board_view(*board)),
        within_piece_limit(board_view(*board)),
    ensures
        status == status_of(board_view(*board)),
{
    match board.status() {
        chess::BoardStatus::Ongoing => Status::Ongoing,
        chess::BoardStatus::Stalemate => Status::Stalemate,
        chess::BoardStatus::Checkmate => Status::Checkmate,
    }
}

/// Calls `chess::Board::get_hash`.
#[verifier::external_body]
pub(crate) fn board_hash(board: &chess::Board) -> (hash: u64)
    requires
        sane_of(board_view(*board)),
    ensures
        hash == fingerprint_of(board_view(*board)),
{
    board.get_hash()
}

/// Runs `chess::MoveGen::new_legal` to its end and gives the moves in the
/// order in which they came. The move generator writes beyond its list on a
/// board with more pieces than a game has, and may not return on a board
/// that is not sane, so only sane boards within that limit are admitted.
#[verifier::external_body]
pub(crate) fn legal_moves(board: &chess::Board) -> (moves: Vec<Move>)
    requires
        sane_of(board_view(*board)),
        within_piece_limit(board_view(*board)),
    ensures
        moves@ == legal_moves_of(board_view(*board)),
{
    chess::MoveGen::new_legal(board).map(|m| Move {
        source: m.get_source().to_int(),
        dest: m.get_dest().to_int(),
        promotion: m.get_promotion().map(|p| match p {
            chess::Piece::Pawn => PieceKind::Pawn,
            chess::Piece::Knight => PieceKind::Knight,
            chess::Piece::Bishop => PieceKind::Bishop,
            chess::Piece::Rook => PieceKind::Rook,
            chess::Piece::Queen => PieceKind::Queen,
            chess::Piece::King => PieceKind::King,
        }),
    }).collect()
}

/// Calls `chess::Board::make_move_new`. That function panics or corrupts the
/// board on a move that is not legal, and on a board that is not sane it
/// may do so on a move that the generator gives: so only sane boards and
/// their legal moves are admitted.
///
/// A legal move on a sane board leads to a sane board. It moves one piece,
/// may take one off and may turn a pawn into another piece; in castling it
/// moves the rook that the castling right stands for. It takes the castling
/// rights of a king or rook that moves or is taken, and records a pawn as
/// to be taken in passing only where it stands. The player who has moved is
/// not in check, nor next to the other king, because the move was legal. So
/// no piece is added either, and a board within the limit of pieces stays
/// within it.
#[verifier::external_body]
pub(crate) fn make_move(board: &chess::Board, mv: Move) -> (next: chess::Board)
    requires
        sane_of(board_view(*board)),
        legal_moves_of(board_view(*board)).contains(mv),
    ensures
        board_view(next) == successor(board_view(*board), mv),
        sane_of(board_view(next)),
        within_piece_limit(board_view(*board)) ==> within_piece_limit(board_view(next)),
{
    board.make_move_new(chess::ChessMove::new(
        chess::ALL_SQUARES[mv.source as usize],
        chess::ALL_SQUARES[mv.dest as usize],
        mv.promotion.map(|kind| match kind {
            PieceKind::Pawn => chess::Piece::Pawn,
            PieceKind::Knight => chess::Piece::Knight,
            PieceKind::Bishop => chess::Piece::Bishop,
            PieceKind::Rook => chess::Piece::Rook,
            PieceKind::Queen => chess::Piece::Queen,
            PieceKind::King => chess::Piece::King,
        }),
    ))
}

/// Calls `chess::Board::is_sane`, which may be asked of any board.
#[verifier::external_body]
pub(crate) fn is_sane(board: &chess::Board) -> (sane: bool)
    ensures
        sane == sane_of(board_view(*board)),
{
    board.is_sane()
}

/// Calls `chess::Board::en_passant`, which gives the square of the pawn
/// that may be taken in passing, if there is one.
#[verifier::external_body]
pub(crate) fn en_passant(board: &chess::Board) -> (square: Option<u8>)
    requires
        sane_of(board_view(*board)),
    ensures
        match square {
            Some(index) => index < 64 && board_view(*board).en_passant == Some(index as int),
            None => board_view(*board).en_passant == None::<int>,
        },
{
    board.en_passant().map(|square| square.to_int())
}

/// The number of pieces of `color` on `board`.
pub fn count_pieces(color: Side, board: &chess::Board) -> (count: u8)
    requires
        sane_of(board_view(*board)),
    ensures
        count == piece_count(board_view(*board), color),
{
    let ghost view = board_view(*board);
    let mut count: u8 = 0;
    let mut square: u8 = 0;
    while square < 64
        invariant
            square <= 64,
            view == board_view(*board),
            sane_of(view),
            count == pieces_below(view, color, square as int),
            count <= square,
        decreases 64 - square,
    {
        if let Some(side) = color_on(board, square) {
            if side == color {
                count = count + 1;
            }
        }
        square = square + 1;
    }
    count
}

/// Has neither side more pieces on `board` than a side has in a game?
pub fn fits_piece_limit(board: &chess::Board) -> (fits: bool)
    requires
        sane_of(board_view(*board)),
    ensures
        fits == within_piece_limit(board_view(*board)),
{
    count_pieces(Side::White, board) <= MAX_PIECES && count_pieces(Side::Black, board)
        <= MAX_PIECES
}

/// Can the search work on `board`? It can on a board that is sane and has
/// no more pieces than a game has. Every board of a game is such a board.
pub fn is_playable(board: &chess::Board) -> (yes: bool)
    ensures
        yes == playable(board_view(*board)),
{
    is_sane(board) && fits_piece_limit(board)
}

/// Does `mv` capture a piece of the opponent of the player to move?
pub fn captures(board: &chess::Board, mv: Move) -> (yes: bool)
    requires
        sane_of(board_view(*board)),
    ensures
        yes == is_capture(board_view(*board), mv),
{
    if mv.dest >= 64 {
        return false;
    }
    let mover = side_to_move(board);
    match color_on(board, mv.dest) {
        Some(owner) => owner == mover.opponent(),
        None => {
            if mv.source >= 64 || mv.source % 8 == mv.dest % 8 {
                return false;
            }
            match en_passant(board) {
                Some(square) => {
                    let reached = match mover {
                        Side::White => mv.dest >= 8 && mv.dest - 8 == square,
                        Side::Black => mv.dest < 56 && mv.dest + 8 == square,
                    };
                    reached && match piece_on(board, mv.source) {
                        Some(kind) => kind == PieceKind::Pawn,
                        None => false,
                    }
                },
                None => false,
            }
        },
    }
}

/// The legal moves on `board` that capture, in the order of the legal moves.
pub fn capture_moves(board: &chess::Board) -> (moves: Vec<Move>)
    requires
        sane_of(board_view(*board)),
        within_piece_limit(board_view(*board)),
    ensures
        moves@ == capture_moves_of(board_view(*board)),
        forall|i: int|
            0 <= i < moves.len() ==> legal_moves_of(board_view(*board)).contains(
                #[trigger] moves[i],
            ) && is_capture(board_view(*board), moves[i]),
{
    let ghost view = board_view(*board);
    let legal = legal_moves(board);
    let mut moves: Vec<Move> = Vec::new();
    let mut next: usize = 0;
    while next < legal.len()
        invariant
            next <= legal.len(),
            view == board_view(*board),
            sane_of(view),
            moves@ == captures_among(view, legal@.take(next as int)),
        decreases legal.len() - next,
    {
        let mv = legal[next];
        proof {
            assert(legal@.take(next as int + 1).drop_last() =~= legal@.take(next as int));
            assert(legal@.take(next as int + 1).last() == mv);
        }
        if captures(board, mv) {
            moves.push(mv);
        }
        next = next + 1;
    }
    proof {
        assert(legal@.take(next as int) =~= legal@);
        captures_are_the_captures(view, legal@);
    }
    moves
}

} // verus!

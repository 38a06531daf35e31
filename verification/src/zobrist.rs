//! Zobrist position fingerprinting: a table of pseudorandom 64-bit keys
//! drawn once from a fixed seed, and the XOR-composed key of a position.

use vstd::prelude::*;

use rand_chacha::rand_core::{Rng, SeedableRng};

use crate::board::{
    SIZE, PIECE_TYPES, Side, Square, Point, Piece, PieceType, CastleRights, grid, empty_at,
    piece_at,
};
use crate::moves::fwd;

verus! {

broadcast use vstd::array::group_array_axioms;

// Hash parameters

pub const ZOBRIST_SEED: u64 = 37811;

// The pseudorandom word stream.

#[verifier::external_type_specification]
#[verifier::external_body]
pub struct ExChaCha8Rng(rand_chacha::ChaCha8Rng);

/// The i-th 64-bit word drawn from a ChaCha8 generator seeded with `seed`.
/// The generator is a deterministic stream cipher, so the word is a
/// function of the seed and the draw index alone.
pub uninterp spec fn chacha8_word(seed: u64, index: int) -> u64;

/// A seeded generator together with how many words it has handed out.
struct WordSource {
    rng: rand_chacha::ChaCha8Rng,
    seed: u64,
    drawn: u64,
}

/// Relies on rand_core's SeedableRng::seed_from_u64 for ChaCha8Rng: the
/// generator is constructed deterministically from the seed, with no word
/// drawn yet.
#[verifier::external_body]
fn word_source_new(seed: u64) -> (s: WordSource)
    ensures
        s.seed == seed,
        s.drawn == 0,
{
    WordSource { rng: rand_chacha::ChaCha8Rng::seed_from_u64(seed), seed, drawn: 0 }
}

/// Relies on rand_core's Rng::next_u64 for ChaCha8Rng: each draw advances
/// the deterministic stream by one word, so the word handed out is
/// `chacha8_word` of the seed and the number of draws made before it.
#[verifier::external_body]
fn word_source_next(s: &mut WordSource) -> (w: u64)
    requires
        old(s).drawn < u64::MAX,
    ensures
        final(s).seed == old(s).seed,
        final(s).drawn == old(s).drawn + 1,
        w == chacha8_word(old(s).seed, old(s).drawn as int),
{
    s.drawn = s.drawn + 1;
    s.rng.next_u64()
}

// Random number parameters for Zobrist hashes

#[derive(Debug)]
pub struct Zobrist {
    pub piece_table: [[[u64; SIZE]; SIZE]; PIECE_TYPES],
    pub black_turn: u64,
    pub white_castle_rights: (u64, u64),
    pub black_castle_rights: (u64, u64),
    pub en_passant: [u64; SIZE],
}

/// Index of a piece's key plane: white pieces first, then black, each in
/// the order pawn, knight, bishop, rook, queen, king.
pub open spec fn piece_index(p: Piece) -> int {
    (if p.side == Side::Black {
        6int
    } else {
        0int
    }) + match p.typ {
        PieceType::Pawn => 0int,
        PieceType::Knight => 1int,
        PieceType::Bishop => 2int,
        PieceType::Rook => 3int,
        PieceType::Queen => 4int,
        PieceType::King => 5int,
    }
}

/// The fixed key of a piece standing on (r, c), as drawn from the seeded
/// stream: plane by piece, then row, then column.
pub open spec fn piece_key(p: Piece, r: int, c: int) -> u64 {
    chacha8_word(ZOBRIST_SEED, piece_index(p) * 64 + r * 8 + c)
}

impl Zobrist {
    /// Every entry holds its position in the seeded word stream: the 768
    /// piece keys first, then the 8 en-passant file keys, the black-turn
    /// key, and the 4 castle-right keys.
    pub open spec fn wf(self) -> bool {
        &&& forall|p: int, r: int, c: int|
            0 <= p < 12 && 0 <= r < 8 && 0 <= c < 8 ==> self.piece_table@[p]@[r]@[c]
                == chacha8_word(ZOBRIST_SEED, p * 64 + r * 8 + c)
        &&& forall|c: int|
            0 <= c < 8 ==> self.en_passant@[c] == chacha8_word(ZOBRIST_SEED, 768 + c)
        &&& self.black_turn == chacha8_word(ZOBRIST_SEED, 776)
        &&& self.white_castle_rights.0 == chacha8_word(ZOBRIST_SEED, 777)
        &&& self.white_castle_rights.1 == chacha8_word(ZOBRIST_SEED, 778)
        &&& self.black_castle_rights.0 == chacha8_word(ZOBRIST_SEED, 779)
        &&& self.black_castle_rights.1 == chacha8_word(ZOBRIST_SEED, 780)
    }

    // Generate pseudorandom numbers for hashing

    pub fn new() -> (z: Zobrist)
        ensures
            z.wf(),
    {
        let mut ws = word_source_new(ZOBRIST_SEED);

        let mut piece_table: [[[u64; SIZE]; SIZE]; PIECE_TYPES] =
            [[[0u64; SIZE]; SIZE]; PIECE_TYPES];
        let mut p: usize = 0;
        while p < PIECE_TYPES
            invariant
                p <= 12,
                ws.seed == ZOBRIST_SEED,
                ws.drawn == p * 64,
                forall|pp: int, r: int, c: int|
                    0 <= pp < p && 0 <= r < 8 && 0 <= c < 8 ==> piece_table@[pp]@[r]@[c]
                        == chacha8_word(ZOBRIST_SEED, pp * 64 + r * 8 + c),
            decreases 12 - p,
        {
            let mut plane: [[u64; SIZE]; SIZE] = piece_table[p];
            let mut r: usize = 0;
            while r < SIZE
                invariant
                    p < 12,
                    r <= 8,
                    ws.seed == ZOBRIST_SEED,
                    ws.drawn == p * 64 + r * 8,
                    forall|pp: int, rr: int, c: int|
                        0 <= pp < p && 0 <= rr < 8 && 0 <= c < 8 ==> piece_table@[pp]@[rr]@[c]
                            == chacha8_word(ZOBRIST_SEED, pp * 64 + rr * 8 + c),
                    forall|rr: int, c: int|
                        0 <= rr < r && 0 <= c < 8 ==> plane@[rr]@[c] == chacha8_word(
                            ZOBRIST_SEED,
                            p * 64 + rr * 8 + c,
                        ),
                decreases 8 - r,
            {
                let mut rowa: [u64; SIZE] = plane[r];
                let mut c: usize = 0;
                while c < SIZE
                    invariant
                        p < 12,
                        r < 8,
                        c <= 8,
                        ws.seed == ZOBRIST_SEED,
                        ws.drawn == p * 64 + r * 8 + c,
                        forall|pp: int, rr: int, cc: int|
                            0 <= pp < p && 0 <= rr < 8 && 0 <= cc < 8 ==> piece_table@[pp]@[rr]@[cc]
                                == chacha8_word(ZOBRIST_SEED, pp * 64 + rr * 8 + cc),
                        forall|rr: int, cc: int|
                            0 <= rr < r && 0 <= cc < 8 ==> plane@[rr]@[cc] == chacha8_word(
                                ZOBRIST_SEED,
                                p * 64 + rr * 8 + cc,
                            ),
                        forall|cc: int|
                            0 <= cc < c ==> rowa@[cc] == chacha8_word(
                                ZOBRIST_SEED,
                                p * 64 + r * 8 + cc,
                            ),
                    decreases 8 - c,
                {
                    let w = word_source_next(&mut ws);
                    rowa[c] = w;
                    c += 1;
                }
                plane[r] = rowa;
                r += 1;
            }
            piece_table[p] = plane;
            p += 1;
        }

        let mut en_passant: [u64; SIZE] = [0u64; SIZE];
        let mut c: usize = 0;
        while c < SIZE
            invariant
                c <= 8,
                ws.seed == ZOBRIST_SEED,
                ws.drawn == 768 + c,
                forall|pp: int, rr: int, cc: int|
                    0 <= pp < 12 && 0 <= rr < 8 && 0 <= cc < 8 ==> piece_table@[pp]@[rr]@[cc]
                        == chacha8_word(ZOBRIST_SEED, pp * 64 + rr * 8 + cc),
                forall|cc: int|
                    0 <= cc < c ==> en_passant@[cc] == chacha8_word(ZOBRIST_SEED, 768 + cc),
            decreases 8 - c,
        {
            let w = word_source_next(&mut ws);
            en_passant[c] = w;
            c += 1;
        }

        let black_turn = word_source_next(&mut ws);
        let wc0 = word_source_next(&mut ws);
        let wc1 = word_source_next(&mut ws);
        let bc0 = word_source_next(&mut ws);
        let bc1 = word_source_next(&mut ws);

        Zobrist {
            piece_table,
            black_turn,
            white_castle_rights: (wc0, wc1),
            black_castle_rights: (bc0, bc1),
            en_passant,
        }
    }

    // Get key for piece at square

    pub fn get_piece_key(&self, piece: Piece, square: Point) -> (k: u64)
        requires
            square.0 < 8,
            square.1 < 8,
        ensures
            k == self.piece_table@[piece_index(piece)]@[square.0 as int]@[square.1 as int],
            self.wf() ==> k == piece_key(piece, square.0 as int, square.1 as int),
    {
        let index: usize = match piece.side {
            Side::White => 0,
            Side::Black => 6,
        };
        let index = index + match piece.typ {
            PieceType::Pawn => 0,
            PieceType::Knight => 1,
            PieceType::Bishop => 2,
            PieceType::Rook => 3,
            PieceType::Queen => 4,
            PieceType::King => 5,
        };
        self.piece_table[index][square.0][square.1]
    }
}

// The position key model.

/// The doubled pawn on `q` can actually be taken en passant by `side`:
/// a pawn of `side` stands beside it and the square it skipped is empty.
pub open spec fn ep_capturable(g: Seq<Seq<Square>>, side: Side, q: Point) -> bool {
    &&& (piece_at(g, side, PieceType::Pawn, q.0 as int, q.1 as int - 1) || piece_at(
        g,
        side,
        PieceType::Pawn,
        q.0 as int,
        q.1 as int + 1,
    ))
    &&& empty_at(g, q.0 as int + fwd(side), q.1 as int)
}

/// The en-passant file that enters the hash: the doubled pawn's file, and
/// only when the capture is actually available to the side to move.
pub open spec fn ep_file(g: Seq<Seq<Square>>, side: Side, slot: Option<Point>) -> Option<int> {
    match slot {
        Some(q) => if ep_capturable(g, side, q) {
            Some(q.1 as int)
        } else {
            None
        },
        None => None,
    }
}

/// Fold the piece keys of squares n, n+1, ..., 63 (in row-major order)
/// into the accumulator by XOR.
pub open spec fn squares_key_from(g: Seq<Seq<Square>>, acc: u64, n: int) -> u64
    decreases 64 - n,
{
    if n < 0 || n >= 64 {
        acc
    } else {
        let r = n / 8;
        let c = n % 8;
        let acc2 = match g[r][c] {
            Square::Full(p) => acc ^ piece_key(p, r, c),
            Square::Empty => acc,
        };
        squares_key_from(g, acc2, n + 1)
    }
}

/// The Zobrist key of a position: the black-to-move key when Black moves,
/// XOR the key of every occupied square, XOR the key of the capturable
/// en-passant file if any, XOR the key of every castle right still held.
pub open spec fn position_key(
    side: Side,
    g: Seq<Seq<Square>>,
    rights: CastleRights,
    ep: Option<int>,
) -> u64 {
    let k0: u64 = if side == Side::Black {
        chacha8_word(ZOBRIST_SEED, 776)
    } else {
        0u64
    };
    let k1 = squares_key_from(g, k0, 0);
    let k2 = match ep {
        Some(f) => k1 ^ chacha8_word(ZOBRIST_SEED, 768 + f),
        None => k1,
    };
    let k3 = if rights.white.0 {
        k2 ^ chacha8_word(ZOBRIST_SEED, 777)
    } else {
        k2
    };
    let k4 = if rights.white.1 {
        k3 ^ chacha8_word(ZOBRIST_SEED, 778)
    } else {
        k3
    };
    let k5 = if rights.black.0 {
        k4 ^ chacha8_word(ZOBRIST_SEED, 779)
    } else {
        k4
    };
    if rights.black.1 {
        k5 ^ chacha8_word(ZOBRIST_SEED, 780)
    } else {
        k5
    }
}

// Zobrist hash table mapping seen positions

#[verifier::external_type_specification]
#[verifier::external_body]
#[verifier::reject_recursive_types(T)]
pub struct ExNoHashHasher<T>(nohash_hasher::NoHashHasher<T>);

#[verifier::external_type_specification]
#[verifier::external_body]
#[verifier::reject_recursive_types(H)]
pub struct ExBuildHasherDefault<H>(std::hash::BuildHasherDefault<H>);

/// Relies on std's HashMap::with_capacity_and_hasher and nohash-hasher's
/// default hasher builder: allocates an empty table keyed by plain u64.
#[verifier::external_body]
fn new_seen_table<V>(capacity: usize) -> (t: std::collections::HashMap<
    u64,
    V,
    std::hash::BuildHasherDefault<nohash_hasher::NoHashHasher<u64>>,
>)
{
    std::collections::HashMap::with_capacity_and_hasher(
        capacity,
        std::hash::BuildHasherDefault::default(),
    )
}

#[verifier::reject_recursive_types(V)]
pub struct ZobristTable<V> {
    zobrist: Zobrist,
    table: std::collections::HashMap<
        u64,
        V,
        std::hash::BuildHasherDefault<nohash_hasher::NoHashHasher<u64>>,
    >,
    key: u64,
}

/// XOR together the key of a position from a drawn table of words,
/// exactly as `position_key` states it.
fn compute_key(
    zobrist: &Zobrist,
    side: Side,
    board: &[[Square; SIZE]; SIZE],
    castle_rights: CastleRights,
    pawn_double_moved: Option<Point>,
) -> (k: u64)
    requires
        zobrist.wf(),
        pawn_double_moved matches Some(q) ==> q.0 < 8 && q.1 < 8 && (side == Side::White ==> q.0
            < 7) && (side == Side::Black ==> q.0 >= 1),
    ensures
        k == position_key(
            side,
            grid(*board),
            castle_rights,
            ep_file(grid(*board), side, pawn_double_moved),
        ),
{
    let ghost g = grid(*board);

    let mut zobrist_key: u64 = match side {
        Side::White => 0,
        Side::Black => zobrist.black_turn,
    };
    let ghost k0 = zobrist_key;

    // Update hash with piece positions

    let mut n: usize = 0;
    while n < 64
        invariant
            n <= 64,
            zobrist.wf(),
            g == grid(*board),
            squares_key_from(g, zobrist_key, n as int) == squares_key_from(g, k0, 0),
        decreases 64 - n,
    {
        let r = n / 8;
        let c = n % 8;
        if let Square::Full(piece) = board[r][c] {
            zobrist_key = zobrist_key ^ zobrist.get_piece_key(piece, Point(r, c));
        }
        n += 1;
    }

    // Update hash with en passant moves

    let mut en_passant: Option<usize> = None;
    if let Some(q) = pawn_double_moved {
        let landing: usize = match side {
            Side::White => q.0 + 1,
            Side::Black => q.0 - 1,
        };
        if matches!(board[landing][q.1], Square::Empty) {
            let mut beside_pawn = false;
            if q.1 > 0 {
                match board[q.0][q.1 - 1] {
                    Square::Full(p) => {
                        if p.side == side && p.typ == PieceType::Pawn {
                            beside_pawn = true;
                        }
                    },
                    Square::Empty => {},
                }
            }
            if q.1 < 7 {
                match board[q.0][q.1 + 1] {
                    Square::Full(p) => {
                        if p.side == side && p.typ == PieceType::Pawn {
                            beside_pawn = true;
                        }
                    },
                    Square::Empty => {},
                }
            }
            if beside_pawn {
                en_passant = Some(q.1);
            }
        }
    }
    proof {
        match ep_file(g, side, pawn_double_moved) {
            Some(f) => {
                assert(en_passant matches Some(c) && c as int == f);
            },
            None => {
                assert(en_passant is None);
            },
        }
    }

    if let Some(col) = en_passant {
        zobrist_key = zobrist_key ^ zobrist.en_passant[col];
    }

    // Update hash with castle rights

    if castle_rights.white.0 {
        zobrist_key = zobrist_key ^ zobrist.white_castle_rights.0;
    }
    if castle_rights.white.1 {
        zobrist_key = zobrist_key ^ zobrist.white_castle_rights.1;
    }
    if castle_rights.black.0 {
        zobrist_key = zobrist_key ^ zobrist.black_castle_rights.0;
    }
    if castle_rights.black.1 {
    zobrist_key = zobrist_key ^ zobrist.black_castle_rights.1;
    }

    zobrist_key
}

impl<V> ZobristTable<V> {
    /// The stored table of random words was drawn from the fixed seed.
    pub closed spec fn inv(self) -> bool {
        self.zobrist.wf()
    }

    /// The current position key.
    pub closed spec fn spec_key(self) -> u64 {
        self.key
    }

    /// Read the current position key.
    pub fn key(&self) -> (k: u64)
        ensures
            k == self.spec_key(),
    {
        self.key
    }

    // Create new table with start capacity and key

    pub fn new(
        capacity: usize,
        side: Side,
        board: &[[Square; SIZE]; SIZE],
        castle_rights: CastleRights,
        pawn_double_moved: Option<Point>,
    ) -> (t: ZobristTable<V>)
        requires
            pawn_double_moved matches Some(q) ==> q.0 < 8 && q.1 < 8 && (side == Side::White
                ==> q.0 < 7) && (side == Side::Black ==> q.0 >= 1),
        ensures
            t.inv(),
            t.spec_key() == position_key(
                side,
                grid(*board),
                castle_rights,
                ep_file(grid(*board), side, pawn_double_moved),
            ),
    {
        let zobrist = Zobrist::new();
        let zobrist_key = compute_key(&zobrist, side, board, castle_rights, pawn_double_moved);
        ZobristTable { zobrist, table: new_seen_table(capacity), key: zobrist_key }
    }

    // Recompute the key for the position reached after a committed move

    pub fn rekey(
        &mut self,
        side: Side,
        board: &[[Square; SIZE]; SIZE],
        castle_rights: CastleRights,
        pawn_double_moved: Option<Point>,
    )
        requires
            old(self).inv(),
            pawn_double_moved matches Some(q) ==> q.0 < 8 && q.1 < 8 && (side == Side::White
                ==> q.0 < 7) && (side == Side::Black ==> q.0 >= 1),
        ensures
            final(self).inv(),
            final(self).spec_key() == position_key(
                side,
                grid(*board),
                castle_rights,
                ep_file(grid(*board), side, pawn_double_moved),
            ),
    {
        self.key = compute_key(&self.zobrist, side, board, castle_rights, pawn_double_moved);
    }
}

} // verus!

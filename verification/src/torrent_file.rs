//! The validated single-file descriptor and its piece-bound arithmetic.
//!
//! Piece `i` covers the byte range `[i * piece_length, min((i + 1) *
//! piece_length, length))`; only the final piece may be shorter than
//! `piece_length`.

use vstd::prelude::*;
use vstd::arithmetic::div_mod::{lemma_fundamental_div_mod, lemma_mod_bound};
use vstd::arithmetic::mul::lemma_mul_inequality;
use crate::hashing::sha1_of;
use crate::infohash::{infohash, spec_info_dict, spec_url_encode, url_encode};

verus! {

#[derive(Clone)]
pub struct TorrentFile {
    pub announce: String,
    pub name: Vec<u8>,
    pub piece_hashes: Vec<Vec<u8>>,
    pub piece_length: usize,
    pub length: usize,
    pub infohash: Vec<u8>,
    pub infohash_encoded: Vec<u8>,
}

/// How many pieces cover `length` bytes: the rounded-up quotient.
pub open spec fn spec_piece_count(t: TorrentFile) -> int
    recommends
        t.piece_length > 0,
{
    (t.length + t.piece_length - 1) / (t.piece_length as int)
}

/// The descriptor is internally consistent: one 20-byte hash per piece,
/// a positive piece length, and sizes small enough that every piece bound
/// fits in `usize` and every piece index in `u32`.
pub open spec fn spec_wf(t: TorrentFile) -> bool {
    &&& 0 < t.piece_length <= u32::MAX
    &&& t.length + t.piece_length <= usize::MAX
    &&& t.piece_hashes@.len() == spec_piece_count(t)
    &&& t.piece_hashes@.len() <= u32::MAX
    &&& forall|i: int| 0 <= i < t.piece_hashes@.len() ==> t.piece_hashes@[i]@.len() == 20
    &&& t.infohash@.len() == 20
}

pub open spec fn spec_piece_start(t: TorrentFile, i: int) -> int {
    i * t.piece_length
}

pub open spec fn spec_piece_end(t: TorrentFile, i: int) -> int {
    if spec_piece_start(t, i) + t.piece_length <= t.length {
        spec_piece_start(t, i) + t.piece_length
    } else {
        t.length as int
    }
}

pub open spec fn spec_piece_size(t: TorrentFile, i: int) -> int {
    spec_piece_end(t, i) - spec_piece_start(t, i)
}

/// The bounds of every valid piece sit inside the file: the start is
/// strictly below `length`, and every piece but the last fills a whole
/// `piece_length`.
proof fn lemma_piece_range(t: TorrentFile, i: int)
    requires
        spec_wf(t),
        0 <= i < spec_piece_count(t),
    ensures
        i * t.piece_length < t.length,
        i < spec_piece_count(t) - 1 ==> (i + 1) * t.piece_length <= t.length,
{
    let l = t.length as int;
    let p = t.piece_length as int;
    let c = spec_piece_count(t);
    lemma_fundamental_div_mod(l + p - 1, p);
    lemma_mod_bound(l + p - 1, p);
    // (c - 1) * p <= l - 1
    assert((c - 1) * p == c * p - p) by (nonlinear_arith);
    assert(c * p == p * c) by (nonlinear_arith);
    lemma_mul_inequality(i, c - 1, p);
    if i < c - 1 {
        lemma_mul_inequality(i + 1, c - 1, p);
    }
}

impl TorrentFile {
    pub fn calculate_bound_for_piece(&self, index: usize) -> (r: (usize, usize))
        requires
            spec_wf(*self),
            index < self.piece_hashes@.len(),
        ensures
            r.0 == spec_piece_start(*self, index as int),
            r.1 == spec_piece_end(*self, index as int),
            r.0 < r.1 <= self.length,
    {
        proof {
            lemma_piece_range(*self, index as int);
        }
        let start = index * self.piece_length;
        let capped = start + self.piece_length;
        let end = if capped <= self.length {
            capped
        } else {
            self.length
        };
        (start, end)
    }

    pub fn calculate_piece_size(&self, index: usize) -> (r: usize)
        requires
            spec_wf(*self),
            index < self.piece_hashes@.len(),
        ensures
            r == spec_piece_size(*self, index as int),
            1 <= r <= self.piece_length,
            index < self.piece_hashes@.len() - 1 ==> r == self.piece_length,
    {
        proof {
            lemma_piece_range(*self, index as int);
            assert((index + 1) * (self.piece_length as int) == index * (self.piece_length as int)
                + self.piece_length) by (nonlinear_arith);
        }
        let (start, end) = self.calculate_bound_for_piece(index);
        end - start
    }
}

// ---------------------------------------------------------------------------
// Piece-bound arithmetic, summed over the whole file
// ---------------------------------------------------------------------------

/// The total size of the first `n` pieces.
pub open spec fn spec_sum_piece_sizes(t: TorrentFile, n: int) -> int
    decreases n,
{
    if n <= 0 {
        0
    } else {
        spec_sum_piece_sizes(t, n - 1) + spec_piece_size(t, n - 1)
    }
}

proof fn lemma_sum_piece_sizes_prefix(t: TorrentFile, n: int)
    requires
        spec_wf(t),
        0 <= n <= spec_piece_count(t),
    ensures
        spec_sum_piece_sizes(t, n) == if n * t.piece_length <= t.length {
            n * (t.piece_length as int)
        } else {
            t.length as int
        },
    decreases n,
{
    let l = t.length as int;
    let p = t.piece_length as int;
    if n > 0 {
        lemma_sum_piece_sizes_prefix(t, n - 1);
        lemma_piece_range(t, n - 1);
        assert((n - 1) * p == n * p - p) by (nonlinear_arith);
        assert(spec_piece_start(t, n - 1) == (n - 1) * p);
        assert(spec_sum_piece_sizes(t, n - 1) == (n - 1) * p);
        if n * p <= l {
            assert(spec_piece_end(t, n - 1) == n * p);
            assert(spec_sum_piece_sizes(t, n) == n * p);
        } else {
            assert(spec_piece_end(t, n - 1) == l);
            assert(spec_sum_piece_sizes(t, n) == l);
        }
    } else {
        assert(spec_sum_piece_sizes(t, n) == 0);
        assert(n * p == 0) by (nonlinear_arith)
            requires
                n == 0,
        ;
    }
}

/// The piece sizes partition the file exactly: they sum to `length`, none
/// exceeds `piece_length`, and only the final piece may fall short of it.
pub proof fn lemma_piece_bound_arithmetic(t: TorrentFile)
    requires
        spec_wf(t),
    ensures
        spec_sum_piece_sizes(t, spec_piece_count(t)) == t.length,
        forall|i: int|
            0 <= i < spec_piece_count(t) ==> 1 <= #[trigger] spec_piece_size(t, i)
                <= t.piece_length,
        forall|i: int|
            0 <= i < spec_piece_count(t) - 1 ==> #[trigger] spec_piece_size(t, i)
                == t.piece_length,
{
    let l = t.length as int;
    let p = t.piece_length as int;
    let c = spec_piece_count(t);
    lemma_sum_piece_sizes_prefix(t, c);
    lemma_fundamental_div_mod(l + p - 1, p);
    lemma_mod_bound(l + p - 1, p);
    assert(c * p == p * c) by (nonlinear_arith);
    assert(spec_sum_piece_sizes(t, c) == l);
    assert forall|i: int| 0 <= i < c implies 1 <= #[trigger] spec_piece_size(t, i) <= p by {
        lemma_piece_range(t, i);
    }
    assert forall|i: int| 0 <= i < c - 1 implies #[trigger] spec_piece_size(t, i) == p by {
        lemma_piece_range(t, i);
        assert((i + 1) * p == i * p + p) by (nonlinear_arith);
    }
}

// ---------------------------------------------------------------------------
// Building a descriptor from decoded metainfo fields
// ---------------------------------------------------------------------------

/// Cuts the concatenated hash bytes into 20-byte digests; `None` exactly
/// when the byte count is not a multiple of 20.
pub fn split_hashes(pieces: &Vec<u8>) -> (r: Option<Vec<Vec<u8>>>)
    ensures
        match r {
            Some(hs) => {
                &&& pieces@.len() % 20 == 0
                &&& hs@.len() == pieces@.len() / 20
                &&& forall|i: int|
                    0 <= i < hs@.len() ==> #[trigger] hs@[i]@ == pieces@.subrange(
                        20 * i,
                        20 * i + 20,
                    )
            },
            None => pieces@.len() % 20 != 0,
        },
{
    if pieces.len() % 20 != 0 {
        return None;
    }
    let num_hashes = pieces.len() / 20;
    proof {
        lemma_fundamental_div_mod(pieces@.len() as int, 20);
    }
    let mut hashes: Vec<Vec<u8>> = Vec::new();
    let mut i: usize = 0;
    while i < num_hashes
        invariant
            pieces@.len() % 20 == 0,
            num_hashes == pieces@.len() / 20,
            pieces@.len() == 20 * num_hashes,
            20 * num_hashes <= usize::MAX,
            i <= num_hashes,
            hashes@.len() == i,
            forall|k: int|
                0 <= k < i ==> #[trigger] hashes@[k]@ == pieces@.subrange(20 * k, 20 * k + 20),
        decreases num_hashes - i,
    {
        let mut h: Vec<u8> = Vec::new();
        let mut j: usize = 0;
        while j < 20
            invariant
                pieces@.len() == 20 * num_hashes,
                20 * num_hashes <= usize::MAX,
                i < num_hashes,
                j <= 20,
                h@.len() == j,
                forall|k: int| 0 <= k < j ==> h@[k] == pieces@[20 * i + k],
            decreases 20 - j,
        {
            h.push(pieces[20 * i + j]);
            j = j + 1;
        }
        proof {
            assert(h@ =~= pieces@.subrange(20 * i, 20 * i + 20));
        }
        hashes.push(h);
        i = i + 1;
    }
    Some(hashes)
}

/// The decoded fields make a consistent single-file descriptor.
pub open spec fn spec_metainfo_ok(piece_length: usize, length: usize, pieces_len: nat) -> bool {
    &&& pieces_len % 20 == 0
    &&& 0 < piece_length <= u32::MAX
    &&& length + piece_length <= usize::MAX
    &&& pieces_len / 20 == (length + piece_length - 1) / (piece_length as int)
    &&& pieces_len / 20 <= u32::MAX
}

impl TorrentFile {
    /// Assembles and validates the descriptor from the plain fields of a
    /// decoded metainfo file, computing the info-hash over the bencoded
    /// info dictionary as it stood in the file.
    pub fn from_bencode(
        announce: String,
        name: Vec<u8>,
        piece_length: usize,
        length: usize,
        pieces: Vec<u8>,
    ) -> (r: Option<TorrentFile>)
        ensures
            r is Some <==> spec_metainfo_ok(piece_length, length, pieces@.len()),
            match r {
                Some(t) => {
                    &&& spec_wf(t)
                    &&& t.announce == announce
                    &&& t.name@ == name@
                    &&& t.piece_length == piece_length
                    &&& t.length == length
                    &&& t.piece_hashes@.len() == pieces@.len() / 20
                    &&& forall|i: int|
                        0 <= i < t.piece_hashes@.len() ==> #[trigger] t.piece_hashes@[i]@
                            == pieces@.subrange(20 * i, 20 * i + 20)
                    &&& t.infohash@ == sha1_of(
                        spec_info_dict(
                            length as nat,
                            name@,
                            piece_length as nat,
                            pieces@,
                        ),
                    )
                    &&& t.infohash_encoded@ == spec_url_encode(t.infohash@)
                },
                None => true,
            },
    {
        if piece_length == 0 || piece_length > u32::MAX as usize {
            return None;
        }
        if length > usize::MAX - piece_length {
            return None;
        }
        let hash = infohash(&name, piece_length as u64, length as u64, &pieces);
        let encoded = url_encode(&hash);
        let hashes = match split_hashes(&pieces) {
            Some(hashes) => hashes,
            None => {
                return None;
            },
        };
        if hashes.len() != (length + piece_length - 1) / piece_length {
            return None;
        }
        if hashes.len() > u32::MAX as usize {
            return None;
        }
        Some(
            TorrentFile {
                announce,
                name,
                piece_hashes: hashes,
                piece_length,
                length,
                infohash: hash,
                infohash_encoded: encoded,
            },
        )
    }
}

} // verus!

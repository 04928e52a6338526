//! The payload of a record: what its encoder wrote, piece by piece.

use vstd::prelude::*;

verus! {

/// The encoded payload of a record, kept as the pieces in which its encoder
/// wrote it, and the defect with which the encoder gave up, if it did.
///
/// The pieces matter because a bounded writer accepts or refuses each piece
/// whole. A payload with a defect cannot be encoded at all, whatever the
/// budget; its pieces are what was written before the defect showed.
#[derive(Clone, Debug)]
pub struct Payload {
    /// The pieces, in the order in which they were written.
    pub pieces: Vec<Vec<u8>>,
    /// Why the encoder gave up after the last piece, if it did.
    pub defect: Option<String>,
}

/// The mathematical content of a [`Payload`].
pub struct PayloadView {
    pub pieces: Seq<Seq<u8>>,
    pub defect: Option<Seq<char>>,
}

impl View for Payload {
    type V = PayloadView;

    open spec fn view(&self) -> PayloadView {
        PayloadView {
            pieces: self.pieces@.map_values(|piece: Vec<u8>| piece@),
            defect: match self.defect {
                Some(detail) => Some(detail@),
                None => None,
            },
        }
    }
}

/// All of `pieces`, one after another.
pub open spec fn joined(pieces: Seq<Seq<u8>>) -> Seq<u8>
    decreases pieces.len(),
{
    if pieces.len() == 0 {
        Seq::empty()
    } else {
        joined(pieces.drop_last()) + pieces.last()
    }
}

/// What a writer with `budget` bytes to spend holds after it was offered
/// `pieces` in order and stopped at the first one it refused: the longest
/// run of leading pieces that fits the budget.
pub open spec fn accepted(pieces: Seq<Seq<u8>>, budget: nat) -> Seq<u8>
    decreases pieces.len(),
{
    if pieces.len() == 0 {
        Seq::empty()
    } else if joined(pieces).len() <= budget {
        joined(pieces)
    } else {
        accepted(pieces.drop_last(), budget)
    }
}

/// Joining one more piece appends it.
pub proof fn lemma_joined_step(pieces: Seq<Seq<u8>>, n: int)
    requires
        0 <= n < pieces.len(),
    ensures
        joined(pieces.take(n + 1)) == joined(pieces.take(n)) + pieces[n],
{
    assert(pieces.take(n + 1).drop_last() == pieces.take(n));
}

/// A longer run of pieces is never shorter when joined.
pub proof fn lemma_joined_grows(pieces: Seq<Seq<u8>>, n: int)
    requires
        0 <= n <= pieces.len(),
    ensures
        joined(pieces.take(n)).len() <= joined(pieces).len(),
    decreases pieces.len() - n,
{
    if n < pieces.len() {
        lemma_joined_step(pieces, n);
        lemma_joined_grows(pieces, n + 1);
    } else {
        assert(pieces.take(n) == pieces);
    }
}

/// Once a piece does not fit, what was accepted is what came before it.
pub proof fn lemma_accepted_stops(pieces: Seq<Seq<u8>>, budget: nat, n: int)
    requires
        0 <= n < pieces.len(),
        joined(pieces.take(n)).len() <= budget,
        joined(pieces.take(n + 1)).len() > budget,
    ensures
        accepted(pieces, budget) == joined(pieces.take(n)),
    decreases pieces.len(),
{
    if pieces.len() == n + 1 {
        assert(pieces.take(n + 1) == pieces);
        assert(pieces.drop_last() == pieces.take(n));
        lemma_accepted_all(pieces.take(n), budget);
    } else {
        let shorter = pieces.drop_last();
        assert(shorter.take(n) == pieces.take(n));
        assert(shorter.take(n + 1) == pieces.take(n + 1));
        lemma_accepted_stops(shorter, budget, n);
        lemma_joined_grows(pieces, n + 1);
    }
}

/// Pieces that fit the budget together are accepted together.
pub proof fn lemma_accepted_all(pieces: Seq<Seq<u8>>, budget: nat)
    requires
        joined(pieces).len() <= budget,
    ensures
        accepted(pieces, budget) == joined(pieces),
{
}

/// What is accepted fits the budget.
pub proof fn lemma_accepted_fits(pieces: Seq<Seq<u8>>, budget: nat)
    ensures
        accepted(pieces, budget).len() <= budget,
    decreases pieces.len(),
{
    if pieces.len() > 0 && joined(pieces).len() > budget {
        lemma_accepted_fits(pieces.drop_last(), budget);
    }
}

impl Payload {
    /// A payload of which nothing has been written yet.
    pub fn new() -> (payload: Self)
        ensures
            payload@.pieces == Seq::<Seq<u8>>::empty(),
            payload@.defect is None,
    {
        let payload = Payload { pieces: Vec::new(), defect: None };
        assert(payload@.pieces =~= Seq::<Seq<u8>>::empty());
        payload
    }

    /// Records `piece` as the next thing written.
    pub fn push(&mut self, piece: &[u8])
        ensures
            final(self)@.pieces == old(self)@.pieces.push(piece@),
            final(self)@.defect == old(self)@.defect,
    {
        let mut owned: Vec<u8> = Vec::new();
        owned.extend_from_slice(piece);
        assert(owned@ =~= piece@);
        self.pieces.push(owned);
        assert(self@.pieces =~= old(self)@.pieces.push(piece@));
    }

    /// Records that the encoder gave up, and why.
    pub fn set_defect(&mut self, detail: String)
        ensures
            final(self)@.pieces == old(self)@.pieces,
            final(self)@.defect == Some(detail@),
    {
        self.defect = Some(detail);
    }
}

impl std::io::Write for Payload {
    /// Records `buf` as one piece and takes all of it.
    fn write(&mut self, buf: &[u8]) -> (taken: Result<usize, std::io::Error>)
        ensures
            taken matches Ok(n) && n == buf@.len(),
            final(self)@.pieces == old(self)@.pieces.push(buf@),
            final(self)@.defect == old(self)@.defect,
    {
        self.push(buf);
        Ok(buf.len())
    }

    /// Does nothing: every piece is recorded as it is written.
    fn flush(&mut self) -> (done: Result<(), std::io::Error>)
        ensures
            done is Ok,
            *final(self) == *old(self),
    {
        Ok(())
    }
}

} // verus!

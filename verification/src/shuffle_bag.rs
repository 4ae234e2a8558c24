//! The seven-bag piece sequencer: a queue of upcoming kinds, refilled
//! with one uniformly shuffled copy of each of the seven kinds whenever
//! it runs out, and refilled again at once if a draw empties it, so the
//! next piece can always be peeked. Within one refill no kind repeats,
//! which bounds how long any kind can stay away.

use crate::piece::PieceKind;
use rand::seq::SliceRandom;
use vstd::multiset::Multiset;
use vstd::prelude::*;

verus! {

/// One of each of the seven kinds.
pub open spec fn full_bag() -> Multiset<PieceKind> {
    Multiset::empty()
        .insert(PieceKind::I)
        .insert(PieceKind::J)
        .insert(PieceKind::L)
        .insert(PieceKind::O)
        .insert(PieceKind::S)
        .insert(PieceKind::T)
        .insert(PieceKind::Z)
}

/// How one draw changes the queue; the last element is the next piece.
/// An empty queue is refilled with a shuffled full set before the draw,
/// and a queue emptied by the draw is refilled right after it.
pub open spec fn bag_step(q0: Seq<PieceKind>, q1: Seq<PieceKind>, k: PieceKind) -> bool {
    if q0.len() == 0 {
        &&& q1.len() == 6
        &&& q1.push(k).to_multiset() == full_bag()
    } else if q0.len() == 1 {
        &&& k == q0[0]
        &&& q1.len() == 7
        &&& q1.to_multiset() == full_bag()
    } else {
        &&& k == q0.last()
        &&& q1 == q0.drop_last()
    }
}

/// Supplies pieces in shuffled batches of all seven kinds.
#[derive(Clone, Debug)]
pub struct ShuffleBag {
    pub pieces: Vec<PieceKind>,
}

/// Relies on rand's `SliceRandom::shuffle` with the thread-local
/// generator from `rand::rng`: it permutes the slice in place, drawing
/// the permutation uniformly, so afterwards the slice holds the same
/// elements in some order.
#[verifier::external_body]
fn shuffle_kinds(v: &mut Vec<PieceKind>)
    ensures
        final(v)@.to_multiset() == old(v)@.to_multiset(),
        final(v)@.len() == old(v)@.len(),
{
    let mut rng = rand::rng();
    v.shuffle(&mut rng);
}

impl ShuffleBag {
    /// An empty bag; the first draw fills it.
    pub fn new() -> (r: ShuffleBag)
        ensures
            r.pieces@.len() == 0,
    {
        ShuffleBag { pieces: Vec::new() }
    }

    /// Put one of each kind into the empty bag, then shuffle.
    fn refill(&mut self)
        requires
            old(self).pieces@.len() == 0,
        ensures
            final(self).pieces@.len() == 7,
            final(self).pieces@.to_multiset() == full_bag(),
    {
        self.pieces.push(PieceKind::I);
        self.pieces.push(PieceKind::J);
        self.pieces.push(PieceKind::L);
        self.pieces.push(PieceKind::O);
        self.pieces.push(PieceKind::S);
        self.pieces.push(PieceKind::T);
        self.pieces.push(PieceKind::Z);
        proof {
            broadcast use vstd::seq_lib::group_to_multiset_ensures;
            broadcast use vstd::multiset::group_multiset_axioms;
            broadcast use vstd::multiset::lemma_multiset_empty_len;

            let e = old(self).pieces@;
            assert(e.to_multiset().len() == 0);
            assert(e.to_multiset() =~= Multiset::empty());
            assert(self.pieces@ =~= e
                .push(PieceKind::I)
                .push(PieceKind::J)
                .push(PieceKind::L)
                .push(PieceKind::O)
                .push(PieceKind::S)
                .push(PieceKind::T)
                .push(PieceKind::Z));
            assert(self.pieces@.to_multiset() =~= full_bag());
        }
        shuffle_kinds(&mut self.pieces);
    }

    /// Draw the next piece. An empty bag is first refilled with one
    /// shuffled copy of each kind; a bag emptied by the draw is
    /// refilled again at once.
    pub fn get_piece(&mut self) -> (r: PieceKind)
        ensures
            bag_step(old(self).pieces@, final(self).pieces@, r),
            final(self).pieces@.len() >= 1,
    {
        if self.pieces.len() == 0 {
            self.refill();
        }
        let ghost q = self.pieces@;
        let r = self.pieces.pop().unwrap();
        proof {
            assert(self.pieces@ =~= q.drop_last());
            assert(q.drop_last().push(r) =~= q);
        }
        if self.pieces.len() == 0 {
            self.refill();
        }
        r
    }

    /// The piece the next draw will return, without consuming it. Only
    /// meaningful on a non-empty bag, and every draw leaves the bag
    /// non-empty.
    pub fn peek(&self) -> (r: PieceKind)
        requires
            self.pieces@.len() > 0,
        ensures
            r == self.pieces@.last(),
    {
        self.pieces[self.pieces.len() - 1]
    }
}

impl Default for ShuffleBag {
    /// Same as `ShuffleBag::new`: an empty bag.
    fn default() -> (r: ShuffleBag)
        ensures
            r.pieces@.len() == 0,
    {
        ShuffleBag::new()
    }
}

/// The seven-bag law: seven consecutive draws that start from an empty
/// bag yield every one of the seven kinds exactly once. The sequences
/// `qs` are the queue's states and `ks` the drawn kinds, each step
/// related by `bag_step` exactly as `get_piece` guarantees.
#[verifier::rlimit(80)]
pub proof fn lemma_seven_draws(qs: Seq<Seq<PieceKind>>, ks: Seq<PieceKind>)
    requires
        qs.len() == 8,
        ks.len() == 7,
        qs[0].len() == 0,
        forall|i: int| 0 <= i < 7 ==> bag_step(#[trigger] qs[i], qs[i + 1], ks[i]),
    ensures
        ks.to_multiset() == full_bag(),
        forall|k: PieceKind| #[trigger] ks.to_multiset().count(k) == 1,
{
    broadcast use vstd::seq_lib::group_to_multiset_ensures;
    broadcast use vstd::multiset::group_multiset_axioms;
    broadcast use vstd::multiset::lemma_multiset_empty_len;

    assert(bag_step(qs[0], qs[1], ks[0]));
    assert(qs[1].len() == 6 && qs[1].push(ks[0]).to_multiset() == full_bag());
    assert(full_bag() == qs[1].to_multiset().insert(ks[0]));

    assert(bag_step(qs[1], qs[2], ks[1]));
    assert(qs[1] =~= qs[2].push(ks[1]));
    assert(qs[1].to_multiset() == qs[2].to_multiset().insert(ks[1]));
    assert(bag_step(qs[2], qs[3], ks[2]));
    assert(qs[2] =~= qs[3].push(ks[2]));
    assert(qs[2].to_multiset() == qs[3].to_multiset().insert(ks[2]));
    assert(bag_step(qs[3], qs[4], ks[3]));
    assert(qs[3] =~= qs[4].push(ks[3]));
    assert(qs[3].to_multiset() == qs[4].to_multiset().insert(ks[3]));
    assert(bag_step(qs[4], qs[5], ks[4]));
    assert(qs[4] =~= qs[5].push(ks[4]));
    assert(qs[4].to_multiset() == qs[5].to_multiset().insert(ks[4]));
    assert(bag_step(qs[5], qs[6], ks[5]));
    assert(qs[5] =~= qs[6].push(ks[5]));
    assert(qs[5].to_multiset() == qs[6].to_multiset().insert(ks[5]));

    assert(bag_step(qs[6], qs[7], ks[6]));
    assert(qs[6].len() == 1 && ks[6] == qs[6][0]);
    assert(qs[6] =~= Seq::<PieceKind>::empty().push(ks[6]));
    assert(Seq::<PieceKind>::empty().to_multiset().len() == 0);
    assert(Seq::<PieceKind>::empty().to_multiset() =~= Multiset::empty());
    assert(qs[6].to_multiset() == Multiset::<PieceKind>::empty().insert(ks[6]));

    assert(full_bag() == Multiset::<PieceKind>::empty()
        .insert(ks[6])
        .insert(ks[5])
        .insert(ks[4])
        .insert(ks[3])
        .insert(ks[2])
        .insert(ks[1])
        .insert(ks[0]));

    assert(ks =~= Seq::<PieceKind>::empty()
        .push(ks[0])
        .push(ks[1])
        .push(ks[2])
        .push(ks[3])
        .push(ks[4])
        .push(ks[5])
        .push(ks[6]));
    assert(ks.to_multiset() == Multiset::<PieceKind>::empty()
        .insert(ks[0])
        .insert(ks[1])
        .insert(ks[2])
        .insert(ks[3])
        .insert(ks[4])
        .insert(ks[5])
        .insert(ks[6]));

    assert(ks.to_multiset() =~= full_bag());

    assert forall|k: PieceKind| #[trigger] ks.to_multiset().count(k) == 1 by {
        assert(full_bag().count(k) == 1);
    }
}

} // verus!

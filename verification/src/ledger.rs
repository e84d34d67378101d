//! The ledger: the one place where the state changes during a run.
//!
//! Protocol: open, then claim a piece and save, and only then work on it; when
//! the work has ended, complete the piece and save again. The ledger remembers
//! what was last saved, so that what a crash would leave behind can be stated.

use crate::errors::{Error, ErrorView};
use crate::planner::{Piece, PieceView, Plan, PlanView};
use crate::state;
use crate::state::{ChainState, PieceState, PieceStateView, PieceStatus, State, StateView};
use crate::text;
use vstd::prelude::*;

verus! {

pub struct Ledger {
    state: State,
    disk: Ghost<Option<StateView>>,
}

impl View for Ledger {
    type V = StateView;

    closed spec fn view(&self) -> StateView {
        self.state@
    }
}

impl Ledger {
    /// The state that was last saved since the ledger was opened.
    pub closed spec fn on_disk(&self) -> Option<StateView> {
        self.disk@
    }
}

/// A piece of the plan together with its state, at the moment of the claim.
#[derive(Debug)]
pub struct Claim {
    pub idx: usize,
    pub piece: Piece,
    pub ps: PieceState,
}

/// What a claim makes of a pending piece: it runs, with a new budget where the
/// old one is used up, and a chain has its chain state.
pub open spec fn claimed(
    ps: PieceStateView,
    piece: PieceView,
    initial_step: u32,
    max_attempts: u32,
) -> PieceStateView {
    PieceStateView {
        id: ps.id,
        status: PieceStatus::Running,
        attempts: if ps.attempts > max_attempts {
            0
        } else {
            ps.attempts
        },
        bytes: ps.bytes,
        rate_limits: 0,
        chain: if piece is Chain && ps.chain is None {
            Some(ChainState::start(initial_step))
        } else {
            ps.chain
        },
    }
}

/// Is this the first pending piece?
pub open spec fn is_first_pending(pieces: Seq<PieceStateView>, idx: int) -> bool {
    &&& 0 <= idx < pieces.len()
    &&& pieces[idx].status == PieceStatus::Pending
    &&& forall|j: int| 0 <= j < idx ==> (#[trigger] pieces[j]).status != PieceStatus::Pending
}

pub open spec fn some_pending(pieces: Seq<PieceStateView>) -> bool {
    exists|i: int| 0 <= i < pieces.len() && (#[trigger] pieces[i]).status == PieceStatus::Pending
}

/// The ids of the pieces that are not done, in their order.
pub open spec fn unfinished(pieces: Seq<PieceStateView>) -> Seq<Seq<char>> {
    pieces.filter(|p: PieceStateView| p.status != PieceStatus::Done).map_values(
        |p: PieceStateView| p.id,
    )
}

/// The largest number of bytes that a piece has brought; none where there is no
/// piece.
pub open spec fn most_bytes(pieces: Seq<PieceStateView>) -> u64
    decreases pieces.len(),
{
    if pieces.len() == 0 {
        0
    } else {
        let rest = most_bytes(pieces.drop_last());
        if pieces.last().bytes > rest {
            pieces.last().bytes
        } else {
            rest
        }
    }
}

/// What the ledger is opened with: whatever was cut short or given up is pending
/// again.
pub open spec fn reopened(found: StateView) -> StateView {
    found.folded(PieceStatus::Running).folded(PieceStatus::Failed)
}

impl Ledger {
    /// Opens the ledger on the state that was found. A state of another plan is
    /// an error: it is never replaced silently. Where no state was found there
    /// is no ledger, and the state has to be rebuilt from the repository first.
    pub fn open(found: Option<State>, plan: &Plan) -> (r: Result<Option<Ledger>, Error>)
        requires
            plan@.wf(),
        ensures
            r is Err <==> (found matches Some(s) && s@.fingerprint != plan@.fingerprint()),
            r matches Err(e) ==> e@ == ErrorView::plain(
                "plan/state mismatch — delete .rgc/ or restore plan.json"@,
            ),
            r matches Ok(None) ==> found is None,
            r matches Ok(Some(l)) ==> found matches Some(s) && l@ == reopened(s@)
                && l.on_disk() is None,
    {
        match State::load(found) {
            None => Ok(None),
            Some(s) => {
                if s.fingerprint != plan.fingerprint() {
                    return Err(
                        Error::Other(
                            String::from_str(
                                "plan/state mismatch — delete .rgc/ or restore plan.json",
                            ),
                        ),
                    );
                }
                let mut s = s;
                state::fold(&mut s.pieces, PieceStatus::Failed);
                Ok(Some(Ledger { state: s, disk: Ghost(None) }))
            },
        }
    }

    /// The state as it has to be saved.
    pub fn state(&self) -> (r: &State)
        ensures
            r@ == self@,
    {
        &self.state
    }

    /// To be called when the state has been saved.
    pub fn saved(&mut self)
        ensures
            final(self)@ == old(self)@,
            final(self).on_disk() == Some(old(self)@),
    {
        self.disk = Ghost(Some(self.state@));
    }

    /// Claims the first pending piece. The claim holds once the state is saved.
    pub fn claim(&mut self, plan: &Plan, max_attempts: u32) -> (r: Option<Claim>)
        requires
            forall|i: int| is_first_pending(old(self)@.pieces, i) ==> i < plan@.pieces.len(),
        ensures
            r is None <==> !some_pending(old(self)@.pieces),
            r is None ==> final(self)@ == old(self)@,
            r matches Some(c) ==> {
                &&& is_first_pending(old(self)@.pieces, c.idx as int)
                &&& c.piece@ == plan@.pieces[c.idx as int]
                &&& c.ps@ == claimed(
                    old(self)@.pieces[c.idx as int],
                    c.piece@,
                    plan@.initial_step,
                    max_attempts,
                )
                &&& final(self)@ == old(self)@.with_piece(c.idx as int, c.ps@)
            },
            final(self).on_disk() == old(self).on_disk(),
    {
        let ghost before = self@;
        let n: usize = self.state.pieces.len();
        let mut idx: usize = 0;
        while idx < n && self.state.pieces[idx].status != PieceStatus::Pending
            invariant
                idx <= n == self.state.pieces@.len(),
                self@ == before,
                forall|j: int|
                    0 <= j < idx ==> (#[trigger] before.pieces[j]).status != PieceStatus::Pending,
            decreases n - idx,
        {
            assert(before.pieces[idx as int] == self.state.pieces@[idx as int]@);
            idx += 1;
        }
        if idx == n {
            return None;
        }
        assert(before.pieces[idx as int] == self.state.pieces@[idx as int]@);
        assert(is_first_pending(before.pieces, idx as int));
        let piece = plan.pieces[idx].clone();
        let mut ps = self.state.pieces[idx].clone();
        if ps.attempts > max_attempts {
            ps.attempts = 0;
        }
        ps.rate_limits = 0;
        if let Piece::Chain { .. } = &piece {
            if ps.chain.is_none() {
                ps.chain = Some(ChainState::initial(plan.initial_step));
            }
        }
        ps.status = PieceStatus::Running;
        self.state.pieces.set(idx, ps.clone());
        assert(self@.pieces =~= before.pieces.update(idx as int, ps@));
        Some(Claim { idx, piece, ps })
    }

    /// Writes back the state of a piece that was worked on.
    pub fn complete(&mut self, idx: usize, ps: PieceState)
        requires
            idx < old(self)@.pieces.len(),
        ensures
            final(self)@ == old(self)@.with_piece(idx as int, ps@),
            final(self).on_disk() == old(self).on_disk(),
    {
        let ghost before = self@;
        let ghost view = ps@;
        self.state.pieces.set(idx, ps);
        assert(self@.pieces =~= before.pieces.update(idx as int, view));
    }

    pub fn has_pending(&self) -> (r: bool)
        ensures
            r == some_pending(self@.pieces),
    {
        for i in 0..self.state.pieces.len()
            invariant
                forall|j: int|
                    0 <= j < i ==> (#[trigger] self@.pieces[j]).status != PieceStatus::Pending,
        {
            assert(self@.pieces[i as int] == self.state.pieces@[i as int]@);
            if self.state.pieces[i].status == PieceStatus::Pending {
                return true;
            }
        }
        false
    }

    /// The largest number of bytes that a piece has brought so far.
    pub fn max_piece_bytes(&self) -> (r: u64)
        ensures
            r == most_bytes(self@.pieces),
    {
        let ghost all = self@.pieces;
        let mut most: u64 = 0;
        for i in 0..self.state.pieces.len()
            invariant
                all == self@.pieces,
                most == most_bytes(all.take(i as int)),
        {
            assert(all.take(i + 1).drop_last() =~= all.take(i as int));
            assert(all.take(i + 1).last() == self.state.pieces@[i as int]@);
            if self.state.pieces[i].bytes > most {
                most = self.state.pieces[i].bytes;
            }
        }
        assert(all.take(all.len() as int) =~= all);
        most
    }

    /// The pieces to report at the end of a run.
    pub fn unfinished_ids(&self) -> (r: Vec<String>)
        ensures
            text::texts(r@) == unfinished(self@.pieces),
    {
        let ghost all = self@.pieces;
        let ghost pred = |p: PieceStateView| p.status != PieceStatus::Done;
        let mut out: Vec<String> = Vec::new();
        proof {
            reveal(Seq::filter);
            assert(text::texts(out@) =~= unfinished(all.take(0)));
        }
        for i in 0..self.state.pieces.len()
            invariant
                all == self@.pieces,
                pred == (|p: PieceStateView| p.status != PieceStatus::Done),
                text::texts(out@) == unfinished(all.take(i as int)),
        {
            let ghost before = out@;
            let ghost front = all.take(i as int);
            proof {
                reveal(Seq::filter);
                assert(all.take(i + 1).drop_last() =~= front);
                assert(all.take(i + 1).last() == self.state.pieces@[i as int]@);
            }
            if self.state.pieces[i].status != PieceStatus::Done {
                out.push(self.state.pieces[i].id.clone());
                assert(text::texts(out@) =~= text::texts(before).push(
                    self.state.pieces@[i as int]@.id,
                ));
                assert(all.take(i + 1).filter(pred) == front.filter(pred).push(all[i as int]));
                assert(unfinished(all.take(i + 1)) =~= unfinished(front).push(all[i as int].id));
            } else {
                assert(all.take(i + 1).filter(pred) == front.filter(pred));
            }
        }
        assert(all.take(all.len() as int) =~= all);
        out
    }
}

// ----------------------------------------------------------------------- laws

/// A claim keeps the identity and the bytes of a piece, never exceeds the budget,
/// starts with no rate limits in a row, and gives a chain its chain state.
pub proof fn law_claim_is_ready_to_run(
    ps: PieceStateView,
    piece: PieceView,
    initial_step: u32,
    max_attempts: u32,
)
    ensures
        ({
            let c = claimed(ps, piece, initial_step, max_attempts);
            &&& c.id == ps.id && c.bytes == ps.bytes
            &&& c.status == PieceStatus::Running
            &&& c.attempts <= max_attempts
            &&& c.attempts == ps.attempts || (ps.attempts > max_attempts && c.attempts == 0)
            &&& c.rate_limits == 0
            &&& piece is Chain ==> c.chain is Some
            &&& ps.chain is Some ==> c.chain == ps.chain
        }),
{
}

/// A crash after a saved claim loses nothing: the next run finds the claimed
/// piece pending and every other piece as a crash before the claim would have
/// left it.
pub proof fn law_crash_after_claim(
    s: StateView,
    idx: int,
    piece: PieceView,
    initial_step: u32,
    max_attempts: u32,
)
    requires
        is_first_pending(s.pieces, idx),
    ensures
        ({
            let saved = s.with_piece(
                idx,
                claimed(s.pieces[idx], piece, initial_step, max_attempts),
            );
            &&& reopened(saved).fingerprint == s.fingerprint
            &&& reopened(saved).pieces[idx].status == PieceStatus::Pending
            &&& reopened(saved).pieces[idx].id == s.pieces[idx].id
            &&& reopened(saved).pieces[idx].bytes == s.pieces[idx].bytes
            &&& forall|j: int|
                0 <= j < s.pieces.len() && j != idx ==> #[trigger] reopened(saved).pieces[j]
                    == reopened(s).pieces[j]
        }),
{
}

/// A new run starts with every piece pending or done, and a done piece as it was.
pub proof fn law_reopening(s: StateView, i: int)
    requires
        0 <= i < s.pieces.len(),
    ensures
        reopened(s).pieces.len() == s.pieces.len(),
        s.pieces[i].status == PieceStatus::Done ==> reopened(s).pieces[i] == s.pieces[i],
        s.pieces[i].status != PieceStatus::Done ==> reopened(s).pieces[i]
            == s.pieces[i].with_status(PieceStatus::Pending),
{
}

/// The places of the pending pieces.
pub open spec fn pending_places(pieces: Seq<PieceStateView>) -> Set<int> {
    Set::new(|i: int| 0 <= i < pieces.len() && pieces[i].status == PieceStatus::Pending)
}

/// Within a run the pending pieces only become fewer: a claim takes exactly one
/// of them away, and completing a piece adds none.
pub proof fn law_pending_only_shrinks(
    s: StateView,
    idx: int,
    piece: PieceView,
    initial_step: u32,
    max_attempts: u32,
    done: PieceStateView,
)
    requires
        0 <= idx < s.pieces.len(),
        done.status != PieceStatus::Pending,
    ensures
        pending_places(
            s.with_piece(idx, claimed(s.pieces[idx], piece, initial_step, max_attempts)).pieces,
        ) == pending_places(s.pieces).remove(idx),
        pending_places(s.with_piece(idx, done).pieces) == pending_places(s.pieces).remove(idx),
{
    assert(pending_places(
        s.with_piece(idx, claimed(s.pieces[idx], piece, initial_step, max_attempts)).pieces,
    ) =~= pending_places(s.pieces).remove(idx));
    assert(pending_places(s.with_piece(idx, done).pieces) =~= pending_places(s.pieces).remove(idx));
}

/// Claiming and completing touch one piece and leave the fit to the plan alone.
pub proof fn law_claiming_keeps_the_fit(
    s: StateView,
    plan: PlanView,
    idx: int,
    max_attempts: u32,
    done: PieceStateView,
)
    requires
        s.fits(plan),
        0 <= idx < s.pieces.len(),
        done.id == s.pieces[idx].id,
    ensures
        s.with_piece(
            idx,
            claimed(s.pieces[idx], plan.pieces[idx], plan.initial_step, max_attempts),
        ).fits(plan),
        s.with_piece(idx, done).fits(plan),
{
}

/// Two claims in a row without a completion are claims of different pieces.
pub proof fn law_claims_are_exclusive(s: StateView, first: int, running: PieceStateView, second: int)
    requires
        is_first_pending(s.pieces, first),
        running.status == PieceStatus::Running,
        is_first_pending(s.with_piece(first, running).pieces, second),
    ensures
        first < second,
{
    if second < first {
        assert(s.with_piece(first, running).pieces[second] == s.pieces[second]);
    }
}

/// No piece has brought more than the largest number says.
pub proof fn law_most_bytes_bounds_every_piece(pieces: Seq<PieceStateView>, i: int)
    requires
        0 <= i < pieces.len(),
    ensures
        pieces[i].bytes <= most_bytes(pieces),
    decreases pieces.len(),
{
    if i < pieces.len() - 1 {
        law_most_bytes_bounds_every_piece(pieces.drop_last(), i);
    }
}

/// Nothing is left to report exactly when every piece is done.
pub proof fn law_nothing_unfinished_means_all_done(pieces: Seq<PieceStateView>)
    ensures
        unfinished(pieces).len() == 0 <==> forall|i: int|
            0 <= i < pieces.len() ==> (#[trigger] pieces[i]).status == PieceStatus::Done,
{
    let pred = |p: PieceStateView| p.status != PieceStatus::Done;
    let left = pieces.filter(pred);
    if left.len() == 0 {
        assert forall|i: int| 0 <= i < pieces.len() implies (#[trigger] pieces[i]).status
            == PieceStatus::Done by {
            if pieces[i].status != PieceStatus::Done {
                pieces.lemma_filter_contains(pred, i);
            }
        }
    } else {
        pieces.lemma_filter_pred(pred, 0);
        assert(pieces.contains(left[0])) by {
            lemma_filter_is_part(pieces, pred, 0);
        }
    }
}

proof fn lemma_filter_is_part(
    s: Seq<PieceStateView>,
    pred: spec_fn(PieceStateView) -> bool,
    i: int,
)
    requires
        0 <= i < s.filter(pred).len(),
    ensures
        s.contains(s.filter(pred)[i]),
    decreases s.len(),
{
    reveal(Seq::filter);
    let front = s.drop_last();
    if i < front.filter(pred).len() {
        lemma_filter_is_part(front, pred, i);
        let k = choose|k: int| 0 <= k < front.len() && front[k] == front.filter(pred)[i];
        assert(s[k] == s.filter(pred)[i]);
    } else {
        assert(s[s.len() - 1] == s.filter(pred)[i]);
    }
}

/// What a claim makes of a piece, field by field. It runs, the row of rate limits is
/// over, attempts beyond the budget start again, and a chain without progress gets that
/// of a new one. All else, the progress of a chain above all, is kept.
pub proof fn law_what_a_claim_changes(
    ps: PieceStateView,
    piece: PieceView,
    initial_step: u32,
    max_attempts: u32,
)
    ensures
        ({
            let c = claimed(ps, piece, initial_step, max_attempts);
            &&& c.id == ps.id
            &&& c.bytes == ps.bytes
            &&& c.status == PieceStatus::Running
            &&& c.rate_limits == 0
            &&& ps.attempts <= max_attempts ==> c.attempts == ps.attempts
            &&& ps.attempts > max_attempts ==> c.attempts == 0
            &&& ps.chain is Some || piece is TagBatch ==> c.chain == ps.chain
            &&& ps.chain is None && piece is Chain ==> c.chain == Some(
                ChainState { depth_done: 0, step: initial_step, no_shallow: false },
            )
        }),
{
}

/// A run takes up again whatever is not done, with nothing but its status changed, and
/// belongs to the same plan.
pub proof fn law_what_reopening_changes(s: StateView, i: int)
    requires
        0 <= i < s.pieces.len(),
    ensures
        reopened(s).fingerprint == s.fingerprint,
        reopened(s).pieces.len() == s.pieces.len(),
        reopened(s).pieces[i] == if s.pieces[i].status == PieceStatus::Done {
            s.pieces[i]
        } else {
            PieceStateView { status: PieceStatus::Pending, ..s.pieces[i] }
        },
{
}

/// The first pending piece is pending and none before it is; there is one exactly if
/// some piece is pending.
pub proof fn law_first_pending(pieces: Seq<PieceStateView>, idx: int)
    ensures
        is_first_pending(pieces, idx) <==> {
            &&& 0 <= idx < pieces.len()
            &&& pieces[idx].status == PieceStatus::Pending
            &&& forall|j: int| 0 <= j < idx ==> (#[trigger] pieces[j]).status != PieceStatus::Pending
        },
        some_pending(pieces) <==> exists|i: int|
            0 <= i < pieces.len() && (#[trigger] pieces[i]).status == PieceStatus::Pending,
{
}

/// A piece that is done is not reported; any other is, by its id and in its place.
pub proof fn law_what_is_unfinished(pieces: Seq<PieceStateView>, p: PieceStateView)
    ensures
        unfinished(Seq::empty()) == Seq::<Seq<char>>::empty(),
        unfinished(pieces.push(p)) == if p.status == PieceStatus::Done {
            unfinished(pieces)
        } else {
            unfinished(pieces).push(p.id)
        },
{
    reveal(Seq::filter);
    assert(pieces.push(p).drop_last() =~= pieces);
    assert(unfinished(Seq::empty()) =~= Seq::<Seq<char>>::empty());
    assert(unfinished(pieces.push(p)) =~= if p.status == PieceStatus::Done {
        unfinished(pieces)
    } else {
        unfinished(pieces).push(p.id)
    });
}

/// The largest number of bytes is that of some piece, and nothing where there is none.
pub proof fn law_most_bytes_is_reached(pieces: Seq<PieceStateView>)
    ensures
        pieces.len() == 0 ==> most_bytes(pieces) == 0,
        pieces.len() > 0 ==> exists|i: int|
            0 <= i < pieces.len() && (#[trigger] pieces[i]).bytes == most_bytes(pieces),
    decreases pieces.len(),
{
    if pieces.len() > 0 {
        let front = pieces.drop_last();
        law_most_bytes_is_reached(front);
        if pieces.last().bytes > most_bytes(front) || front.len() == 0 {
            assert(pieces[pieces.len() - 1].bytes == most_bytes(pieces));
        } else {
            let i = choose|i: int|
                0 <= i < front.len() && (#[trigger] front[i]).bytes == most_bytes(front);
            assert(pieces[i].bytes == most_bytes(pieces));
        }
    }
}

} // verus!

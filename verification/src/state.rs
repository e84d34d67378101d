//! The persistent state: how far each piece of the plan has come.

use crate::planner::{Piece, PieceView, Plan, PlanView};
use crate::text;
use vstd::prelude::*;

verus! {

#[derive(Debug, Clone, Copy, PartialEq, Eq, Structural)]
pub enum PieceStatus {
    Pending,
    Running,
    Done,
    /// Given up in this run. The next run takes the piece up again.
    Failed,
}

impl PieceStatus {
    pub open spec fn label(self) -> Seq<char> {
        match self {
            PieceStatus::Pending => "Pending"@,
            PieceStatus::Running => "Running"@,
            PieceStatus::Done => "Done"@,
            PieceStatus::Failed => "Failed"@,
        }
    }

    /// The name of the status.
    pub fn name(self) -> (r: &'static str)
        ensures
            r@ == self.label(),
    {
        match self {
            PieceStatus::Pending => "Pending",
            PieceStatus::Running => "Running",
            PieceStatus::Done => "Done",
            PieceStatus::Failed => "Failed",
        }
    }
}

/// How far the history of a branch has come.
#[derive(Debug, Clone, Copy, PartialEq, Eq, Structural)]
pub struct ChainState {
    pub depth_done: u32,
    pub step: u32,
    pub no_shallow: bool,
}

impl ChainState {
    /// Where every chain starts: nothing fetched, shallow fetches allowed.
    pub open spec fn start(step: u32) -> ChainState {
        ChainState { depth_done: 0, step, no_shallow: false }
    }

    pub fn initial(step: u32) -> (r: ChainState)
        ensures
            r == ChainState::start(step),
    {
        ChainState { depth_done: 0, step, no_shallow: false }
    }
}

#[derive(Debug)]
pub struct PieceState {
    pub id: String,
    pub status: PieceStatus,
    pub attempts: u32,
    pub bytes: u64,
    /// Rate limits in a row. They do not count as attempts.
    pub rate_limits: u32,
    pub chain: Option<ChainState>,
}

pub struct PieceStateView {
    pub id: Seq<char>,
    pub status: PieceStatus,
    pub attempts: u32,
    pub bytes: u64,
    pub rate_limits: u32,
    pub chain: Option<ChainState>,
}

impl View for PieceState {
    type V = PieceStateView;

    open spec fn view(&self) -> PieceStateView {
        PieceStateView {
            id: self.id@,
            status: self.status,
            attempts: self.attempts,
            bytes: self.bytes,
            rate_limits: self.rate_limits,
            chain: self.chain,
        }
    }
}

impl PieceStateView {
    /// The state of a piece that nothing has been done for.
    pub open spec fn fresh(piece: PieceView, initial_step: u32) -> PieceStateView {
        PieceStateView {
            id: piece.id(),
            status: PieceStatus::Pending,
            attempts: 0,
            bytes: 0,
            rate_limits: 0,
            chain: if piece is Chain {
                Some(ChainState::start(initial_step))
            } else {
                None
            },
        }
    }

    pub open spec fn with_status(self, status: PieceStatus) -> PieceStateView {
        PieceStateView { status, ..self }
    }

    /// The piece after a fold of one status into `Pending`.
    pub open spec fn folded(self, from: PieceStatus) -> PieceStateView {
        if self.status == from {
            self.with_status(PieceStatus::Pending)
        } else {
            self
        }
    }
}

impl Clone for PieceState {
    fn clone(&self) -> (r: PieceState)
        ensures
            r@ == self@,
    {
        PieceState {
            id: self.id.clone(),
            status: self.status,
            attempts: self.attempts,
            bytes: self.bytes,
            rate_limits: self.rate_limits,
            chain: self.chain,
        }
    }
}

impl PieceState {
    pub fn new(piece: &Piece, initial_step: u32) -> (r: PieceState)
        requires
            piece@.wf(),
        ensures
            r@ == PieceStateView::fresh(piece@, initial_step),
    {
        PieceState {
            id: piece.id(),
            status: PieceStatus::Pending,
            attempts: 0,
            bytes: 0,
            rate_limits: 0,
            chain: match piece {
                Piece::Chain { .. } => Some(ChainState::initial(initial_step)),
                Piece::TagBatch { .. } => None,
            },
        }
    }
}

// ---------------------------------------------------------------------- state

#[derive(Debug)]
pub struct State {
    /// The fingerprint of the plan that the state belongs to.
    pub fingerprint: String,
    pub pieces: Vec<PieceState>,
}

pub struct StateView {
    pub fingerprint: Seq<char>,
    pub pieces: Seq<PieceStateView>,
}

/// The states behind a sequence of piece states.
pub open spec fn piece_states(v: Seq<PieceState>) -> Seq<PieceStateView> {
    v.map_values(|p: PieceState| p@)
}

impl View for State {
    type V = StateView;

    open spec fn view(&self) -> StateView {
        StateView { fingerprint: self.fingerprint@, pieces: piece_states(self.pieces@) }
    }
}

impl StateView {
    /// The state of a plan that nothing has been done for.
    pub open spec fn fresh(plan: PlanView) -> StateView {
        StateView {
            fingerprint: plan.fingerprint(),
            pieces: plan.pieces.map_values(
                |p: PieceView| PieceStateView::fresh(p, plan.initial_step),
            ),
        }
    }

    /// Every piece of one status becomes `Pending`.
    pub open spec fn folded(self, from: PieceStatus) -> StateView {
        StateView {
            fingerprint: self.fingerprint,
            pieces: self.pieces.map_values(|p: PieceStateView| p.folded(from)),
        }
    }

    /// The state after a change of one piece.
    pub open spec fn with_piece(self, idx: int, ps: PieceStateView) -> StateView {
        StateView { fingerprint: self.fingerprint, pieces: self.pieces.update(idx, ps) }
    }

    /// Does the state say of the plan's pieces, one for one, how they stand?
    pub open spec fn fits(self, plan: PlanView) -> bool {
        &&& self.fingerprint == plan.fingerprint()
        &&& self.pieces.len() == plan.pieces.len()
        &&& forall|i: int|
            0 <= i < self.pieces.len() ==> (#[trigger] self.pieces[i]).id == plan.pieces[i].id()
    }
}

impl Clone for State {
    fn clone(&self) -> (r: State)
        ensures
            r@ == self@,
    {
        let mut pieces: Vec<PieceState> = Vec::new();
        for i in 0..self.pieces.len()
            invariant
                piece_states(pieces@) == piece_states(self.pieces@).take(i as int),
        {
            let ghost before = pieces@;
            pieces.push(self.pieces[i].clone());
            assert(piece_states(pieces@) =~= piece_states(before).push(self.pieces@[i as int]@));
            assert(piece_states(pieces@) =~= piece_states(self.pieces@).take(i + 1));
        }
        assert(piece_states(self.pieces@).take(self.pieces@.len() as int) =~= piece_states(
            self.pieces@,
        ));
        State { fingerprint: self.fingerprint.clone(), pieces }
    }
}

impl Default for State {
    fn default() -> (r: State)
        ensures
            r@.fingerprint == Seq::<char>::empty(),
            r@.pieces == Seq::<PieceStateView>::empty(),
    {
        let r = State { fingerprint: String::new(), pieces: Vec::new() };
        assert(r@.pieces =~= Seq::<PieceStateView>::empty());
        r
    }
}

/// Turns one status into `Pending` throughout.
pub(crate) fn fold(pieces: &mut Vec<PieceState>, from: PieceStatus)
    ensures
        piece_states(final(pieces)@) == piece_states(old(pieces)@).map_values(
            |p: PieceStateView| p.folded(from),
        ),
{
    let ghost start = pieces@;
    let ghost goal = piece_states(start).map_values(|p: PieceStateView| p.folded(from));
    let n: usize = pieces.len();
    for i in 0..n
        invariant
            pieces@.len() == start.len() == n,
            goal == piece_states(start).map_values(|p: PieceStateView| p.folded(from)),
            forall|j: int| 0 <= j < i ==> (#[trigger] pieces@[j])@ == goal[j],
            forall|j: int| i <= j < start.len() ==> #[trigger] pieces@[j] == start[j],
    {
        if pieces[i].status == from {
            pieces[i].status = PieceStatus::Pending;
        }
    }
    assert(piece_states(pieces@) =~= goal);
}

impl State {
    pub fn new(plan: &Plan) -> (r: State)
        requires
            plan@.wf(),
        ensures
            r@ == StateView::fresh(plan@),
    {
        let ghost goal = StateView::fresh(plan@).pieces;
        let mut pieces: Vec<PieceState> = Vec::new();
        for i in 0..plan.pieces.len()
            invariant
                plan@.wf(),
                goal == StateView::fresh(plan@).pieces,
                piece_states(pieces@) == goal.take(i as int),
        {
            let ghost before = pieces@;
            assert(plan@.pieces[i as int].wf());
            pieces.push(PieceState::new(&plan.pieces[i], plan.initial_step));
            assert(piece_states(pieces@) =~= piece_states(before).push(goal[i as int]));
            assert(piece_states(pieces@) =~= goal.take(i + 1));
        }
        assert(piece_states(pieces@) =~= goal);
        State { fingerprint: plan.fingerprint(), pieces }
    }

    /// What a run makes of the state it found: a piece that was running when the
    /// last run ended has to be done again. Nothing found stays nothing.
    pub fn load(found: Option<State>) -> (r: Option<State>)
        ensures
            found is None ==> r is None,
            found matches Some(s) ==> r matches Some(t) && t@ == s@.folded(PieceStatus::Running),
    {
        match found {
            None => None,
            Some(s) => {
                let mut s = s;
                fold(&mut s.pieces, PieceStatus::Running);
                Some(s)
            },
        }
    }
}

// ---------------------------------------------------------------------- paths

pub open spec fn pieces_path(dir: Seq<char>) -> Seq<char> {
    text::path_below(text::path_below(dir, ".rgc"@), "pieces"@)
}

/// Where the repositories of the pieces are kept.
pub fn pieces_dir(dir: &str) -> (r: String)
    ensures
        r@ == pieces_path(dir@),
{
    text::path_join(text::path_join(dir, ".rgc").as_str(), "pieces")
}

/// Where the repository of one piece is kept.
pub fn piece_path(dir: &str, piece: &Piece) -> (r: String)
    requires
        piece@.wf(),
    ensures
        r@ == text::path_below(pieces_path(dir@), piece@.dir_name()),
{
    text::path_join(pieces_dir(dir).as_str(), piece.piece_dir_name().as_str())
}

pub open spec fn state_file(dir: Seq<char>) -> Seq<char> {
    text::path_below(text::path_below(dir, ".rgc"@), "state.json"@)
}

/// Where the state itself is kept.
pub fn state_path(dir: &str) -> (r: String)
    ensures
        r@ == state_file(dir@),
{
    text::path_join(text::path_join(dir, ".rgc").as_str(), "state.json")
}

// ----------------------------------------------------------------------- laws

/// A new state fits its plan: the same fingerprint, and a pending piece for each
/// piece of the plan, under its id.
pub proof fn law_fresh_state_fits(plan: PlanView)
    ensures
        StateView::fresh(plan).fits(plan),
        forall|i: int|
            0 <= i < plan.pieces.len() ==> (#[trigger] StateView::fresh(plan).pieces[i]).status
                == PieceStatus::Pending,
{
}

/// Crash recovery: after a load no piece is running, a piece that was done is
/// still done, and nothing but the status of the running pieces has changed.
pub proof fn law_load_recovers(s: StateView, i: int)
    requires
        0 <= i < s.pieces.len(),
    ensures
        s.folded(PieceStatus::Running).pieces[i].status != PieceStatus::Running,
        s.pieces[i].status == PieceStatus::Running ==> s.folded(PieceStatus::Running).pieces[i]
            == s.pieces[i].with_status(PieceStatus::Pending),
        s.pieces[i].status != PieceStatus::Running ==> s.folded(PieceStatus::Running).pieces[i]
            == s.pieces[i],
{
}

/// Loading twice is loading once.
pub proof fn law_load_is_idempotent(s: StateView)
    ensures
        s.folded(PieceStatus::Running).folded(PieceStatus::Running) == s.folded(
            PieceStatus::Running,
        ),
{
    assert(s.folded(PieceStatus::Running).folded(PieceStatus::Running).pieces =~= s.folded(
        PieceStatus::Running,
    ).pieces);
}

/// A fold leaves a state that fits its plan fitting.
pub proof fn law_folding_keeps_the_fit(s: StateView, plan: PlanView, from: PieceStatus)
    requires
        s.fits(plan),
    ensures
        s.folded(from).fits(plan),
{
    assert forall|i: int| 0 <= i < s.folded(from).pieces.len() implies (#[trigger] s.folded(
        from,
    ).pieces[i]).id == plan.pieces[i].id() by {
        assert(s.folded(from).pieces[i] == s.pieces[i].folded(from));
    }
}

/// A new piece is pending, nothing was tried and nothing was brought; a chain starts
/// with nothing fetched, with the first step of the plan, and with shallow fetches. A
/// batch of tags has no such progress.
pub proof fn law_a_new_piece(piece: PieceView, initial_step: u32)
    ensures
        ({
            let ps = PieceStateView::fresh(piece, initial_step);
            &&& ps.id == piece.id()
            &&& ps.status == PieceStatus::Pending
            &&& ps.attempts == 0
            &&& ps.bytes == 0
            &&& ps.rate_limits == 0
            &&& piece is Chain ==> ps.chain == Some(
                ChainState { depth_done: 0, step: initial_step, no_shallow: false },
            )
            &&& piece is TagBatch ==> ps.chain is None
        }),
{
}

/// A new state has the fingerprint of its plan and a new piece for each piece of it, in
/// their order.
pub proof fn law_a_new_state(plan: PlanView, i: int)
    ensures
        StateView::fresh(plan).fingerprint == plan.fingerprint(),
        StateView::fresh(plan).pieces.len() == plan.pieces.len(),
        0 <= i < plan.pieces.len() ==> StateView::fresh(plan).pieces[i] == PieceStateView::fresh(
            plan.pieces[i],
            plan.initial_step,
        ),
{
}

/// A fold makes the pieces of one status pending, and changes nothing else: neither the
/// other pieces, nor anything but the status, nor the fingerprint.
pub proof fn law_what_a_fold_changes(s: StateView, from: PieceStatus, i: int)
    ensures
        s.folded(from).fingerprint == s.fingerprint,
        s.folded(from).pieces.len() == s.pieces.len(),
        0 <= i < s.pieces.len() && s.pieces[i].status == from ==> s.folded(from).pieces[i] == (
        PieceStateView { status: PieceStatus::Pending, ..s.pieces[i] }),
        0 <= i < s.pieces.len() && s.pieces[i].status != from ==> s.folded(from).pieces[i]
            == s.pieces[i],
{
}

/// Writing one piece touches that piece alone; a new status is all that a piece gets
/// with one.
pub proof fn law_one_piece_is_written(
    s: StateView,
    idx: int,
    ps: PieceStateView,
    status: PieceStatus,
    i: int,
)
    requires
        0 <= idx < s.pieces.len(),
        0 <= i < s.pieces.len(),
    ensures
        s.with_piece(idx, ps).fingerprint == s.fingerprint,
        s.with_piece(idx, ps).pieces.len() == s.pieces.len(),
        s.with_piece(idx, ps).pieces[i] == if i == idx {
            ps
        } else {
            s.pieces[i]
        },
        ps.with_status(status) == (PieceStateView { status, ..ps }),
{
}

/// A state fits a plan exactly if it has its fingerprint and, in their order, its ids.
pub proof fn law_what_fits(s: StateView, plan: PlanView)
    ensures
        s.fits(plan) <==> s.fingerprint == plan.fingerprint() && s.pieces.map_values(
            |p: PieceStateView| p.id,
        ) == plan.pieces.map_values(|p: PieceView| p.id()),
{
    let (a, b) = (
        s.pieces.map_values(|p: PieceStateView| p.id),
        plan.pieces.map_values(|p: PieceView| p.id()),
    );
    if s.fits(plan) {
        assert(a =~= b);
    }
    if a == b {
        assert(a.len() == s.pieces.len() && b.len() == plan.pieces.len());
        assert forall|i: int| 0 <= i < s.pieces.len() implies (#[trigger] s.pieces[i]).id
            == plan.pieces[i].id() by {
            assert(a[i] == b[i]);
        }
    }
}

/// Where the state and the pieces of a clone are kept, and the names of the statuses.
pub proof fn law_where_the_state_is_kept(dir: Seq<char>)
    ensures
        state_file(dir) == text::path_below(dir, ".rgc/state.json"@),
        pieces_path(dir) == text::path_below(dir, ".rgc/pieces"@),
        PieceStatus::Pending.label() == "Pending"@,
        PieceStatus::Running.label() == "Running"@,
        PieceStatus::Done.label() == "Done"@,
        PieceStatus::Failed.label() == "Failed"@,
{
    reveal_strlit(".rgc/state.json");
    reveal_strlit(".rgc/pieces");
    reveal_strlit(".rgc");
    reveal_strlit("state.json");
    reveal_strlit("pieces");
    assert(state_file(dir) =~= text::path_below(dir, ".rgc/state.json"@));
    assert(pieces_path(dir) =~= text::path_below(dir, ".rgc/pieces"@));
}

/// States are spoken of by what they hold, piece by piece.
pub proof fn law_states_are_item_by_item(s: State, i: int)
    ensures
        s@.fingerprint == s.fingerprint@,
        s@.pieces.len() == s.pieces@.len(),
        0 <= i < s.pieces@.len() ==> {
            let (v, p) = (s@.pieces[i], s.pieces@[i]);
            &&& v.id == p.id@
            &&& v.status == p.status
            &&& v.attempts == p.attempts
            &&& v.bytes == p.bytes
            &&& v.rate_limits == p.rate_limits
            &&& v.chain == p.chain
        },
{
}

} // verus!

//! Rebuilding a lost state from the main repository.
//!
//! This is the only place that destroys anything: where the repository is not
//! sound, every ref that came from the remote is deleted, and the pieces with
//! them. What is asked for and answered goes on as in a `PieceRun`.

use crate::errors::{Error, ErrorView};
use crate::planner::{Piece, PieceView, Plan, PlanView};
use crate::refs;
use crate::state;
use crate::state::{PieceState, PieceStateView, PieceStatus, State, StateView};
use crate::text;
use vstd::prelude::*;

verus! {

// ------------------------------------------------------------------- commands

pub fn fsck_args() -> (r: Vec<String>)
    ensures
        text::texts(r@) == seq!["fsck"@, "--connectivity-only"@],
{
    let r = text::words(vec!["fsck", "--connectivity-only"]);
    assert(text::texts(r@) =~= seq!["fsck"@, "--connectivity-only"@]);
    r
}

/// Lists every ref that came from the remote.
pub fn list_remote_refs_args() -> (r: Vec<String>)
    ensures
        text::texts(r@) == seq![
            "for-each-ref"@,
            "--format=%(refname)"@,
            "refs/remotes/origin"@,
            "refs/tags"@,
            "refs/rgc"@,
        ],
{
    let r = text::words(
        vec!["for-each-ref", "--format=%(refname)", "refs/remotes/origin", "refs/tags", "refs/rgc"],
    );
    assert(text::texts(r@) =~= seq![
        "for-each-ref"@,
        "--format=%(refname)"@,
        "refs/remotes/origin"@,
        "refs/tags"@,
        "refs/rgc"@,
    ]);
    r
}

// --------------------------------------------------------- the rebuilt state

/// The refs that the main repository has if the piece is done.
pub open spec fn refs_of(piece: PieceView) -> Seq<Seq<char>> {
    match piece {
        PieceView::Chain { short_name, .. } => seq!["refs/remotes/origin/"@ + short_name],
        PieceView::TagBatch { tags } => tags.map_values(|t: refs::RefEntryView| t.full_name),
    }
}

pub fn piece_refs(piece: &Piece) -> (r: Vec<String>)
    ensures
        text::texts(r@) == refs_of(piece@),
{
    match piece {
        Piece::Chain { short_name, .. } => {
            let r = vec![text::cat("refs/remotes/origin/", short_name.as_str())];
            assert(text::texts(r@) =~= refs_of(piece@));
            r
        },
        Piece::TagBatch { tags } => {
            let ghost names = refs_of(piece@);
            let mut r: Vec<String> = Vec::new();
            for i in 0..tags.len()
                invariant
                    names == refs::entries(tags@).map_values(
                        |t: refs::RefEntryView| t.full_name,
                    ),
                    text::texts(r@) == names.take(i as int),
            {
                let ghost before = r@;
                r.push(tags[i].full_name.clone());
                assert(text::texts(r@) =~= text::texts(before).push(names[i as int]));
                assert(text::texts(r@) =~= names.take(i + 1));
            }
            assert(names.take(tags@.len() as int) =~= names);
            r
        },
    }
}

/// The state of a piece whose refs are there, or are not.
pub open spec fn rebuilt_piece(piece: PieceView, initial_step: u32, there: bool) -> PieceStateView {
    if there {
        PieceStateView {
            status: PieceStatus::Done,
            chain: None,
            ..PieceStateView::fresh(piece, initial_step)
        }
    } else {
        PieceStateView::fresh(piece, initial_step)
    }
}

/// The state of a plan, from what was found of each piece. Of a repository that
/// had to be wiped nothing counts as found.
pub open spec fn rebuilt(plan: PlanView, healthy: bool, there: Seq<bool>) -> StateView {
    StateView {
        fingerprint: plan.fingerprint(),
        pieces: Seq::new(
            plan.pieces.len(),
            |i: int| rebuilt_piece(plan.pieces[i], plan.initial_step, healthy && there[i]),
        ),
    }
}

/// Rebuilds the state. `there` says of each piece whether all its refs were found;
/// where the repository was not sound it is not looked at.
pub fn reconcile(plan: &Plan, healthy: bool, there: &Vec<bool>) -> (r: State)
    requires
        plan@.wf(),
        healthy ==> there@.len() >= plan@.pieces.len(),
    ensures
        r@ == rebuilt(plan@, healthy, there@),
{
    let ghost goal = rebuilt(plan@, healthy, there@).pieces;
    let mut pieces: Vec<PieceState> = Vec::new();
    for i in 0..plan.pieces.len()
        invariant
            plan@.wf(),
            healthy ==> there@.len() >= plan@.pieces.len(),
            goal == rebuilt(plan@, healthy, there@).pieces,
            state::piece_states(pieces@) == goal.take(i as int),
    {
        let ghost before = pieces@;
        assert(plan@.pieces[i as int].wf());
        let mut ps = PieceState::new(&plan.pieces[i], plan.initial_step);
        if healthy && there[i] {
            ps.status = PieceStatus::Done;
            ps.chain = None;
        }
        let ghost view = ps@;
        pieces.push(ps);
        assert(view == goal[i as int]);
        assert(state::piece_states(pieces@) =~= state::piece_states(before).push(view));
        assert(state::piece_states(pieces@) =~= goal.take(i + 1));
    }
    assert(state::piece_states(pieces@) =~= goal);
    State { fingerprint: plan.fingerprint(), pieces }
}

// ---------------------------------------------------------------- the recovery

/// What a recovery asks of its driver.
#[derive(Debug)]
pub enum RecoveryRequest {
    /// Is the repository sound?
    Fsck,
    /// List every ref that came from the remote.
    ListRefs,
    /// Delete these refs, as far as they can be deleted.
    DeleteRefs(Vec<String>),
    /// Remove the repositories of the pieces.
    RemovePieces,
    /// Is the repository sound now?
    FsckAgain,
    /// Are all these refs there?
    Probe(Vec<String>),
    /// The state is rebuilt.
    Rebuilt,
    /// The damage is beyond what can be wiped.
    Unrecoverable,
}

pub enum RecoveryRequestView {
    Fsck,
    ListRefs,
    DeleteRefs(Seq<Seq<char>>),
    RemovePieces,
    FsckAgain,
    Probe(Seq<Seq<char>>),
    Rebuilt,
    Unrecoverable,
}

impl View for RecoveryRequest {
    type V = RecoveryRequestView;

    open spec fn view(&self) -> RecoveryRequestView {
        match self {
            RecoveryRequest::Fsck => RecoveryRequestView::Fsck,
            RecoveryRequest::ListRefs => RecoveryRequestView::ListRefs,
            RecoveryRequest::DeleteRefs(v) => RecoveryRequestView::DeleteRefs(text::texts(v@)),
            RecoveryRequest::RemovePieces => RecoveryRequestView::RemovePieces,
            RecoveryRequest::FsckAgain => RecoveryRequestView::FsckAgain,
            RecoveryRequest::Probe(v) => RecoveryRequestView::Probe(text::texts(v@)),
            RecoveryRequest::Rebuilt => RecoveryRequestView::Rebuilt,
            RecoveryRequest::Unrecoverable => RecoveryRequestView::Unrecoverable,
        }
    }
}

/// What the driver answers.
#[derive(Debug)]
pub enum RecoveryEvent {
    Yes,
    No,
    Done,
    /// The listing, where it could be had.
    Listed(Option<String>),
}

pub enum RecoveryEventView {
    Yes,
    No,
    Done,
    Listed(Option<Seq<char>>),
}

impl View for RecoveryEvent {
    type V = RecoveryEventView;

    open spec fn view(&self) -> RecoveryEventView {
        match self {
            RecoveryEvent::Yes => RecoveryEventView::Yes,
            RecoveryEvent::No => RecoveryEventView::No,
            RecoveryEvent::Done => RecoveryEventView::Done,
            RecoveryEvent::Listed(s) => RecoveryEventView::Listed(refs::opt_text(*s)),
        }
    }
}

/// Is the event an answer to the request?
pub open spec fn answers(asked: RecoveryRequestView, ev: RecoveryEventView) -> bool {
    match asked {
        RecoveryRequestView::Fsck
        | RecoveryRequestView::FsckAgain
        | RecoveryRequestView::Probe(_) => ev is Yes || ev is No,
        RecoveryRequestView::ListRefs => ev is Listed,
        RecoveryRequestView::DeleteRefs(_) | RecoveryRequestView::RemovePieces => ev is Done,
        RecoveryRequestView::Rebuilt | RecoveryRequestView::Unrecoverable => false,
    }
}

pub struct Recovery {
    plan: Plan,
    healthy: bool,
    there: Vec<bool>,
    asked: RecoveryRequest,
}

pub struct RecoveryView {
    pub plan: PlanView,
    pub healthy: bool,
    /// What was found of the pieces so far.
    pub there: Seq<bool>,
    pub asked: RecoveryRequestView,
}

impl View for Recovery {
    type V = RecoveryView;

    closed spec fn view(&self) -> RecoveryView {
        RecoveryView {
            plan: self.plan@,
            healthy: self.healthy,
            there: self.there@,
            asked: self.asked@,
        }
    }
}

impl RecoveryView {
    pub open spec fn asking(self, asked: RecoveryRequestView) -> RecoveryView {
        RecoveryView { asked, ..self }
    }

    /// Asks for the refs of the next piece, until all pieces were asked for.
    pub open spec fn probe(self) -> RecoveryView {
        if self.there.len() < self.plan.pieces.len() {
            self.asking(
                RecoveryRequestView::Probe(refs_of(self.plan.pieces[self.there.len() as int])),
            )
        } else {
            self.asking(RecoveryRequestView::Rebuilt)
        }
    }

    /// After the answer to what was asked last.
    pub open spec fn answered(self, ev: RecoveryEventView) -> RecoveryView {
        match self.asked {
            RecoveryRequestView::Fsck => if ev is Yes {
                RecoveryView { healthy: true, ..self }.probe()
            } else {
                self.asking(RecoveryRequestView::ListRefs)
            },
            RecoveryRequestView::ListRefs => match ev {
                RecoveryEventView::Listed(Some(s)) => self.asking(
                    RecoveryRequestView::DeleteRefs(text::lines_of(s)),
                ),
                _ => self.asking(RecoveryRequestView::RemovePieces),
            },
            RecoveryRequestView::DeleteRefs(_) => self.asking(RecoveryRequestView::RemovePieces),
            RecoveryRequestView::RemovePieces => self.asking(RecoveryRequestView::FsckAgain),
            RecoveryRequestView::FsckAgain => if ev is Yes {
                self.asking(RecoveryRequestView::Rebuilt)
            } else {
                self.asking(RecoveryRequestView::Unrecoverable)
            },
            RecoveryRequestView::Probe(_) => RecoveryView {
                there: self.there.push(ev is Yes),
                ..self
            }.probe(),
            _ => self,
        }
    }

    /// What holds of a recovery from its beginning to its end: a sound repository
    /// is asked for the refs of every piece and nothing is wiped; of one that is
    /// not sound no piece counts as found.
    pub open spec fn sound(self) -> bool {
        &&& self.plan.wf()
        &&& match self.asked {
            RecoveryRequestView::Fsck
            | RecoveryRequestView::ListRefs
            | RecoveryRequestView::DeleteRefs(_)
            | RecoveryRequestView::RemovePieces
            | RecoveryRequestView::FsckAgain
            | RecoveryRequestView::Unrecoverable => !self.healthy && self.there.len() == 0,
            RecoveryRequestView::Probe(names) => {
                &&& self.healthy && self.there.len() < self.plan.pieces.len()
                &&& names == refs_of(self.plan.pieces[self.there.len() as int])
            },
            RecoveryRequestView::Rebuilt => if self.healthy {
                self.there.len() == self.plan.pieces.len()
            } else {
                self.there.len() == 0
            },
        }
    }
}

impl Recovery {
    #[verifier::type_invariant]
    spec fn holds_together(self) -> bool {
        self@.sound()
    }

    /// Begins to rebuild the state of a plan.
    pub fn begin(plan: &Plan) -> (r: Recovery)
        requires
            plan@.wf(),
        ensures
            r@ == (RecoveryView {
                plan: plan@,
                healthy: false,
                there: Seq::empty(),
                asked: RecoveryRequestView::Fsck,
            }),
    {
        Recovery {
            plan: plan.clone(),
            healthy: false,
            there: Vec::new(),
            asked: RecoveryRequest::Fsck,
        }
    }

    /// What the driver has to do.
    pub fn asked(&self) -> (r: &RecoveryRequest)
        ensures
            r@ == self@.asked,
    {
        &self.asked
    }

    /// The same recovery, with what was found, on to the next piece.
    fn probing(self, there: Vec<bool>) -> (r: Recovery)
        requires
            there@.len() <= self@.plan.pieces.len(),
        ensures
            r@ == (RecoveryView { healthy: true, there: there@, ..self@ }).probe(),
    {
        proof {
            use_type_invariant(&self);
        }
        let n: usize = there.len();
        let asked = if n < self.plan.pieces.len() {
            RecoveryRequest::Probe(piece_refs(&self.plan.pieces[n]))
        } else {
            RecoveryRequest::Rebuilt
        };
        Recovery { plan: self.plan, healthy: true, there, asked }
    }

    fn going_on(self, asked: RecoveryRequest) -> (r: Recovery)
        requires
            self@.asking(asked@).sound(),
        ensures
            r@ == self@.asking(asked@),
    {
        Recovery { plan: self.plan, healthy: self.healthy, there: self.there, asked }
    }

    /// Takes the driver's answer and decides what comes next.
    pub fn step(self, ev: RecoveryEvent) -> (r: Recovery)
        requires
            answers(self@.asked, ev@),
        ensures
            r@ == self@.answered(ev@),
    {
        proof {
            use_type_invariant(&self);
        }
        let yes: bool = match ev {
            RecoveryEvent::Yes => true,
            _ => false,
        };
        match &self.asked {
            RecoveryRequest::Fsck => if yes {
                let there: Vec<bool> = Vec::new();
                assert(there@ =~= self@.there);
                self.probing(there)
            } else {
                self.going_on(RecoveryRequest::ListRefs)
            },
            RecoveryRequest::ListRefs => match ev {
                RecoveryEvent::Listed(Some(s)) => {
                    let names = text::owned_lines(s.as_str());
                    self.going_on(RecoveryRequest::DeleteRefs(names))
                },
                _ => self.going_on(RecoveryRequest::RemovePieces),
            },
            RecoveryRequest::DeleteRefs(_) => self.going_on(RecoveryRequest::RemovePieces),
            RecoveryRequest::RemovePieces => self.going_on(RecoveryRequest::FsckAgain),
            RecoveryRequest::FsckAgain => if yes {
                self.going_on(RecoveryRequest::Rebuilt)
            } else {
                self.going_on(RecoveryRequest::Unrecoverable)
            },
            RecoveryRequest::Probe(_) => {
                let mut there = self.there.clone();
                there.push(yes);
                self.probing(there)
            },
            _ => self,
        }
    }

    /// The rebuilt state, once the recovery has ended; nothing before. A repository
    /// that is beyond help is an error.
    pub fn result(&self) -> (r: Option<Result<State, Error>>)
        ensures
            r is Some <==> self@.asked is Rebuilt || self@.asked is Unrecoverable,
            r matches Some(Err(e)) ==> self@.asked is Unrecoverable && e@ == ErrorView::plain(
                "fatal: repository unrecoverable — delete the directory and re-clone"@,
            ),
            r matches Some(Ok(s)) ==> self@.asked is Rebuilt && s@ == rebuilt(
                self@.plan,
                self@.healthy,
                self@.there,
            ),
    {
        proof {
            use_type_invariant(self);
        }
        match self.asked {
            RecoveryRequest::Unrecoverable => Some(
                Err(
                    Error::Other(
                        String::from_str(
                            "fatal: repository unrecoverable — delete the directory and re-clone",
                        ),
                    ),
                ),
            ),
            RecoveryRequest::Rebuilt => Some(Ok(reconcile(&self.plan, self.healthy, &self.there))),
            _ => None,
        }
    }
}

// ----------------------------------------------------------------------- laws

/// Whatever the driver answers, a sound recovery stays sound.
pub proof fn law_recovery_stays_sound(r: RecoveryView, ev: RecoveryEventView)
    requires
        r.sound(),
        answers(r.asked, ev),
    ensures
        r.answered(ev).sound(),
        r.answered(ev).plan == r.plan,
{
}

/// Nothing is deleted or removed unless the repository was found unsound.
pub proof fn law_sound_repository_is_never_wiped(r: RecoveryView, ev: RecoveryEventView)
    requires
        r.sound(),
        answers(r.asked, ev),
        r.answered(ev).asked is DeleteRefs || r.answered(ev).asked is RemovePieces,
    ensures
        !r.healthy,
        !(r.asked is Fsck),
        !(r.asked is Probe),
{
}

/// The rebuilt state fits the plan.
pub proof fn law_rebuilt_state_fits(plan: PlanView, healthy: bool, there: Seq<bool>)
    ensures
        rebuilt(plan, healthy, there).fits(plan),
{
}

/// In the rebuilt state a piece is done exactly when the repository was sound and
/// the refs of the piece were there; every other piece starts anew.
pub proof fn law_rebuilt_pieces(plan: PlanView, healthy: bool, there: Seq<bool>, i: int)
    requires
        0 <= i < plan.pieces.len(),
    ensures
        rebuilt(plan, healthy, there).pieces[i].status == PieceStatus::Done <==> healthy
            && there[i],
        rebuilt(plan, healthy, there).pieces[i].status != PieceStatus::Done ==> rebuilt(
            plan,
            healthy,
            there,
        ).pieces[i] == StateView::fresh(plan).pieces[i],
{
}

/// After a wipe everything is fetched again: the state is that of a new clone.
pub proof fn law_wiped_repository_starts_anew(plan: PlanView, there: Seq<bool>)
    ensures
        rebuilt(plan, false, there) == StateView::fresh(plan),
{
    assert(rebuilt(plan, false, there).pieces =~= StateView::fresh(plan).pieces);
}

/// The steps that a recovery can still take, at most.
pub open spec fn steps_left(r: RecoveryView) -> nat {
    match r.asked {
        RecoveryRequestView::Fsck => r.plan.pieces.len() + 6,
        RecoveryRequestView::ListRefs => 5,
        RecoveryRequestView::DeleteRefs(_) => 4,
        RecoveryRequestView::RemovePieces => 3,
        RecoveryRequestView::FsckAgain => 2,
        RecoveryRequestView::Probe(_) => if r.there.len() < r.plan.pieces.len() {
            (r.plan.pieces.len() - r.there.len()) as nat
        } else {
            0
        },
        _ => 0,
    }
}

/// Every recovery ends: it wipes at most once, and gives up where that did not
/// help.
pub proof fn law_every_recovery_ends(r: RecoveryView, ev: RecoveryEventView)
    requires
        r.sound(),
        answers(r.asked, ev),
    ensures
        steps_left(r.answered(ev)) < steps_left(r),
{
}

/// The refs that tell that a piece is done: of a chain the branch below
/// `refs/remotes/origin/`, of a batch every one of its tags, in their order.
pub proof fn law_refs_of_a_piece(
    full_ref: Seq<char>,
    short_name: Seq<char>,
    tags: Seq<refs::RefEntryView>,
    i: int,
)
    ensures
        refs_of(PieceView::Chain { full_ref, short_name }) == seq![
            "refs/remotes/origin/"@ + short_name,
        ],
        refs_of(PieceView::TagBatch { tags }).len() == tags.len(),
        0 <= i < tags.len() ==> refs_of(PieceView::TagBatch { tags })[i] == tags[i].full_name,
{
}

/// A rebuilt state, piece by piece. A piece whose refs were found in a sound repository
/// is done, with nothing left to be known of its progress; every other is as new. It is
/// the state of that plan.
pub proof fn law_rebuilt_piece_by_piece(plan: PlanView, healthy: bool, there: Seq<bool>, i: int)
    ensures
        rebuilt(plan, healthy, there).fingerprint == plan.fingerprint(),
        rebuilt(plan, healthy, there).pieces.len() == plan.pieces.len(),
        0 <= i < plan.pieces.len() ==> rebuilt(plan, healthy, there).pieces[i] == if healthy
            && there[i] {
            PieceStateView {
                id: plan.pieces[i].id(),
                status: PieceStatus::Done,
                attempts: 0,
                bytes: 0,
                rate_limits: 0,
                chain: None,
            }
        } else {
            PieceStateView::fresh(plan.pieces[i], plan.initial_step)
        },
{
}

/// The recovery, step by step. A sound repository is asked for the refs of each piece in
/// turn, and each answer is kept in its place. An unsound one is wiped: the refs from
/// the remote are listed, and deleted, all of them; the pieces are removed, also where
/// the listing failed; then it is looked at again, and either starts anew or is given
/// up. Nothing else changes on the way.
pub proof fn law_steps_of_the_recovery(r: RecoveryView, s: Seq<char>)
    ensures
        r.asked is Fsck ==> {
            &&& r.answered(RecoveryEventView::Yes) == (RecoveryView { healthy: true, ..r }).probe()
            &&& r.answered(RecoveryEventView::No) == (RecoveryView {
                asked: RecoveryRequestView::ListRefs,
                ..r
            })
        },
        r.asked is ListRefs ==> {
            &&& r.answered(RecoveryEventView::Listed(Some(s))) == (RecoveryView {
                asked: RecoveryRequestView::DeleteRefs(text::lines_of(s)),
                ..r
            })
            &&& r.answered(RecoveryEventView::Listed(None)) == (RecoveryView {
                asked: RecoveryRequestView::RemovePieces,
                ..r
            })
        },
        r.asked is DeleteRefs ==> r.answered(RecoveryEventView::Done) == (RecoveryView {
            asked: RecoveryRequestView::RemovePieces,
            ..r
        }),
        r.asked is RemovePieces ==> r.answered(RecoveryEventView::Done) == (RecoveryView {
            asked: RecoveryRequestView::FsckAgain,
            ..r
        }),
        r.asked is FsckAgain ==> {
            &&& r.answered(RecoveryEventView::Yes) == (RecoveryView {
                asked: RecoveryRequestView::Rebuilt,
                ..r
            })
            &&& r.answered(RecoveryEventView::No) == (RecoveryView {
                asked: RecoveryRequestView::Unrecoverable,
                ..r
            })
        },
        r.asked is Probe ==> {
            &&& r.answered(RecoveryEventView::Yes) == (RecoveryView {
                there: r.there.push(true),
                ..r
            }).probe()
            &&& r.answered(RecoveryEventView::No) == (RecoveryView {
                there: r.there.push(false),
                ..r
            }).probe()
        },
{
}

/// The next piece that is asked for is the first that was not asked for yet; when all
/// were, the state is rebuilt.
pub proof fn law_pieces_are_probed_in_turn(r: RecoveryView)
    ensures
        r.there.len() < r.plan.pieces.len() ==> r.probe() == (RecoveryView {
            asked: RecoveryRequestView::Probe(refs_of(r.plan.pieces[r.there.len() as int])),
            ..r
        }),
        r.there.len() >= r.plan.pieces.len() ==> r.probe() == (RecoveryView {
            asked: RecoveryRequestView::Rebuilt,
            ..r
        }),
{
}

/// Requests and events are spoken of by what they carry.
pub proof fn law_what_recovery_events_carry(q: RecoveryRequest, ev: RecoveryEvent)
    ensures
        match q {
            RecoveryRequest::Fsck => q@ is Fsck,
            RecoveryRequest::ListRefs => q@ is ListRefs,
            RecoveryRequest::DeleteRefs(v) => q@ == RecoveryRequestView::DeleteRefs(
                text::texts(v@),
            ),
            RecoveryRequest::RemovePieces => q@ is RemovePieces,
            RecoveryRequest::FsckAgain => q@ is FsckAgain,
            RecoveryRequest::Probe(v) => q@ == RecoveryRequestView::Probe(text::texts(v@)),
            RecoveryRequest::Rebuilt => q@ is Rebuilt,
            RecoveryRequest::Unrecoverable => q@ is Unrecoverable,
        },
        match ev {
            RecoveryEvent::Yes => ev@ is Yes,
            RecoveryEvent::No => ev@ is No,
            RecoveryEvent::Done => ev@ is Done,
            RecoveryEvent::Listed(Some(s)) => ev@ == RecoveryEventView::Listed(Some(s@)),
            RecoveryEvent::Listed(None) => ev@ == RecoveryEventView::Listed(None),
        },
{
}

/// Which answers there are to each request of a recovery.
pub proof fn law_what_can_be_answered(names: Seq<Seq<char>>, s: Option<Seq<char>>)
    ensures
        answers(RecoveryRequestView::Fsck, RecoveryEventView::Yes),
        answers(RecoveryRequestView::Fsck, RecoveryEventView::No),
        answers(RecoveryRequestView::ListRefs, RecoveryEventView::Listed(s)),
        answers(RecoveryRequestView::DeleteRefs(names), RecoveryEventView::Done),
        answers(RecoveryRequestView::RemovePieces, RecoveryEventView::Done),
        answers(RecoveryRequestView::FsckAgain, RecoveryEventView::Yes),
        answers(RecoveryRequestView::FsckAgain, RecoveryEventView::No),
        answers(RecoveryRequestView::Probe(names), RecoveryEventView::Yes),
        answers(RecoveryRequestView::Probe(names), RecoveryEventView::No),
{
}

} // verus!

//! The repositories of a clone: how the main one and that of a piece are set up,
//! and how a step of a chain is fetched. As with a `PieceRun`, a machine asks and
//! its driver answers.

use crate::errors::{Error, ErrorView};
use crate::gitio;
use crate::gitio::GitOutput;
use crate::piece_run;
use crate::state::ChainState;
use crate::text;
use vstd::prelude::*;

verus! {

/// Where a git command is run.
#[derive(Debug, Clone, Copy, PartialEq, Eq, Structural)]
pub enum Site {
    Anywhere,
    Main,
    Piece,
}

/// What a machine of this module asks of its driver.
#[derive(Debug)]
pub enum RepoRequest {
    /// Create the directory of the repository, if it is not there.
    MakeDir,
    /// Is there a repository in the directory?
    IsRepo,
    /// Remove the directory with all that it holds.
    RemoveDir,
    Git(Site, Vec<String>),
    /// Is the history of the repository incomplete?
    IsShallow,
    /// The boundary commits that git has noted down.
    ReadBoundary,
    /// Forget the boundary.
    RemoveBoundary,
    Finished,
}

pub enum RepoRequestView {
    MakeDir,
    IsRepo,
    RemoveDir,
    Git(Site, Seq<Seq<char>>),
    IsShallow,
    ReadBoundary,
    RemoveBoundary,
    Finished,
}

impl View for RepoRequest {
    type V = RepoRequestView;

    open spec fn view(&self) -> RepoRequestView {
        match self {
            RepoRequest::MakeDir => RepoRequestView::MakeDir,
            RepoRequest::IsRepo => RepoRequestView::IsRepo,
            RepoRequest::RemoveDir => RepoRequestView::RemoveDir,
            RepoRequest::Git(site, args) => RepoRequestView::Git(*site, text::texts(args@)),
            RepoRequest::IsShallow => RepoRequestView::IsShallow,
            RepoRequest::ReadBoundary => RepoRequestView::ReadBoundary,
            RepoRequest::RemoveBoundary => RepoRequestView::RemoveBoundary,
            RepoRequest::Finished => RepoRequestView::Finished,
        }
    }
}

/// What the driver answers.
#[derive(Debug)]
pub enum RepoEvent {
    Done,
    Yes,
    No,
    /// What a git command, or the file of the boundary, has given.
    Output(String),
    Failed(Error),
}

pub enum RepoEventView {
    Done,
    Yes,
    No,
    Output(Seq<char>),
    Failed(ErrorView),
}

impl View for RepoEvent {
    type V = RepoEventView;

    open spec fn view(&self) -> RepoEventView {
        match self {
            RepoEvent::Done => RepoEventView::Done,
            RepoEvent::Yes => RepoEventView::Yes,
            RepoEvent::No => RepoEventView::No,
            RepoEvent::Output(s) => RepoEventView::Output(s@),
            RepoEvent::Failed(e) => RepoEventView::Failed(e@),
        }
    }
}

/// Is the event an answer to the request?
pub open spec fn answers(asked: RepoRequestView, ev: RepoEventView) -> bool {
    match asked {
        RepoRequestView::MakeDir
        | RepoRequestView::RemoveDir
        | RepoRequestView::RemoveBoundary => ev is Done || ev is Failed,
        RepoRequestView::IsRepo | RepoRequestView::IsShallow => ev is Yes || ev is No,
        RepoRequestView::Git(_, _) => ev is Output || ev is Failed,
        RepoRequestView::ReadBoundary => ev is Output,
        RepoRequestView::Finished => false,
    }
}

// -------------------------------------------------------------------- setting up

/// Where the set-up of a repository stands.
#[derive(Debug, Clone, Copy, PartialEq, Eq, Structural)]
pub enum Phase {
    Look,
    Check,
    Remove,
    Make,
    AskRefs,
    Create,
    AskOrigin,
    AddOrigin,
    Borrow,
    NoGc,
    Ready,
    Broken,
}

/// Which repository is set up.
#[derive(Debug)]
pub enum Subject {
    Main { main: String },
    Piece { main: String, piece: String },
}

pub enum SubjectView {
    Main { main: Seq<char> },
    Piece { main: Seq<char>, piece: Seq<char> },
}

impl View for Subject {
    type V = SubjectView;

    open spec fn view(&self) -> SubjectView {
        match self {
            Subject::Main { main } => SubjectView::Main { main: main@ },
            Subject::Piece { main, piece } => SubjectView::Piece { main: main@, piece: piece@ },
        }
    }
}

pub struct RepoSetup {
    subject: Subject,
    url: String,
    /// The repository borrows what the main one has.
    shared: bool,
    phase: Phase,
    failure: Option<Error>,
}

pub struct SetupView {
    pub subject: SubjectView,
    pub url: Seq<char>,
    pub shared: bool,
    pub phase: Phase,
    pub failure: Option<ErrorView>,
}

impl View for RepoSetup {
    type V = SetupView;

    closed spec fn view(&self) -> SetupView {
        SetupView {
            subject: self.subject@,
            url: self.url@,
            shared: self.shared,
            phase: self.phase,
            failure: piece_run::failure_view(self.failure),
        }
    }
}

pub open spec fn init_command(path: Seq<char>) -> RepoRequestView {
    RepoRequestView::Git(Site::Anywhere, seq!["init"@, "--quiet"@, path])
}

impl SetupView {
    pub open spec fn site(self) -> Site {
        match self.subject {
            SubjectView::Main { .. } => Site::Main,
            SubjectView::Piece { .. } => Site::Piece,
        }
    }

    pub open spec fn main_path(self) -> Seq<char> {
        match self.subject {
            SubjectView::Main { main } => main,
            SubjectView::Piece { main, .. } => main,
        }
    }

    /// What is asked for in each phase.
    pub open spec fn asked(self) -> RepoRequestView {
        match self.phase {
            Phase::Look => RepoRequestView::IsRepo,
            Phase::Check => RepoRequestView::Git(
                self.site(),
                seq!["rev-parse"@, "--git-dir"@],
            ),
            Phase::Remove => RepoRequestView::RemoveDir,
            Phase::Make => RepoRequestView::MakeDir,
            Phase::AskRefs => RepoRequestView::Git(
                Site::Main,
                seq![
                    "for-each-ref"@,
                    "--count=1"@,
                    "refs/remotes/origin"@,
                    "refs/tags"@,
                    "refs/heads"@,
                ],
            ),
            Phase::Create => match self.subject {
                SubjectView::Main { main } => init_command(main),
                SubjectView::Piece { main, piece } => if self.shared {
                    RepoRequestView::Git(
                        Site::Anywhere,
                        seq![
                            "clone"@,
                            "--shared"@,
                            "--no-checkout"@,
                            "--quiet"@,
                            main,
                            piece,
                        ],
                    )
                } else {
                    init_command(piece)
                },
            },
            Phase::AskOrigin => RepoRequestView::Git(
                self.site(),
                match self.subject {
                    SubjectView::Main { .. } => seq!["remote"@, "get-url"@, "origin"@],
                    SubjectView::Piece { .. } => seq!["remote"@, "set-url"@, "origin"@, self.url],
                },
            ),
            Phase::AddOrigin => RepoRequestView::Git(
                self.site(),
                seq!["remote"@, "add"@, "origin"@, self.url],
            ),
            Phase::Borrow => RepoRequestView::Git(
                self.site(),
                seq![
                    "fetch"@,
                    "--quiet"@,
                    self.main_path(),
                    "+refs/remotes/origin/*:refs/remotes/origin/*"@,
                    "+refs/tags/*:refs/tags/*"@,
                ],
            ),
            Phase::NoGc => RepoRequestView::Git(
                self.site(),
                seq!["config"@, "gc.auto"@, "0"@],
            ),
            Phase::Ready | Phase::Broken => RepoRequestView::Finished,
        }
    }

    pub open spec fn entering(self, phase: Phase) -> SetupView {
        SetupView { phase, ..self }
    }

    /// Once the origin is known, a repository that borrows gets the refs too.
    pub open spec fn after_origin(self) -> SetupView {
        self.entering(
            if self.shared {
                Phase::Borrow
            } else {
                Phase::NoGc
            },
        )
    }

    /// After the answer to what was asked last. The main repository is created
    /// where there is none; that of a piece is made anew where it is damaged too.
    pub open spec fn answered(self, ev: RepoEventView) -> SetupView {
        match self.phase {
            Phase::Look => match (self.subject, ev) {
                (SubjectView::Main { .. }, RepoEventView::Yes) => self.entering(Phase::AskOrigin),
                (SubjectView::Main { .. }, _) => self.entering(Phase::Create),
                (SubjectView::Piece { .. }, RepoEventView::Yes) => self.entering(Phase::Check),
                (SubjectView::Piece { .. }, _) => self.entering(Phase::Make),
            },
            Phase::Check => self.entering(
                if ev is Failed {
                    Phase::Remove
                } else {
                    Phase::Ready
                },
            ),
            Phase::AskRefs => SetupView {
                shared: ev matches RepoEventView::Output(s) && text::trimmed(s).len() > 0,
                phase: Phase::Create,
                ..self
            },
            Phase::AskOrigin => if ev is Failed {
                self.entering(Phase::AddOrigin)
            } else {
                self.after_origin()
            },
            _ => match ev {
                RepoEventView::Failed(e) => SetupView {
                    phase: Phase::Broken,
                    failure: Some(e),
                    ..self
                },
                _ => match self.phase {
                    Phase::Remove => self.entering(Phase::Make),
                    Phase::Make => self.entering(
                        match self.subject {
                            SubjectView::Main { .. } => Phase::Look,
                            SubjectView::Piece { .. } => Phase::AskRefs,
                        },
                    ),
                    Phase::Create => self.entering(Phase::AskOrigin),
                    Phase::AddOrigin => self.after_origin(),
                    Phase::Borrow => self.entering(Phase::NoGc),
                    _ => self.entering(Phase::Ready),
                },
            },
        }
    }

    /// What holds of a set-up from its beginning to its end.
    pub open spec fn sound(self) -> bool {
        &&& self.subject is Main ==> !self.shared && !(self.phase is Check) && !(
        self.phase is Remove) && !(self.phase is AskRefs) && !(self.phase is Borrow)
        &&& self.phase is Borrow ==> self.shared
        &&& self.failure is Some <==> self.phase is Broken
    }
}

/// Sets up the main repository: it is there, it knows its origin, and nothing is
/// collected in it as garbage.
pub fn init_main_repo(main: &str, url: &str) -> (r: RepoSetup)
    ensures
        r@ == (SetupView {
            subject: SubjectView::Main { main: main@ },
            url: url@,
            shared: false,
            phase: Phase::Make,
            failure: None,
        }),
{
    RepoSetup {
        subject: Subject::Main { main: String::from_str(main) },
        url: String::from_str(url),
        shared: false,
        phase: Phase::Make,
        failure: None,
    }
}

/// Sets up the repository of a piece. It borrows the objects and the refs of the
/// main one, as far as there are any.
pub fn ensure_piece_repo(main: &str, piece: &str, url: &str) -> (r: RepoSetup)
    ensures
        r@ == (SetupView {
            subject: SubjectView::Piece { main: main@, piece: piece@ },
            url: url@,
            shared: false,
            phase: Phase::Look,
            failure: None,
        }),
{
    RepoSetup {
        subject: Subject::Piece { main: String::from_str(main), piece: String::from_str(piece) },
        url: String::from_str(url),
        shared: false,
        phase: Phase::Look,
        failure: None,
    }
}

impl RepoSetup {
    fn site(&self) -> (r: Site)
        ensures
            r == self@.site(),
    {
        match &self.subject {
            Subject::Main { .. } => Site::Main,
            Subject::Piece { .. } => Site::Piece,
        }
    }

    /// What the driver has to do.
    pub fn asked(&self) -> (r: RepoRequest)
        ensures
            r@ == self@.asked(),
    {
        match self.phase {
            Phase::Look => RepoRequest::IsRepo,
            Phase::Check => RepoRequest::Git(self.site(), gitio::git_dir_args()),
            Phase::Remove => RepoRequest::RemoveDir,
            Phase::Make => RepoRequest::MakeDir,
            Phase::AskRefs => RepoRequest::Git(Site::Main, gitio::list_some_ref_args()),
            Phase::Create => match &self.subject {
                Subject::Main { main } => RepoRequest::Git(
                    Site::Anywhere,
                    gitio::init_args(main.as_str()),
                ),
                Subject::Piece { main, piece } => if self.shared {
                    RepoRequest::Git(
                        Site::Anywhere,
                        gitio::clone_shared_args(main.as_str(), piece.as_str()),
                    )
                } else {
                    RepoRequest::Git(Site::Anywhere, gitio::init_args(piece.as_str()))
                },
            },
            Phase::AskOrigin => RepoRequest::Git(
                self.site(),
                match &self.subject {
                    Subject::Main { .. } => gitio::origin_url_args(),
                    Subject::Piece { .. } => gitio::set_origin_args(self.url.as_str()),
                },
            ),
            Phase::AddOrigin => RepoRequest::Git(
                self.site(),
                gitio::add_origin_args(self.url.as_str()),
            ),
            Phase::Borrow => RepoRequest::Git(
                self.site(),
                match &self.subject {
                    Subject::Main { main } => gitio::borrow_refs_args(main.as_str()),
                    Subject::Piece { main, .. } => gitio::borrow_refs_args(main.as_str()),
                },
            ),
            Phase::NoGc => RepoRequest::Git(self.site(), gitio::no_gc_args()),
            Phase::Ready | Phase::Broken => RepoRequest::Finished,
        }
    }

    /// What the set-up ended with, if it failed.
    pub fn failure(&self) -> (r: Option<Error>)
        ensures
            piece_run::failure_view(r) == self@.failure,
    {
        match &self.failure {
            Some(e) => Some(e.clone()),
            None => None,
        }
    }

    fn after_origin(&mut self)
        ensures
            final(self)@ == old(self)@.after_origin(),
    {
        self.phase =
        if self.shared {
            Phase::Borrow
        } else {
            Phase::NoGc
        };
    }

    /// Takes the driver's answer and decides what comes next.
    pub fn step(&mut self, ev: RepoEvent)
        requires
            answers(old(self)@.asked(), ev@),
        ensures
            final(self)@ == old(self)@.answered(ev@),
    {
        match self.phase {
            Phase::Look => {
                let yes: bool = matches!(ev, RepoEvent::Yes);
                self.phase =
                match &self.subject {
                    Subject::Main { .. } => if yes {
                        Phase::AskOrigin
                    } else {
                        Phase::Create
                    },
                    Subject::Piece { .. } => if yes {
                        Phase::Check
                    } else {
                        Phase::Make
                    },
                };
            },
            Phase::Check => {
                self.phase =
                match ev {
                    RepoEvent::Failed(_) => Phase::Remove,
                    _ => Phase::Ready,
                };
            },
            Phase::AskRefs => {
                let listing = match ev {
                    RepoEvent::Output(s) => Ok(GitOutput { stdout: s, stderr: String::new() }),
                    RepoEvent::Failed(e) => Err(e),
                    _ => Err(Error::Other(String::new())),
                };
                self.shared = gitio::main_has_refs(&listing);
                self.phase = Phase::Create;
            },
            Phase::AskOrigin => match ev {
                RepoEvent::Failed(_) => {
                    self.phase = Phase::AddOrigin;
                },
                _ => self.after_origin(),
            },
            _ => match ev {
                RepoEvent::Failed(e) => {
                    self.failure = Some(e);
                    self.phase = Phase::Broken;
                },
                _ => match self.phase {
                    Phase::Remove => {
                        self.phase = Phase::Make;
                    },
                    Phase::Make => {
                        self.phase =
                        match &self.subject {
                            Subject::Main { .. } => Phase::Look,
                            Subject::Piece { .. } => Phase::AskRefs,
                        };
                    },
                    Phase::Create => {
                        self.phase = Phase::AskOrigin;
                    },
                    Phase::AddOrigin => self.after_origin(),
                    Phase::Borrow => {
                        self.phase = Phase::NoGc;
                    },
                    _ => {
                        self.phase = Phase::Ready;
                    },
                },
            },
        }
    }
}

// ------------------------------------------------------------ a step of a chain

/// Where a step of a chain stands.
#[derive(Debug, Clone, Copy, PartialEq, Eq, Structural)]
pub enum StepPhase {
    AskLocal,
    AskShallow,
    Fetch,
    AskShallowAgain,
    ReadBoundary,
    Probe,
    DropBranch,
    DropBoundary,
    FetchAnew,
    Ready,
    Broken,
}

/// One step of a chain. Where the remote has rewritten the branch, so that no
/// deepening would ever complete it, the branch is begun anew.
pub struct ChainStep {
    full_ref: String,
    short: String,
    at: ChainState,
    local: bool,
    shallow: bool,
    boundary: Vec<String>,
    reachable: Vec<bool>,
    phase: StepPhase,
    failure: Option<Error>,
}

pub struct ChainStepView {
    pub full_ref: Seq<char>,
    pub short: Seq<char>,
    pub at: ChainState,
    pub local: bool,
    pub shallow: bool,
    pub boundary: Seq<Seq<char>>,
    /// Of the boundary commits that were asked for: does the branch have them?
    pub reachable: Seq<bool>,
    pub phase: StepPhase,
    pub failure: Option<ErrorView>,
}

impl View for ChainStep {
    type V = ChainStepView;

    closed spec fn view(&self) -> ChainStepView {
        ChainStepView {
            full_ref: self.full_ref@,
            short: self.short@,
            at: self.at,
            local: self.local,
            shallow: self.shallow,
            boundary: text::texts(self.boundary@),
            reachable: self.reachable@,
            phase: self.phase,
            failure: piece_run::failure_view(self.failure),
        }
    }
}

impl ChainStepView {
    /// The fetch that the chain needs; nothing where the branch is complete.
    pub open spec fn fetch(self) -> Option<Seq<Seq<char>>> {
        gitio::chain_fetch(self.full_ref, self.short, self.at, self.local, self.shallow)
    }

    /// The fetch that begins the branch anew.
    pub open spec fn fetch_anew(self) -> Option<Seq<Seq<char>>> {
        gitio::chain_fetch(self.full_ref, self.short, self.at, false, false)
    }

    /// What is asked for in each phase.
    pub open spec fn asked(self) -> RepoRequestView {
        match self.phase {
            StepPhase::AskLocal => RepoRequestView::Git(
                Site::Piece,
                gitio::resolve_command("refs/heads/"@ + self.short),
            ),
            StepPhase::AskShallow | StepPhase::AskShallowAgain => RepoRequestView::IsShallow,
            StepPhase::Fetch => match self.fetch() {
                Some(args) => RepoRequestView::Git(Site::Piece, args),
                None => RepoRequestView::Finished,
            },
            StepPhase::ReadBoundary => RepoRequestView::ReadBoundary,
            StepPhase::Probe => RepoRequestView::Git(
                Site::Piece,
                seq![
                    "merge-base"@,
                    "--is-ancestor"@,
                    self.boundary[self.reachable.len() as int],
                    "refs/heads/"@ + self.short,
                ],
            ),
            StepPhase::DropBranch => RepoRequestView::Git(
                Site::Piece,
                seq!["update-ref"@, "-d"@, "refs/heads/"@ + self.short],
            ),
            StepPhase::DropBoundary => RepoRequestView::RemoveBoundary,
            StepPhase::FetchAnew => match self.fetch_anew() {
                Some(args) => RepoRequestView::Git(Site::Piece, args),
                None => RepoRequestView::Finished,
            },
            StepPhase::Ready | StepPhase::Broken => RepoRequestView::Finished,
        }
    }

    pub open spec fn entering(self, phase: StepPhase) -> ChainStepView {
        ChainStepView { phase, ..self }
    }

    /// Asks for the next boundary commit. When all were asked for, and the branch
    /// has none of them, it is stuck and begun anew.
    pub open spec fn probe(self) -> ChainStepView {
        if self.reachable.len() < self.boundary.len() {
            self.entering(StepPhase::Probe)
        } else if self.boundary.len() > 0 && !self.reachable.contains(true) {
            self.entering(StepPhase::DropBranch)
        } else {
            self.entering(StepPhase::Ready)
        }
    }

    /// After the answer to what was asked last.
    pub open spec fn answered(self, ev: RepoEventView) -> ChainStepView {
        match self.phase {
            StepPhase::AskLocal => ChainStepView {
                local: !(ev is Failed),
                phase: StepPhase::AskShallow,
                ..self
            },
            StepPhase::AskShallow => {
                let known = ChainStepView { shallow: ev is Yes, ..self };
                known.entering(
                    if known.fetch() is Some {
                        StepPhase::Fetch
                    } else {
                        StepPhase::Ready
                    },
                )
            },
            StepPhase::AskShallowAgain => self.entering(
                if ev is Yes {
                    StepPhase::ReadBoundary
                } else {
                    StepPhase::Ready
                },
            ),
            StepPhase::ReadBoundary => match ev {
                RepoEventView::Output(s) => ChainStepView {
                    boundary: text::lines_of(s),
                    reachable: Seq::empty(),
                    ..self
                }.probe(),
                _ => self,
            },
            StepPhase::Probe => ChainStepView {
                reachable: self.reachable.push(!(ev is Failed)),
                ..self
            }.probe(),
            _ => match ev {
                RepoEventView::Failed(e) => ChainStepView {
                    phase: StepPhase::Broken,
                    failure: Some(e),
                    ..self
                },
                _ => self.entering(
                    match self.phase {
                        StepPhase::Fetch => if self.local && !self.at.no_shallow {
                            StepPhase::AskShallowAgain
                        } else {
                            StepPhase::Ready
                        },
                        StepPhase::DropBranch => StepPhase::DropBoundary,
                        StepPhase::DropBoundary => StepPhase::FetchAnew,
                        _ => StepPhase::Ready,
                    },
                ),
            },
        }
    }

    /// What holds of a step from its beginning to its end.
    pub open spec fn sound(self) -> bool {
        match self.phase {
            StepPhase::Fetch => self.fetch() is Some,
            StepPhase::AskShallowAgain | StepPhase::ReadBoundary => !self.at.no_shallow,
            StepPhase::Probe => !self.at.no_shallow && self.reachable.len() < self.boundary.len(),
            StepPhase::DropBranch
            | StepPhase::DropBoundary
            | StepPhase::FetchAnew => {
                &&& !self.at.no_shallow
                &&& self.boundary.len() > 0
                &&& self.reachable.len() == self.boundary.len()
                &&& !self.reachable.contains(true)
            },
            _ => true,
        }
    }
}

/// Fetches one step of a chain.
pub fn fetch_chain_step(full_ref: &str, short: &str, at: ChainState) -> (r: ChainStep)
    ensures
        r@ == (ChainStepView {
            full_ref: full_ref@,
            short: short@,
            at,
            local: false,
            shallow: false,
            boundary: Seq::empty(),
            reachable: Seq::empty(),
            phase: StepPhase::AskLocal,
            failure: None,
        }),
{
    let r = ChainStep {
        full_ref: String::from_str(full_ref),
        short: String::from_str(short),
        at,
        local: false,
        shallow: false,
        boundary: Vec::new(),
        reachable: Vec::new(),
        phase: StepPhase::AskLocal,
        failure: None,
    };
    assert(text::texts(r.boundary@) =~= Seq::<Seq<char>>::empty());
    r
}

fn git_or_end(args: Option<Vec<String>>) -> (r: RepoRequest)
    ensures
        r@ == (match gitio::command(args) {
            Some(c) => RepoRequestView::Git(Site::Piece, c),
            None => RepoRequestView::Finished,
        }),
{
    match args {
        Some(args) => RepoRequest::Git(Site::Piece, args),
        None => RepoRequest::Finished,
    }
}

impl ChainStep {
    /// The machine never leaves the phases that its driver can answer.
    #[verifier::type_invariant]
    spec fn holds_together(self) -> bool {
        self@.sound()
    }

    /// What the driver has to do.
    pub fn asked(&self) -> (r: RepoRequest)
        ensures
            r@ == self@.asked(),
    {
        proof {
            use_type_invariant(self);
        }
        let branch = text::cat("refs/heads/", self.short.as_str());
        match self.phase {
            StepPhase::AskLocal => RepoRequest::Git(
                Site::Piece,
                gitio::resolve_args(branch.as_str()),
            ),
            StepPhase::AskShallow | StepPhase::AskShallowAgain => RepoRequest::IsShallow,
            StepPhase::Fetch => git_or_end(
                gitio::chain_fetch_args(
                    self.full_ref.as_str(),
                    self.short.as_str(),
                    &self.at,
                    self.local,
                    self.shallow,
                ),
            ),
            StepPhase::ReadBoundary => RepoRequest::ReadBoundary,
            StepPhase::Probe => {
                let n: usize = self.reachable.len();
                assert(text::texts(self.boundary@).len() == self.boundary@.len());
                RepoRequest::Git(
                    Site::Piece,
                    gitio::is_ancestor_args(self.boundary[n].as_str(), self.short.as_str()),
                )
            },
            StepPhase::DropBranch => RepoRequest::Git(
                Site::Piece,
                gitio::delete_ref_args(branch.as_str()),
            ),
            StepPhase::DropBoundary => RepoRequest::RemoveBoundary,
            StepPhase::FetchAnew => git_or_end(
                gitio::chain_fetch_args(
                    self.full_ref.as_str(),
                    self.short.as_str(),
                    &self.at,
                    false,
                    false,
                ),
            ),
            StepPhase::Ready | StepPhase::Broken => RepoRequest::Finished,
        }
    }

    /// What the step ended with, if it failed.
    pub fn failure(&self) -> (r: Option<Error>)
        ensures
            piece_run::failure_view(r) == self@.failure,
    {
        match &self.failure {
            Some(e) => Some(e.clone()),
            None => None,
        }
    }

    /// The same step in another phase, with what is known of the repository.
    fn moved(
        self,
        local: bool,
        shallow: bool,
        boundary: Vec<String>,
        reachable: Vec<bool>,
        phase: StepPhase,
    ) -> (r: ChainStep)
        requires
            (ChainStepView {
                local,
                shallow,
                boundary: text::texts(boundary@),
                reachable: reachable@,
                phase,
                ..self@
            }).sound(),
        ensures
            r@ == (ChainStepView {
                local,
                shallow,
                boundary: text::texts(boundary@),
                reachable: reachable@,
                phase,
                ..self@
            }),
    {
        ChainStep {
            full_ref: self.full_ref,
            short: self.short,
            at: self.at,
            local,
            shallow,
            boundary,
            reachable,
            phase,
            failure: self.failure,
        }
    }

    /// Takes the driver's answer and decides what comes next.
    pub fn step(self, ev: RepoEvent) -> (r: ChainStep)
        requires
            answers(self@.asked(), ev@),
        ensures
            r@ == self@.answered(ev@),
    {
        proof {
            use_type_invariant(&self);
        }
        let failed: bool = matches!(ev, RepoEvent::Failed(_));
        let yes: bool = matches!(ev, RepoEvent::Yes);
        match self.phase {
            StepPhase::AskLocal => ChainStep {
                full_ref: self.full_ref,
                short: self.short,
                at: self.at,
                local: !failed,
                shallow: self.shallow,
                boundary: self.boundary,
                reachable: self.reachable,
                phase: StepPhase::AskShallow,
                failure: self.failure,
            },
            StepPhase::AskShallow => {
                let needed: bool = gitio::chain_fetch_args(
                    self.full_ref.as_str(),
                    self.short.as_str(),
                    &self.at,
                    self.local,
                    yes,
                ).is_some();
                ChainStep {
                    full_ref: self.full_ref,
                    short: self.short,
                    at: self.at,
                    local: self.local,
                    shallow: yes,
                    boundary: self.boundary,
                    reachable: self.reachable,
                    phase: if needed {
                        StepPhase::Fetch
                    } else {
                        StepPhase::Ready
                    },
                    failure: self.failure,
                }
            },
            StepPhase::AskShallowAgain => self.entering(
                if yes {
                    StepPhase::ReadBoundary
                } else {
                    StepPhase::Ready
                },
            ),
            StepPhase::ReadBoundary => match ev {
                RepoEvent::Output(s) => self.probing(
                    gitio::boundary_commits(s.as_str()),
                    Vec::new(),
                ),
                _ => self,
            },
            StepPhase::Probe => {
                let mut reachable = self.reachable.clone();
                reachable.push(!failed);
                let boundary = clone_texts(&self.boundary);
                self.probing(boundary, reachable)
            },
            _ => match ev {
                RepoEvent::Failed(e) => ChainStep {
                    full_ref: self.full_ref,
                    short: self.short,
                    at: self.at,
                    local: self.local,
                    shallow: self.shallow,
                    boundary: self.boundary,
                    reachable: self.reachable,
                    phase: StepPhase::Broken,
                    failure: Some(e),
                },
                _ => {
                    let next = match self.phase {
                        StepPhase::Fetch => if self.local && !self.at.no_shallow {
                            StepPhase::AskShallowAgain
                        } else {
                            StepPhase::Ready
                        },
                        StepPhase::DropBranch => StepPhase::DropBoundary,
                        StepPhase::DropBoundary => StepPhase::FetchAnew,
                        _ => StepPhase::Ready,
                    };
                    self.entering(next)
                },
            },
        }
    }

    fn entering(self, phase: StepPhase) -> (r: ChainStep)
        requires
            self@.entering(phase).sound(),
        ensures
            r@ == self@.entering(phase),
    {
        ChainStep {
            full_ref: self.full_ref,
            short: self.short,
            at: self.at,
            local: self.local,
            shallow: self.shallow,
            boundary: self.boundary,
            reachable: self.reachable,
            phase,
            failure: self.failure,
        }
    }

    fn probing(self, boundary: Vec<String>, reachable: Vec<bool>) -> (r: ChainStep)
        requires
            !self@.at.no_shallow,
            reachable@.len() <= boundary@.len(),
        ensures
            r@ == (ChainStepView {
                boundary: text::texts(boundary@),
                reachable: reachable@,
                ..self@
            }).probe(),
    {
        assert(text::texts(boundary@).len() == boundary@.len());
        let phase = if reachable.len() < boundary.len() {
            StepPhase::Probe
        } else if gitio::is_wedged(&reachable) {
            StepPhase::DropBranch
        } else {
            StepPhase::Ready
        };
        let (local, shallow) = (self.local, self.shallow);
        self.moved(local, shallow, boundary, reachable, phase)
    }
}

fn clone_texts(v: &Vec<String>) -> (r: Vec<String>)
    ensures
        text::texts(r@) == text::texts(v@),
{
    let mut out: Vec<String> = Vec::new();
    for i in 0..v.len()
        invariant
            text::texts(out@) == text::texts(v@).take(i as int),
    {
        let ghost so_far = out@;
        out.push(v[i].clone());
        assert(text::texts(out@) =~= text::texts(so_far).push(v@[i as int]@));
        assert(text::texts(out@) =~= text::texts(v@).take(i + 1));
    }
    assert(text::texts(v@).take(v@.len() as int) =~= text::texts(v@));
    out
}

// ----------------------------------------------------------------------- laws

/// Whatever the driver answers, a sound set-up stays sound.
pub proof fn law_setup_stays_sound(s: SetupView, ev: RepoEventView)
    requires
        s.sound(),
        answers(s.asked(), ev),
    ensures
        s.answered(ev).sound(),
        s.answered(ev).subject == s.subject,
        s.answered(ev).url == s.url,
{
}

/// The repository of a piece that is there and sound is left alone: the fetched
/// steps of a chain survive.
pub proof fn law_sound_piece_repo_is_kept(s: SetupView, ev: RepoEventView)
    requires
        s.sound(),
        answers(s.asked(), ev),
        s.answered(ev).phase is Remove,
    ensures
        s.subject is Piece,
        s.phase is Check,
        ev is Failed,
{
}

/// A repository that was made is ready only when nothing is collected in it as
/// garbage any more.
pub proof fn law_ready_means_no_garbage_collection(s: SetupView, ev: RepoEventView)
    requires
        s.sound(),
        answers(s.asked(), ev),
        s.answered(ev).phase is Ready,
    ensures
        s.phase is NoGc || s.phase is Check,
        ev is Output,
{
}

/// The steps that a set-up can still take, at most.
pub open spec fn setup_left(s: SetupView) -> nat {
    match (s.subject, s.phase) {
        (SubjectView::Main { .. }, Phase::Make) => 12,
        (_, Phase::Look) => 11,
        (_, Phase::Check) => 10,
        (_, Phase::Remove) => 9,
        (_, Phase::Make) => 8,
        (_, Phase::AskRefs) => 7,
        (_, Phase::Create) => 6,
        (_, Phase::AskOrigin) => 5,
        (_, Phase::AddOrigin) => 4,
        (_, Phase::Borrow) => 3,
        (_, Phase::NoGc) => 2,
        _ => 0,
    }
}

/// Every set-up ends.
pub proof fn law_every_setup_ends(s: SetupView, ev: RepoEventView)
    requires
        s.sound(),
        answers(s.asked(), ev),
    ensures
        setup_left(s.answered(ev)) < setup_left(s),
{
}

/// A branch is begun anew only when the branch has no commit of its boundary, and
/// never where full fetches are taken.
pub proof fn law_only_a_stuck_branch_is_dropped(s: ChainStepView, ev: RepoEventView)
    requires
        s.sound(),
        answers(s.asked(), ev),
    ensures
        s.answered(ev).sound(),
        s.answered(ev).phase is DropBranch ==> {
            &&& !s.at.no_shallow
            &&& s.answered(ev).boundary.len() > 0
            &&& s.answered(ev).reachable.len() == s.answered(ev).boundary.len()
            &&& !s.answered(ev).reachable.contains(true)
        },
{
}

/// The steps that a step of a chain can still take, at most.
pub open spec fn chain_left(s: ChainStepView) -> (nat, nat) {
    match s.phase {
        StepPhase::AskLocal => (9, 0),
        StepPhase::AskShallow => (8, 0),
        StepPhase::Fetch => (7, 0),
        StepPhase::AskShallowAgain => (6, 0),
        StepPhase::ReadBoundary => (5, 0),
        StepPhase::Probe => (4, (s.boundary.len() - s.reachable.len()) as nat),
        StepPhase::DropBranch => (3, 0),
        StepPhase::DropBoundary => (2, 0),
        StepPhase::FetchAnew => (1, 0),
        StepPhase::Ready | StepPhase::Broken => (0, 0),
    }
}

/// Every step of a chain ends: the branch is begun anew at most once.
pub proof fn law_every_chain_step_ends(s: ChainStepView, ev: RepoEventView)
    requires
        s.sound(),
        answers(s.asked(), ev),
    ensures
        ({
            let (now, then) = (chain_left(s), chain_left(s.answered(ev)));
            then.0 < now.0 || then.0 == now.0 && then.1 < now.1
        }),
{
}

/// What the set-up of the main repository asks for in each phase, argument by argument.
pub proof fn law_requests_for_the_main_repository(s: SetupView, main: Seq<char>)
    requires
        s.subject == (SubjectView::Main { main }),
    ensures
        s.phase is Make ==> s.asked() is MakeDir,
        s.phase is Look ==> s.asked() is IsRepo,
        s.phase is Create ==> s.asked() == RepoRequestView::Git(
            Site::Anywhere,
            seq!["init"@, "--quiet"@, main],
        ),
        s.phase is AskOrigin ==> s.asked() == RepoRequestView::Git(
            Site::Main,
            seq!["remote"@, "get-url"@, "origin"@],
        ),
        s.phase is AddOrigin ==> s.asked() == RepoRequestView::Git(
            Site::Main,
            seq!["remote"@, "add"@, "origin"@, s.url],
        ),
        s.phase is NoGc ==> s.asked() == RepoRequestView::Git(
            Site::Main,
            seq!["config"@, "gc.auto"@, "0"@],
        ),
        s.phase is Ready || s.phase is Broken ==> s.asked() is Finished,
{
}

/// What the set-up of the repository of a piece asks for in each phase, argument by
/// argument.
pub proof fn law_requests_for_the_repository_of_a_piece(
    s: SetupView,
    main: Seq<char>,
    piece: Seq<char>,
)
    requires
        s.subject == (SubjectView::Piece { main, piece }),
    ensures
        s.phase is Look ==> s.asked() is IsRepo,
        s.phase is Check ==> s.asked() == RepoRequestView::Git(
            Site::Piece,
            seq!["rev-parse"@, "--git-dir"@],
        ),
        s.phase is Remove ==> s.asked() is RemoveDir,
        s.phase is Make ==> s.asked() is MakeDir,
        s.phase is AskRefs ==> s.asked() == RepoRequestView::Git(
            Site::Main,
            seq![
                "for-each-ref"@,
                "--count=1"@,
                "refs/remotes/origin"@,
                "refs/tags"@,
                "refs/heads"@,
            ],
        ),
        s.phase is Create && s.shared ==> s.asked() == RepoRequestView::Git(
            Site::Anywhere,
            seq!["clone"@, "--shared"@, "--no-checkout"@, "--quiet"@, main, piece],
        ),
        s.phase is Create && !s.shared ==> s.asked() == RepoRequestView::Git(
            Site::Anywhere,
            seq!["init"@, "--quiet"@, piece],
        ),
        s.phase is AskOrigin ==> s.asked() == RepoRequestView::Git(
            Site::Piece,
            seq!["remote"@, "set-url"@, "origin"@, s.url],
        ),
        s.phase is AddOrigin ==> s.asked() == RepoRequestView::Git(
            Site::Piece,
            seq!["remote"@, "add"@, "origin"@, s.url],
        ),
        s.phase is Borrow ==> s.asked() == RepoRequestView::Git(
            Site::Piece,
            seq![
                "fetch"@,
                "--quiet"@,
                main,
                "+refs/remotes/origin/*:refs/remotes/origin/*"@,
                "+refs/tags/*:refs/tags/*"@,
            ],
        ),
        s.phase is NoGc ==> s.asked() == RepoRequestView::Git(
            Site::Piece,
            seq!["config"@, "gc.auto"@, "0"@],
        ),
        s.phase is Ready || s.phase is Broken ==> s.asked() is Finished,
{
}

/// The main repository, step by step: its directory, then the repository in it where
/// there is none, then its origin where it has none, and then no garbage collection.
/// Nothing else changes on the way.
pub proof fn law_steps_of_the_main_repository(s: SetupView, e: ErrorView, out: Seq<char>)
    requires
        s.subject is Main,
        !s.shared,
    ensures
        s.phase is Make ==> s.answered(RepoEventView::Done) == (SetupView { phase: Phase::Look, ..s }),
        s.phase is Look ==> s.answered(RepoEventView::Yes) == (SetupView {
            phase: Phase::AskOrigin,
            ..s
        }) && s.answered(RepoEventView::No) == (SetupView { phase: Phase::Create, ..s }),
        s.phase is Create ==> s.answered(RepoEventView::Output(out)) == (SetupView {
            phase: Phase::AskOrigin,
            ..s
        }),
        s.phase is AskOrigin ==> s.answered(RepoEventView::Output(out)) == (SetupView {
            phase: Phase::NoGc,
            ..s
        }) && s.answered(RepoEventView::Failed(e)) == (SetupView { phase: Phase::AddOrigin, ..s }),
        s.phase is AddOrigin ==> s.answered(RepoEventView::Output(out)) == (SetupView {
            phase: Phase::NoGc,
            ..s
        }),
        s.phase is NoGc ==> s.answered(RepoEventView::Output(out)) == (SetupView {
            phase: Phase::Ready,
            ..s
        }),
{
}

/// The repository of a piece, step by step. One that is there and sound is taken as it
/// is; a damaged one is removed; then it is made, and borrows from the main repository
/// exactly if that has any refs: its objects, and the refs once the origin is set. At
/// last nothing is collected in it as garbage.
pub proof fn law_steps_of_the_repository_of_a_piece(s: SetupView, e: ErrorView, out: Seq<char>)
    requires
        s.subject is Piece,
    ensures
        s.phase is Look ==> s.answered(RepoEventView::Yes) == (SetupView {
            phase: Phase::Check,
            ..s
        }) && s.answered(RepoEventView::No) == (SetupView { phase: Phase::Make, ..s }),
        s.phase is Check ==> s.answered(RepoEventView::Output(out)) == (SetupView {
            phase: Phase::Ready,
            ..s
        }) && s.answered(RepoEventView::Failed(e)) == (SetupView { phase: Phase::Remove, ..s }),
        s.phase is Remove ==> s.answered(RepoEventView::Done) == (SetupView {
            phase: Phase::Make,
            ..s
        }),
        s.phase is Make ==> s.answered(RepoEventView::Done) == (SetupView {
            phase: Phase::AskRefs,
            ..s
        }),
        s.phase is AskRefs ==> s.answered(RepoEventView::Output(out)) == (SetupView {
            shared: text::trimmed(out).len() > 0,
            phase: Phase::Create,
            ..s
        }) && s.answered(RepoEventView::Failed(e)) == (SetupView {
            shared: false,
            phase: Phase::Create,
            ..s
        }),
        s.phase is Create ==> s.answered(RepoEventView::Output(out)) == (SetupView {
            phase: Phase::AskOrigin,
            ..s
        }),
        ({
            let next = SetupView {
                phase: if s.shared {
                    Phase::Borrow
                } else {
                    Phase::NoGc
                },
                ..s
            };
            &&& s.phase is AskOrigin ==> s.answered(RepoEventView::Output(out)) == next
            &&& s.phase is AddOrigin ==> s.answered(RepoEventView::Output(out)) == next
        }),
        s.phase is AskOrigin ==> s.answered(RepoEventView::Failed(e)) == (SetupView {
            phase: Phase::AddOrigin,
            ..s
        }),
        s.phase is Borrow ==> s.answered(RepoEventView::Output(out)) == (SetupView {
            phase: Phase::NoGc,
            ..s
        }),
        s.phase is NoGc ==> s.answered(RepoEventView::Output(out)) == (SetupView {
            phase: Phase::Ready,
            ..s
        }),
{
}

/// What cannot be made breaks the set-up, with that very failure: a directory that is
/// not made or removed, a repository that is not created, an origin that is not added,
/// refs that are not borrowed, and garbage collection that is not switched off.
pub proof fn law_what_breaks_a_setup(s: SetupView, e: ErrorView)
    requires
        s.phase is Make || s.phase is Remove || s.phase is Create || s.phase is AddOrigin
            || s.phase is Borrow || s.phase is NoGc,
    ensures
        s.answered(RepoEventView::Failed(e)) == (SetupView {
            phase: Phase::Broken,
            failure: Some(e),
            ..s
        }),
{
}

/// What a step of a chain asks for in each phase, argument by argument.
pub proof fn law_requests_of_a_chain_step(s: ChainStepView)
    requires
        s.sound(),
    ensures
        s.phase is AskLocal ==> s.asked() == RepoRequestView::Git(
            Site::Piece,
            seq!["rev-parse"@, "--verify"@, "refs/heads/"@ + s.short],
        ),
        s.phase is AskShallow || s.phase is AskShallowAgain ==> s.asked() is IsShallow,
        s.phase is Fetch ==> s.asked() == RepoRequestView::Git(
            Site::Piece,
            gitio::chain_fetch(s.full_ref, s.short, s.at, s.local, s.shallow)->0,
        ),
        s.phase is ReadBoundary ==> s.asked() is ReadBoundary,
        s.phase is Probe ==> s.asked() == RepoRequestView::Git(
            Site::Piece,
            seq![
                "merge-base"@,
                "--is-ancestor"@,
                s.boundary[s.reachable.len() as int],
                "refs/heads/"@ + s.short,
            ],
        ),
        s.phase is DropBranch ==> s.asked() == RepoRequestView::Git(
            Site::Piece,
            seq!["update-ref"@, "-d"@, "refs/heads/"@ + s.short],
        ),
        s.phase is DropBoundary ==> s.asked() is RemoveBoundary,
        s.phase is FetchAnew ==> s.asked() == RepoRequestView::Git(
            Site::Piece,
            seq![
                "fetch"@,
                "--quiet"@,
                "--depth="@ + text::decimal((s.at.depth_done + s.at.step) as nat),
                "origin"@,
                "+"@ + s.full_ref + ":"@ + ("refs/heads/"@ + s.short),
            ],
        ),
        s.phase is Ready || s.phase is Broken ==> s.asked() is Finished,
{
}

/// A step of a chain, from answer to answer. It learns whether the branch is there and
/// whether it is shallow, and fetches unless the branch is complete. A branch that was
/// there, and is shallow still, is looked at for being stuck. Nothing else changes on
/// the way.
pub proof fn law_answers_of_a_chain_step(s: ChainStepView, e: ErrorView, out: Seq<char>)
    ensures
        s.phase is AskLocal ==> {
            &&& s.answered(RepoEventView::Output(out)) == (ChainStepView {
                local: true,
                phase: StepPhase::AskShallow,
                ..s
            })
            &&& s.answered(RepoEventView::Failed(e)) == (ChainStepView {
                local: false,
                phase: StepPhase::AskShallow,
                ..s
            })
        },
        s.phase is AskShallow ==> {
            &&& s.answered(RepoEventView::Yes) == (ChainStepView {
                shallow: true,
                phase: StepPhase::Fetch,
                ..s
            })
            &&& s.answered(RepoEventView::No) == (ChainStepView {
                shallow: false,
                phase: if s.local && !s.at.no_shallow {
                    StepPhase::Ready
                } else {
                    StepPhase::Fetch
                },
                ..s
            })
        },
        s.phase is Fetch ==> s.answered(RepoEventView::Output(out)) == (ChainStepView {
            phase: if s.local && !s.at.no_shallow {
                StepPhase::AskShallowAgain
            } else {
                StepPhase::Ready
            },
            ..s
        }),
        s.phase is AskShallowAgain ==> {
            &&& s.answered(RepoEventView::Yes) == (ChainStepView {
                phase: StepPhase::ReadBoundary,
                ..s
            })
            &&& s.answered(RepoEventView::No) == (ChainStepView { phase: StepPhase::Ready, ..s })
        },
        s.phase is DropBranch ==> s.answered(RepoEventView::Output(out)) == (ChainStepView {
            phase: StepPhase::DropBoundary,
            ..s
        }),
        s.phase is DropBoundary ==> s.answered(RepoEventView::Done) == (ChainStepView {
            phase: StepPhase::FetchAnew,
            ..s
        }),
        s.phase is FetchAnew ==> s.answered(RepoEventView::Output(out)) == (ChainStepView {
            phase: StepPhase::Ready,
            ..s
        }),
        s.phase is Fetch || s.phase is DropBranch || s.phase is DropBoundary || s.phase is FetchAnew
            ==> s.answered(RepoEventView::Failed(e)) == (ChainStepView {
            phase: StepPhase::Broken,
            failure: Some(e),
            ..s
        }),
{
}

/// The boundary is gone through commit by commit, and each answer is kept in its place.
/// Only when all were asked for, and the branch has none of them, is it begun anew.
pub proof fn law_boundary_is_gone_through(s: ChainStepView, e: ErrorView, out: Seq<char>)
    ensures
        s.phase is ReadBoundary ==> s.answered(RepoEventView::Output(out)) == (ChainStepView {
            boundary: text::lines_of(out),
            reachable: Seq::empty(),
            ..s
        }).probe(),
        s.phase is Probe ==> {
            &&& s.answered(RepoEventView::Output(out)) == (ChainStepView {
                reachable: s.reachable.push(true),
                ..s
            }).probe()
            &&& s.answered(RepoEventView::Failed(e)) == (ChainStepView {
                reachable: s.reachable.push(false),
                ..s
            }).probe()
        },
        s.reachable.len() < s.boundary.len() ==> s.probe() == (ChainStepView {
            phase: StepPhase::Probe,
            ..s
        }),
        s.reachable.len() >= s.boundary.len() ==> s.probe() == (ChainStepView {
            phase: if s.boundary.len() > 0 && (forall|i: int|
                0 <= i < s.reachable.len() ==> !#[trigger] s.reachable[i]) {
                StepPhase::DropBranch
            } else {
                StepPhase::Ready
            },
            ..s
        }),
{
    if s.reachable.contains(true) {
        let i = choose|i: int| 0 <= i < s.reachable.len() && s.reachable[i] == true;
        assert(s.reachable[i]);
    } else {
        assert forall|i: int| 0 <= i < s.reachable.len() implies !#[trigger] s.reachable[i] by {
            if s.reachable[i] {
                assert(s.reachable.contains(true));
            }
        }
    }
}

/// Requests and events are spoken of by what they carry.
pub proof fn law_what_repo_events_carry(q: RepoRequest, ev: RepoEvent, u: Subject)
    ensures
        match q {
            RepoRequest::MakeDir => q@ is MakeDir,
            RepoRequest::IsRepo => q@ is IsRepo,
            RepoRequest::RemoveDir => q@ is RemoveDir,
            RepoRequest::Git(site, args) => q@ == RepoRequestView::Git(site, text::texts(args@)),
            RepoRequest::IsShallow => q@ is IsShallow,
            RepoRequest::ReadBoundary => q@ is ReadBoundary,
            RepoRequest::RemoveBoundary => q@ is RemoveBoundary,
            RepoRequest::Finished => q@ is Finished,
        },
        match ev {
            RepoEvent::Done => ev@ is Done,
            RepoEvent::Yes => ev@ is Yes,
            RepoEvent::No => ev@ is No,
            RepoEvent::Output(s) => ev@ == RepoEventView::Output(s@),
            RepoEvent::Failed(e) => ev@ == RepoEventView::Failed(e@),
        },
        match u {
            Subject::Main { main } => u@ == (SubjectView::Main { main: main@ }),
            Subject::Piece { main, piece } => u@ == (SubjectView::Piece {
                main: main@,
                piece: piece@,
            }),
        },
{
}

/// Which answers there are to each request about a repository.
pub proof fn law_what_can_be_answered(
    site: Site,
    args: Seq<Seq<char>>,
    out: Seq<char>,
    e: ErrorView,
)
    ensures
        answers(RepoRequestView::MakeDir, RepoEventView::Done),
        answers(RepoRequestView::MakeDir, RepoEventView::Failed(e)),
        answers(RepoRequestView::RemoveDir, RepoEventView::Done),
        answers(RepoRequestView::RemoveDir, RepoEventView::Failed(e)),
        answers(RepoRequestView::RemoveBoundary, RepoEventView::Done),
        answers(RepoRequestView::RemoveBoundary, RepoEventView::Failed(e)),
        answers(RepoRequestView::IsRepo, RepoEventView::Yes),
        answers(RepoRequestView::IsRepo, RepoEventView::No),
        answers(RepoRequestView::IsShallow, RepoEventView::Yes),
        answers(RepoRequestView::IsShallow, RepoEventView::No),
        answers(RepoRequestView::Git(site, args), RepoEventView::Output(out)),
        answers(RepoRequestView::Git(site, args), RepoEventView::Failed(e)),
        answers(RepoRequestView::ReadBoundary, RepoEventView::Output(out)),
{
}

} // verus!

//! The plan of a clone: one chain of shallow steps per branch, and the tags in
//! batches. A plan is fixed once made; its fingerprint ties the state to it.

use crate::errors::{Error, ErrorView};
use crate::refs;
use crate::refs::{RefEntry, RefEntryView, RemoteRefs, RemoteRefsView};
use crate::text;
use vstd::prelude::*;

verus! {

pub const INITIAL_STEP: u32 = 10_000;

pub const MIN_STEP: u32 = 100;

pub const MAX_STEP: u32 = 5_000_000;

#[derive(Debug, Clone, Copy)]
pub struct PlannerConfig {
    pub tags_per_batch: usize,
    pub initial_step: u32,
}

impl Default for PlannerConfig {
    fn default() -> (r: PlannerConfig)
        ensures
            r.tags_per_batch == 32,
            r.initial_step == INITIAL_STEP,
    {
        PlannerConfig { tags_per_batch: 32, initial_step: INITIAL_STEP }
    }
}

// --------------------------------------------------------------------- pieces

/// One independent download: the history of a branch, or a batch of tags.
#[derive(Debug)]
pub enum Piece {
    Chain { full_ref: String, short_name: String },
    TagBatch { tags: Vec<RefEntry> },
}

pub enum PieceView {
    Chain { full_ref: Seq<char>, short_name: Seq<char> },
    TagBatch { tags: Seq<RefEntryView> },
}

impl View for Piece {
    type V = PieceView;

    open spec fn view(&self) -> PieceView {
        match self {
            Piece::Chain { full_ref, short_name } => PieceView::Chain {
                full_ref: full_ref@,
                short_name: short_name@,
            },
            Piece::TagBatch { tags } => PieceView::TagBatch { tags: refs::entries(tags@) },
        }
    }
}

impl PieceView {
    /// A batch holds at least one tag.
    pub open spec fn wf(self) -> bool {
        self matches PieceView::TagBatch { tags } ==> tags.len() > 0
    }

    /// The name by which the state refers to the piece.
    pub open spec fn id(self) -> Seq<char> {
        match self {
            PieceView::Chain { full_ref, .. } => "chain:"@ + full_ref,
            PieceView::TagBatch { tags } => "tags:"@ + tags[0].short_name,
        }
    }

    /// The name of the piece's directory: what the id says, on one path level. Each
    /// id has a directory of its own.
    pub open spec fn dir_name(self) -> Seq<char> {
        match self {
            PieceView::Chain { full_ref, .. } => "chain_"@ + on_one_level(full_ref),
            PieceView::TagBatch { tags } => "tags_"@ + on_one_level(tags[0].short_name),
        }
    }
}

/// A character of a ref in the name of a directory. The slash becomes an underscore,
/// so the underscore itself has to be escaped, and the sign of an escape too.
pub open spec fn in_file_name(c: char) -> Seq<char> {
    if c == '/' {
        seq!['_']
    } else if c == '_' {
        seq!['%', '5', 'F']
    } else if c == '%' {
        seq!['%', '2', '5']
    } else if c == ':' {
        seq!['%', '3', 'A']
    } else {
        seq![c]
    }
}

/// The name of a ref without any `/` or `:`.
pub open spec fn on_one_level(s: Seq<char>) -> Seq<char>
    decreases s.len(),
{
    if s.len() == 0 {
        Seq::empty()
    } else {
        in_file_name(s[0]) + on_one_level(s.skip(1))
    }
}

/// Appends the name of a ref, escaped.
fn push_on_one_level(out: &mut String, name: &str)
    ensures
        final(out)@ == old(out)@ + on_one_level(name@),
{
    let ghost start = out@;
    let from = text::chars_of(name);
    assert(from@.skip(0) =~= from@);
    for i in 0..from.len()
        invariant
            from@ == name@,
            out@ + on_one_level(name@.skip(i as int)) == start + on_one_level(name@),
    {
        let c = from[i];
        let ghost so_far = out@;
        if c == '/' {
            out.push('_');
        } else if c == '_' {
            out.push('%');
            out.push('5');
            out.push('F');
        } else if c == '%' {
            out.push('%');
            out.push('2');
            out.push('5');
        } else if c == ':' {
            out.push('%');
            out.push('3');
            out.push('A');
        } else {
            out.push(c);
        }
        proof {
            let rest = name@.skip(i as int);
            assert(rest[0] == c);
            assert(rest.skip(1) =~= name@.skip(i + 1));
            assert(out@ =~= so_far + in_file_name(c));
            assert(out@ + on_one_level(rest.skip(1)) =~= so_far + on_one_level(rest));
        }
    }
    assert(name@.skip(from@.len() as int) =~= Seq::<char>::empty());
    assert(out@ + on_one_level(name@.skip(from@.len() as int)) =~= out@);
}

impl Clone for Piece {
    fn clone(&self) -> (r: Piece)
        ensures
            r@ == self@,
    {
        match self {
            Piece::Chain { full_ref, short_name } => Piece::Chain {
                full_ref: full_ref.clone(),
                short_name: short_name.clone(),
            },
            Piece::TagBatch { tags } => Piece::TagBatch { tags: refs::clone_entries(tags) },
        }
    }
}

impl Piece {
    pub fn id(&self) -> (r: String)
        requires
            self@.wf(),
        ensures
            r@ == self@.id(),
    {
        match self {
            Piece::Chain { full_ref, .. } => text::cat("chain:", full_ref.as_str()),
            Piece::TagBatch { tags } => {
                assert(refs::entries(tags@).len() > 0);
                text::cat("tags:", tags[0].short_name.as_str())
            },
        }
    }

    pub fn piece_dir_name(&self) -> (r: String)
        requires
            self@.wf(),
        ensures
            r@ == self@.dir_name(),
    {
        match self {
            Piece::Chain { full_ref, .. } => {
                let mut out = String::from_str("chain_");
                push_on_one_level(&mut out, full_ref.as_str());
                out
            },
            Piece::TagBatch { tags } => {
                assert(refs::entries(tags@).len() > 0);
                let mut out = String::from_str("tags_");
                push_on_one_level(&mut out, tags[0].short_name.as_str());
                out
            },
        }
    }
}

/// The pieces behind a sequence of pieces.
pub open spec fn piece_views(v: Seq<Piece>) -> Seq<PieceView> {
    v.map_values(|p: Piece| p@)
}

// ----------------------------------------------------------------------- plan

#[derive(Debug)]
pub struct Plan {
    pub url: String,
    pub default_branch: Option<String>,
    pub initial_step: u32,
    pub pieces: Vec<Piece>,
}

pub struct PlanView {
    pub url: Seq<char>,
    pub default_branch: Option<Seq<char>>,
    pub initial_step: u32,
    pub pieces: Seq<PieceView>,
}

impl View for Plan {
    type V = PlanView;

    open spec fn view(&self) -> PlanView {
        PlanView {
            url: self.url@,
            default_branch: refs::opt_text(self.default_branch),
            initial_step: self.initial_step,
            pieces: piece_views(self.pieces@),
        }
    }
}

impl PlanView {
    /// No batch of the plan is empty.
    pub open spec fn wf(self) -> bool {
        forall|i: int| 0 <= i < self.pieces.len() ==> (#[trigger] self.pieces[i]).wf()
    }

    /// The ids of the pieces, in their order.
    pub open spec fn ids(self) -> Seq<Seq<char>> {
        self.pieces.map_values(|p: PieceView| p.id())
    }

    /// What the fingerprint is taken of: the URL and the ids, a line each.
    pub open spec fn fingerprint_text(self) -> Seq<char> {
        labelled(self.url, self.ids())
    }

    /// The FNV-1a hash of that text, in hexadecimal.
    pub open spec fn fingerprint(self) -> Seq<char> {
        text::hex16(fnv1a(vstd::utf8::encode_utf8(self.fingerprint_text())))
    }
}

/// `head` and then each of `rest` on a line of its own.
pub open spec fn labelled(head: Seq<char>, rest: Seq<Seq<char>>) -> Seq<char>
    decreases rest.len(),
{
    if rest.len() == 0 {
        head
    } else {
        labelled(head, rest.drop_last()).push('\n') + rest.last()
    }
}

/// The 64-bit FNV-1a hash.
pub open spec fn fnv1a(bytes: Seq<u8>) -> u64
    decreases bytes.len(),
{
    if bytes.len() == 0 {
        0xcbf2_9ce4_8422_2325
    } else {
        (fnv1a(bytes.drop_last()) ^ (bytes.last() as u64)).wrapping_mul(0x0000_0100_0000_01b3)
    }
}

fn hash(bytes: &[u8]) -> (r: u64)
    ensures
        r == fnv1a(bytes@),
{
    let mut h: u64 = 0xcbf2_9ce4_8422_2325;
    for i in 0..bytes.len()
        invariant
            h == fnv1a(bytes@.take(i as int)),
    {
        assert(bytes@.take(i + 1).drop_last() =~= bytes@.take(i as int));
        h = (h ^ (bytes[i] as u64)).wrapping_mul(0x0000_0100_0000_01b3);
    }
    assert(bytes@.take(bytes@.len() as int) =~= bytes@);
    h
}

impl Clone for Plan {
    fn clone(&self) -> (r: Plan)
        ensures
            r@ == self@,
    {
        let mut pieces: Vec<Piece> = Vec::new();
        for i in 0..self.pieces.len()
            invariant
                piece_views(pieces@) == piece_views(self.pieces@).take(i as int),
        {
            let ghost before = pieces@;
            pieces.push(self.pieces[i].clone());
            assert(piece_views(pieces@) =~= piece_views(before).push(self.pieces@[i as int]@));
            assert(piece_views(pieces@) =~= piece_views(self.pieces@).take(i + 1));
        }
        assert(piece_views(self.pieces@).take(self.pieces@.len() as int) =~= piece_views(
            self.pieces@,
        ));
        Plan {
            url: self.url.clone(),
            default_branch: refs::clone_opt(&self.default_branch),
            initial_step: self.initial_step,
            pieces,
        }
    }
}

impl Plan {
    /// Has every batch a tag? A plan that was read from a file need not.
    pub fn is_valid(&self) -> (r: bool)
        ensures
            r == self@.wf(),
    {
        for i in 0..self.pieces.len()
            invariant
                forall|j: int| 0 <= j < i ==> (#[trigger] self@.pieces[j]).wf(),
        {
            assert(self@.pieces[i as int] == self.pieces@[i as int]@);
            if let Piece::TagBatch { tags } = &self.pieces[i] {
                assert(refs::entries(tags@).len() == tags@.len());
                if tags.len() == 0 {
                    return false;
                }
            }
        }
        true
    }

    /// What ties a state to this plan: a hash of the URL and of the piece ids in
    /// their order.
    pub fn fingerprint(&self) -> (r: String)
        requires
            self@.wf(),
        ensures
            r@ == self@.fingerprint(),
    {
        let mut all = self.url.clone();
        assert(self@.ids().take(0) =~= seq![]);
        for i in 0..self.pieces.len()
            invariant
                self@.wf(),
                all@ == labelled(self@.url, self@.ids().take(i as int)),
        {
            assert(self@.pieces[i as int].wf());
            all.push('\n');
            all.append(self.pieces[i].id().as_str());
            assert(self@.ids().take(i + 1).drop_last() =~= self@.ids().take(i as int));
        }
        assert(self@.ids().take(self.pieces@.len() as int) =~= self@.ids());
        text::to_hex16(hash(all.as_str().as_bytes()))
    }
}

// ------------------------------------------------------------------- planning

pub open spec fn chain_of(e: RefEntryView) -> PieceView {
    PieceView::Chain { full_ref: e.full_name, short_name: e.short_name }
}

/// One chain per branch, in the order of the listing.
pub open spec fn chains_of(branches: Seq<RefEntryView>) -> Seq<PieceView> {
    branches.map_values(|e: RefEntryView| chain_of(e))
}

/// The tags in batches of `n`, the last one with what is left.
pub open spec fn batches_of(tags: Seq<RefEntryView>, n: nat) -> Seq<PieceView>
    decreases tags.len(),
{
    if tags.len() == 0 || n == 0 {
        seq![]
    } else if tags.len() <= n {
        seq![PieceView::TagBatch { tags }]
    } else {
        seq![PieceView::TagBatch { tags: tags.take(n as int) }] + batches_of(
            tags.skip(n as int),
            n,
        )
    }
}

/// Is this the branch of that name?
pub open spec fn named(name: Seq<char>) -> spec_fn(RefEntryView) -> bool {
    |e: RefEntryView| e.short_name == name
}

pub open spec fn not_named(name: Seq<char>) -> spec_fn(RefEntryView) -> bool {
    |e: RefEntryView| e.short_name != name
}

/// The branches with the default one first and the others as they were.
pub open spec fn default_first(
    branches: Seq<RefEntryView>,
    default: Option<Seq<char>>,
) -> Seq<RefEntryView> {
    match default {
        Some(name) => branches.filter(named(name)) + branches.filter(not_named(name)),
        None => branches,
    }
}

/// The pieces of a clone: the chains, that of the default branch first, and
/// then the batches of tags.
pub open spec fn planned_pieces(remote: RemoteRefsView, tags_per_batch: nat) -> Seq<PieceView> {
    chains_of(default_first(remote.branches, remote.default_branch)) + batches_of(
        remote.tags,
        tags_per_batch,
    )
}

pub open spec fn planned(url: Seq<char>, remote: RemoteRefsView, cfg: PlannerConfig) -> PlanView {
    PlanView {
        url,
        default_branch: remote.default_branch,
        initial_step: cfg.initial_step,
        pieces: planned_pieces(remote, cfg.tags_per_batch as nat),
    }
}

/// Appends the chains of the branches that are, or are not, named `name`.
fn push_named(out: &mut Vec<Piece>, branches: &Vec<RefEntry>, name: &String, same: bool)
    ensures
        piece_views(final(out)@) == piece_views(old(out)@) + chains_of(
            refs::entries(branches@).filter(
                if same {
                    named(name@)
                } else {
                    not_named(name@)
                },
            ),
        ),
{
    let ghost pred = if same {
        named(name@)
    } else {
        not_named(name@)
    };
    let ghost all = refs::entries(branches@);
    let ghost start = piece_views(out@);
    proof {
        reveal(Seq::filter);
    }
    assert(all.take(0).filter(pred) =~= seq![]);
    assert(piece_views(out@) =~= start + chains_of(all.take(0).filter(pred)));
    for i in 0..branches.len()
        invariant
            all == refs::entries(branches@),
            pred == (if same {
                named(name@)
            } else {
                not_named(name@)
            }),
            piece_views(out@) == start + chains_of(all.take(i as int).filter(pred)),
    {
        let ghost before = out@;
        proof {
            reveal(Seq::filter);
            assert(all.take(i + 1).drop_last() =~= all.take(i as int));
            assert(all.take(i + 1).last() == branches@[i as int]@);
        }
        let hit: bool = branches[i].short_name == *name;
        if hit == same {
            out.push(
                Piece::Chain {
                    full_ref: branches[i].full_name.clone(),
                    short_name: branches[i].short_name.clone(),
                },
            );
            assert(piece_views(out@) =~= piece_views(before).push(chain_of(branches@[i as int]@)));
            assert(all.take(i + 1).filter(pred) == all.take(i as int).filter(pred).push(
                branches@[i as int]@,
            ));
            assert(piece_views(out@) =~= start + chains_of(all.take(i + 1).filter(pred)));
        } else {
            assert(all.take(i + 1).filter(pred) == all.take(i as int).filter(pred));
        }
    }
    assert(all.take(branches@.len() as int) =~= all);
}

/// Appends the tags in batches.
fn push_batches(out: &mut Vec<Piece>, tags: &Vec<RefEntry>, n: usize)
    requires
        n > 0,
    ensures
        piece_views(final(out)@) == piece_views(old(out)@) + batches_of(
            refs::entries(tags@),
            n as nat,
        ),
{
    let ghost all = refs::entries(tags@);
    let ghost start = piece_views(out@);
    let mut i: usize = 0;
    assert(all.skip(0) =~= all);
    assert(piece_views(out@) + batches_of(all.skip(0), n as nat) =~= start + batches_of(
        all,
        n as nat,
    ));
    while i < tags.len()
        invariant
            n > 0,
            i <= tags@.len(),
            all == refs::entries(tags@),
            piece_views(out@) + batches_of(all.skip(i as int), n as nat) == start + batches_of(
                all,
                n as nat,
            ),
        decreases tags@.len() - i,
    {
        let ghost before = out@;
        let ghost rest = all.skip(i as int);
        let end: usize = if tags.len() - i <= n {
            tags.len()
        } else {
            i + n
        };
        let mut batch: Vec<RefEntry> = Vec::new();
        for j in i..end
            invariant
                i <= j <= end <= tags@.len(),
                all == refs::entries(tags@),
                refs::entries(batch@) == all.subrange(i as int, j as int),
        {
            let ghost b = batch@;
            batch.push(tags[j].clone());
            assert(refs::entries(batch@) =~= refs::entries(b).push(all[j as int]));
            assert(refs::entries(batch@) =~= all.subrange(i as int, j + 1));
        }
        let ghost view = refs::entries(batch@);
        out.push(Piece::TagBatch { tags: batch });
        assert(piece_views(out@) =~= piece_views(before).push(PieceView::TagBatch { tags: view }));
        proof {
            if rest.len() <= n {
                assert(view =~= rest);
                assert(all.skip(end as int) =~= seq![]);
            } else {
                assert(view =~= rest.take(n as int));
                assert(all.skip(end as int) =~= rest.skip(n as int));
            }
            assert(piece_views(out@) + batches_of(all.skip(end as int), n as nat) =~= piece_views(
                before,
            ) + batches_of(rest, n as nat));
        }
        i = end;
    }
    assert(all.skip(i as int) =~= seq![]);
    assert(piece_views(out@) + batches_of(all.skip(i as int), n as nat) =~= piece_views(out@));
}

/// Plans the clone of a remote. A remote without branches and tags is an error.
pub fn build_plan(url: &str, remote: &RemoteRefs, cfg: &PlannerConfig) -> (r: Result<Plan, Error>)
    requires
        cfg.tags_per_batch > 0 || (remote@.branches.len() == 0 && remote@.tags.len() == 0),
    ensures
        r is Err <==> remote@.branches.len() == 0 && remote@.tags.len() == 0,
        r matches Err(e) ==> e@ == ErrorView::plain(
            "remote has no branches or tags — nothing to clone"@,
        ),
        r matches Ok(plan) ==> plan@ == planned(url@, remote@, *cfg) && plan@.wf(),
{
    if remote.branches.len() == 0 && remote.tags.len() == 0 {
        return Err(
            Error::Other(String::from_str("remote has no branches or tags — nothing to clone")),
        );
    }
    let mut pieces: Vec<Piece> = Vec::new();
    let ghost all = remote@.branches;
    match &remote.default_branch {
        Some(name) => {
            push_named(&mut pieces, &remote.branches, name, true);
            push_named(&mut pieces, &remote.branches, name, false);
            assert(piece_views(pieces@) =~= chains_of(
                default_first(all, remote@.default_branch),
            ));
        },
        None => {
            for i in 0..remote.branches.len()
                invariant
                    all == refs::entries(remote.branches@),
                    piece_views(pieces@) == chains_of(all).take(i as int),
            {
                let ghost before = pieces@;
                pieces.push(
                    Piece::Chain {
                        full_ref: remote.branches[i].full_name.clone(),
                        short_name: remote.branches[i].short_name.clone(),
                    },
                );
                assert(piece_views(pieces@) =~= piece_views(before).push(chain_of(all[i as int])));
                assert(piece_views(pieces@) =~= chains_of(all).take(i + 1));
            }
            assert(piece_views(pieces@) =~= chains_of(all));
        },
    }
    push_batches(&mut pieces, &remote.tags, cfg.tags_per_batch);
    let plan = Plan {
        url: String::from_str(url),
        default_branch: refs::clone_opt(&remote.default_branch),
        initial_step: cfg.initial_step,
        pieces,
    };
    proof {
        lemma_batches_wf(remote@.tags, cfg.tags_per_batch as nat);
    }
    Ok(plan)
}

proof fn lemma_batches_wf(tags: Seq<RefEntryView>, n: nat)
    ensures
        forall|i: int| 0 <= i < batches_of(tags, n).len() ==> (#[trigger] batches_of(tags, n)[i]).wf(),
        forall|i: int| 0 <= i < batches_of(tags, n).len() ==> (#[trigger] batches_of(tags, n)[i]) is TagBatch,
    decreases tags.len(),
{
    if n > 0 && tags.len() > n {
        lemma_batches_wf(tags.skip(n as int), n);
    }
}

/// What is planned of a remote has no empty batch.
pub proof fn lemma_planned_is_valid(url: Seq<char>, remote: RemoteRefsView, cfg: PlannerConfig)
    ensures
        planned(url, remote, cfg).wf(),
{
    lemma_batches_wf(remote.tags, cfg.tags_per_batch as nat);
}

// ----------------------------------------------------------------- step sizes

/// The step that follows one of `bytes` and `commits`: `commits_in_target`, the
/// number of commits that its pace would bring in the target time, within
/// bounds. Where nothing was measured it is the initial step.
pub open spec fn step_after(bytes: u64, commits: u32, commits_in_target: Option<u32>) -> u32 {
    match commits_in_target {
        Some(n) if bytes > 0 && commits > 0 => if n < MIN_STEP {
            MIN_STEP
        } else if n > MAX_STEP {
            MAX_STEP
        } else {
            n
        },
        _ => INITIAL_STEP,
    }
}

pub fn adapted_step(bytes: u64, commits: u32, commits_in_target: Option<u32>) -> (r: u32)
    ensures
        r == step_after(bytes, commits, commits_in_target),
{
    match commits_in_target {
        Some(n) if bytes > 0 && commits > 0 => if n < MIN_STEP {
            MIN_STEP
        } else if n > MAX_STEP {
            MAX_STEP
        } else {
            n
        },
        _ => INITIAL_STEP,
    }
}

/// Half of a step, but no less than the smallest one.
pub open spec fn halved(step: u32) -> u32 {
    if step / 2 < MIN_STEP {
        MIN_STEP
    } else {
        step / 2
    }
}

pub fn halve_step(step: u32) -> (r: u32)
    ensures
        r == halved(step),
{
    let half: u32 = step / 2;
    if half < MIN_STEP {
        MIN_STEP
    } else {
        half
    }
}

// ---------------------------------------------------------------------- paths

/// Where the plan of the clone in `dir` is kept.
pub open spec fn plan_file(dir: Seq<char>) -> Seq<char> {
    text::path_below(text::path_below(dir, ".rgc"@), "plan.json"@)
}

pub fn plan_path(dir: &str) -> (r: String)
    ensures
        r@ == plan_file(dir@),
{
    text::path_join(text::path_join(dir, ".rgc").as_str(), "plan.json")
}

// ----------------------------------------------------------------------- laws

/// The tags of a piece; a chain has none.
pub open spec fn tags_of_piece(p: PieceView) -> Seq<RefEntryView> {
    match p {
        PieceView::TagBatch { tags } => tags,
        PieceView::Chain { .. } => seq![],
    }
}

/// The tags of all pieces, one piece after the other.
pub open spec fn all_tags(pieces: Seq<PieceView>) -> Seq<RefEntryView>
    decreases pieces.len(),
{
    if pieces.len() == 0 {
        seq![]
    } else {
        tags_of_piece(pieces[0]) + all_tags(pieces.skip(1))
    }
}

proof fn lemma_all_tags_concat(a: Seq<PieceView>, b: Seq<PieceView>)
    ensures
        all_tags(a + b) == all_tags(a) + all_tags(b),
    decreases a.len(),
{
    if a.len() == 0 {
        assert(a + b =~= b);
        assert(all_tags(a) + all_tags(b) =~= all_tags(b));
    } else {
        lemma_all_tags_concat(a.skip(1), b);
        assert((a + b).skip(1) =~= a.skip(1) + b);
        assert(all_tags(a + b) =~= all_tags(a) + all_tags(b));
    }
}

proof fn lemma_chains_have_no_tags(branches: Seq<RefEntryView>)
    ensures
        all_tags(chains_of(branches)) == Seq::<RefEntryView>::empty(),
    decreases branches.len(),
{
    if branches.len() > 0 {
        lemma_chains_have_no_tags(branches.skip(1));
        assert(chains_of(branches).skip(1) =~= chains_of(branches.skip(1)));
        assert(all_tags(chains_of(branches)) =~= Seq::<RefEntryView>::empty());
    }
}

proof fn lemma_batches_keep_the_tags(tags: Seq<RefEntryView>, n: nat)
    requires
        n > 0,
    ensures
        all_tags(batches_of(tags, n)) == tags,
    decreases tags.len(),
{
    let b = batches_of(tags, n);
    if tags.len() == 0 {
        assert(all_tags(b) =~= tags);
    } else if tags.len() <= n {
        assert(all_tags(b.skip(1)) =~= Seq::<RefEntryView>::empty());
        assert(all_tags(b) =~= tags);
    } else {
        lemma_batches_keep_the_tags(tags.skip(n as int), n);
        assert(b.skip(1) =~= batches_of(tags.skip(n as int), n));
        assert(all_tags(b) =~= tags);
    }
}

proof fn lemma_split_keeps_the_branches(s: Seq<RefEntryView>, name: Seq<char>)
    ensures
        (s.filter(named(name)) + s.filter(not_named(name))).to_multiset() == s.to_multiset(),
    decreases s.len(),
{
    broadcast use vstd::seq_lib::group_to_multiset_ensures;

    reveal(Seq::filter);
    let (p, q) = (named(name), not_named(name));
    if s.len() == 0 {
        assert(s.filter(p) + s.filter(q) =~= s);
    } else {
        let (front, last) = (s.drop_last(), s.last());
        lemma_split_keeps_the_branches(front, name);
        assert(s =~= front.push(last));
        vstd::seq_lib::lemma_multiset_commutative(s.filter(p), s.filter(q));
        vstd::seq_lib::lemma_multiset_commutative(front.filter(p), front.filter(q));
        if last.short_name == name {
            assert(s.filter(p) == front.filter(p).push(last));
            assert(s.filter(q) == front.filter(q));
        } else {
            assert(s.filter(p) == front.filter(p));
            assert(s.filter(q) == front.filter(q).push(last));
        }
        assert((s.filter(p) + s.filter(q)).to_multiset() =~= s.to_multiset());
    }
}

/// The plan has one chain for each branch that the remote lists and no other;
/// moving the default branch to the front changes the order alone.
pub proof fn law_one_chain_per_branch(remote: RemoteRefsView, n: nat)
    ensures
        default_first(remote.branches, remote.default_branch).to_multiset()
            == remote.branches.to_multiset(),
        planned_pieces(remote, n).take(remote.branches.len() as int) == chains_of(
            default_first(remote.branches, remote.default_branch),
        ),
        forall|i: int|
            remote.branches.len() <= i < planned_pieces(remote, n).len() ==> (#[trigger]
            planned_pieces(remote, n)[i]) is TagBatch,
{
    broadcast use vstd::seq_lib::group_to_multiset_ensures;

    let ordered = default_first(remote.branches, remote.default_branch);
    if let Some(name) = remote.default_branch {
        lemma_split_keeps_the_branches(remote.branches, name);
    }
    assert(ordered.len() == remote.branches.len()) by {
        ordered.to_multiset_ensures();
        remote.branches.to_multiset_ensures();
    }
    lemma_batches_wf(remote.tags, n);
    assert(planned_pieces(remote, n).take(remote.branches.len() as int) =~= chains_of(ordered));
}

/// Every tag that the remote lists is in exactly one batch, in the order of the
/// listing: the batches put together are the listing.
pub proof fn law_batches_hold_every_tag_once(remote: RemoteRefsView, n: nat)
    requires
        n > 0,
    ensures
        all_tags(planned_pieces(remote, n)) == remote.tags,
{
    let ordered = default_first(remote.branches, remote.default_branch);
    lemma_all_tags_concat(chains_of(ordered), batches_of(remote.tags, n));
    lemma_chains_have_no_tags(ordered);
    lemma_batches_keep_the_tags(remote.tags, n);
    assert(Seq::<RefEntryView>::empty() + remote.tags =~= remote.tags);
}

/// A batch never holds more than `n` tags, and every batch but the last holds
/// exactly `n`.
pub proof fn law_batch_sizes(tags: Seq<RefEntryView>, n: nat, i: int)
    requires
        n > 0,
        0 <= i < batches_of(tags, n).len(),
    ensures
        1 <= tags_of_piece(batches_of(tags, n)[i]).len() <= n,
        i + 1 < batches_of(tags, n).len() ==> tags_of_piece(batches_of(tags, n)[i]).len() == n,
    decreases tags.len(),
{
    if tags.len() > n && i > 0 {
        law_batch_sizes(tags.skip(n as int), n, i - 1);
    }
}

/// The chain of the default branch comes first, where the remote has that branch.
pub proof fn law_default_branch_comes_first(remote: RemoteRefsView, n: nat, j: int)
    requires
        0 <= j < remote.branches.len(),
        remote.default_branch == Some(remote.branches[j].short_name),
    ensures
        planned_pieces(remote, n).len() > 0,
        planned_pieces(remote, n)[0] matches PieceView::Chain { short_name, .. } && short_name
            == remote.branches[j].short_name,
{
    let name = remote.branches[j].short_name;
    let hits = remote.branches.filter(named(name));
    remote.branches.lemma_filter_contains(named(name), j);
    let k = choose|k: int| 0 <= k < hits.len() && hits[k] == remote.branches[j];
    assert(hits.len() > 0);
    remote.branches.lemma_filter_pred(named(name), 0);
    assert(default_first(remote.branches, remote.default_branch)[0] == hits[0]);
}

/// Does the text stand on one line?
pub open spec fn one_line(s: Seq<char>) -> bool {
    !s.contains('\n')
}

pub open spec fn one_line_each(v: Seq<Seq<char>>) -> bool {
    forall|i: int| 0 <= i < v.len() ==> one_line(#[trigger] v[i])
}

proof fn lemma_last_line(a: Seq<char>, x: Seq<char>, b: Seq<char>, y: Seq<char>)
    requires
        one_line(x),
        one_line(y),
        a.push('\n') + x == b.push('\n') + y,
    ensures
        a == b,
        x == y,
{
    let (s, t) = (a.push('\n') + x, b.push('\n') + y);
    assert(s[a.len() as int] == '\n');
    assert(t[b.len() as int] == '\n');
    assert(a.len() + 1 + x.len() == s.len() == t.len() == b.len() + 1 + y.len());
    if a.len() < b.len() {
        assert(x[b.len() - a.len() - 1] == s[b.len() as int]);
    } else if b.len() < a.len() {
        assert(y[a.len() - b.len() - 1] == t[a.len() as int]);
    }
    assert(a =~= s.take(a.len() as int));
    assert(b =~= t.take(b.len() as int));
    assert(x =~= s.skip(a.len() as int + 1));
    assert(y =~= t.skip(b.len() as int + 1));
}

proof fn lemma_one_line_or_more(head: Seq<char>, rest: Seq<Seq<char>>)
    requires
        rest.len() > 0,
    ensures
        !one_line(labelled(head, rest)),
{
    let front = labelled(head, rest.drop_last());
    assert(labelled(head, rest)[front.len() as int] == '\n');
}

/// The text under the fingerprint tells plans apart: it is the same for two
/// plans only if their URLs and their piece ids are the same, in the same order.
/// (Neither a URL nor the name of a ref holds a line break.)
pub proof fn law_fingerprint_text_tells_plans_apart(
    url: Seq<char>,
    ids: Seq<Seq<char>>,
    other_url: Seq<char>,
    other_ids: Seq<Seq<char>>,
)
    requires
        one_line(url),
        one_line(other_url),
        one_line_each(ids),
        one_line_each(other_ids),
        labelled(url, ids) == labelled(other_url, other_ids),
    ensures
        url == other_url,
        ids == other_ids,
    decreases ids.len(),
{
    if ids.len() == 0 {
        if other_ids.len() > 0 {
            lemma_one_line_or_more(other_url, other_ids);
        }
    } else if other_ids.len() == 0 {
        lemma_one_line_or_more(url, ids);
    } else {
        lemma_last_line(
            labelled(url, ids.drop_last()),
            ids.last(),
            labelled(other_url, other_ids.drop_last()),
            other_ids.last(),
        );
        assert forall|i: int| 0 <= i < ids.drop_last().len() implies one_line(
            #[trigger] ids.drop_last()[i],
        ) by {
            assert(ids.drop_last()[i] == ids[i]);
        }
        assert forall|i: int| 0 <= i < other_ids.drop_last().len() implies one_line(
            #[trigger] other_ids.drop_last()[i],
        ) by {
            assert(other_ids.drop_last()[i] == other_ids[i]);
        }
        law_fingerprint_text_tells_plans_apart(
            url,
            ids.drop_last(),
            other_url,
            other_ids.drop_last(),
        );
        assert(ids =~= ids.drop_last().push(ids.last()));
        assert(other_ids =~= other_ids.drop_last().push(other_ids.last()));
    }
    assert(ids =~= other_ids);
}

/// The id of a chain is never the id of a batch, and two chains share an id only
/// if they share their ref.
pub proof fn law_ids_tell_pieces_apart(a: PieceView, b: PieceView)
    requires
        a.id() == b.id(),
    ensures
        a is Chain <==> b is Chain,
        a is Chain ==> a->full_ref == b->full_ref,
        a is TagBatch ==> a->tags[0].short_name == b->tags[0].short_name,
{
    reveal_strlit("chain:");
    reveal_strlit("tags:");
    assert(a.id()[0] == if a is Chain {
        'c'
    } else {
        't'
    });
    assert(b.id()[0] == if b is Chain {
        'c'
    } else {
        't'
    });
    if a is Chain {
        assert(a.id().skip(6) =~= a->full_ref);
        assert(b.id().skip(6) =~= b->full_ref);
    } else {
        assert(a.id().skip(5) =~= a->tags[0].short_name);
        assert(b.id().skip(5) =~= b->tags[0].short_name);
    }
}

proof fn lemma_one_level_is_told_apart(a: Seq<char>, b: Seq<char>)
    requires
        on_one_level(a) == on_one_level(b),
    ensures
        a == b,
    decreases a.len(),
{
    let (x, y) = (on_one_level(a), on_one_level(b));
    if a.len() == 0 {
        if b.len() > 0 {
            assert(y.len() >= in_file_name(b[0]).len());
        }
        assert(a =~= b);
    } else if b.len() == 0 {
        assert(x.len() >= in_file_name(a[0]).len());
    } else {
        let (p, q) = (in_file_name(a[0]), in_file_name(b[0]));
        let (s, t) = (on_one_level(a.skip(1)), on_one_level(b.skip(1)));
        assert(x[0] == p[0] && y[0] == q[0]);
        if p.len() == 3 {
            assert(x[1] == p[1] && x[2] == p[2]);
        }
        if q.len() == 3 {
            assert(y[1] == q[1] && y[2] == q[2]);
        }
        assert(a[0] == b[0]);
        assert(s =~= x.skip(p.len() as int));
        assert(t =~= y.skip(q.len() as int));
        lemma_one_level_is_told_apart(a.skip(1), b.skip(1));
        assert(a =~= seq![a[0]] + a.skip(1));
        assert(b =~= seq![b[0]] + b.skip(1));
    }
}

proof fn lemma_one_level_has_no_slash(s: Seq<char>)
    ensures
        !on_one_level(s).contains('/'),
        !on_one_level(s).contains(':'),
    decreases s.len(),
{
    if s.len() > 0 {
        lemma_one_level_has_no_slash(s.skip(1));
        let (p, t) = (in_file_name(s[0]), on_one_level(s.skip(1)));
        assert forall|i: int| 0 <= i < on_one_level(s).len() implies on_one_level(s)[i] != '/'
            && on_one_level(s)[i] != ':' by {
            if i >= p.len() {
                assert(on_one_level(s)[i] == t[i - p.len()]);
                assert(t.contains(t[i - p.len()]));
            }
        }
    }
}

/// Each piece is fetched in a repository of its own: two pieces share a directory
/// only if they share their id.
pub proof fn law_directories_tell_pieces_apart(a: PieceView, b: PieceView)
    requires
        a.wf(),
        b.wf(),
        a.dir_name() == b.dir_name(),
    ensures
        a.id() == b.id(),
{
    reveal_strlit("chain_");
    reveal_strlit("tags_");
    assert(a.dir_name()[0] == if a is Chain {
        'c'
    } else {
        't'
    });
    assert(b.dir_name()[0] == if b is Chain {
        'c'
    } else {
        't'
    });
    if a is Chain {
        assert(a.dir_name().skip(6) =~= on_one_level(a->full_ref));
        assert(b.dir_name().skip(6) =~= on_one_level(b->full_ref));
        lemma_one_level_is_told_apart(a->full_ref, b->full_ref);
    } else {
        assert(a.dir_name().skip(5) =~= on_one_level(a->tags[0].short_name));
        assert(b.dir_name().skip(5) =~= on_one_level(b->tags[0].short_name));
        lemma_one_level_is_told_apart(a->tags[0].short_name, b->tags[0].short_name);
    }
}

/// The name of a piece's directory is one level of a path, and holds no colon.
pub proof fn law_directory_is_one_level(p: PieceView)
    requires
        p.wf(),
    ensures
        !p.dir_name().contains('/'),
        !p.dir_name().contains(':'),
{
    reveal_strlit("chain_");
    reveal_strlit("tags_");
    let (head, rest) = match p {
        PieceView::Chain { full_ref, .. } => ("chain_"@, on_one_level(full_ref)),
        PieceView::TagBatch { tags } => ("tags_"@, on_one_level(tags[0].short_name)),
    };
    match p {
        PieceView::Chain { full_ref, .. } => lemma_one_level_has_no_slash(full_ref),
        PieceView::TagBatch { tags } => lemma_one_level_has_no_slash(tags[0].short_name),
    }
    assert forall|i: int| 0 <= i < p.dir_name().len() implies p.dir_name()[i] != '/'
        && p.dir_name()[i] != ':' by {
        if i >= head.len() {
            assert(p.dir_name()[i] == rest[i - head.len()]);
            assert(rest.contains(rest[i - head.len()]));
        }
    }
}

/// No two entries have one full name.
pub open spec fn full_names_differ(s: Seq<RefEntryView>) -> bool {
    forall|i: int, j: int|
        0 <= i < j < s.len() ==> (#[trigger] s[i]).full_name != (#[trigger] s[j]).full_name
}

/// No two entries have one short name.
pub open spec fn short_names_differ(s: Seq<RefEntryView>) -> bool {
    forall|i: int, j: int|
        0 <= i < j < s.len() ==> (#[trigger] s[i]).short_name != (#[trigger] s[j]).short_name
}

proof fn lemma_filter_keeps_names_apart(
    s: Seq<RefEntryView>,
    pred: spec_fn(RefEntryView) -> bool,
)
    requires
        full_names_differ(s),
    ensures
        full_names_differ(s.filter(pred)),
        forall|i: int|
            0 <= i < s.filter(pred).len() ==> s.contains(#[trigger] s.filter(pred)[i]) && pred(
                s.filter(pred)[i],
            ),
    decreases s.len(),
{
    reveal(Seq::filter);
    if s.len() > 0 {
        let (front, last) = (s.drop_last(), s.last());
        let (f, g) = (front.filter(pred), s.filter(pred));
        assert(full_names_differ(front)) by {
            assert forall|i: int, j: int| 0 <= i < j < front.len() implies (#[trigger] front[i]).full_name
                != (#[trigger] front[j]).full_name by {
                assert(s[i].full_name != s[j].full_name);
            }
        }
        lemma_filter_keeps_names_apart(front, pred);
        assert forall|i: int| 0 <= i < g.len() implies s.contains(#[trigger] g[i]) && pred(g[i]) by {
            if i < f.len() {
                assert(g[i] == f[i]);
                let k = choose|k: int| 0 <= k < front.len() && front[k] == f[i];
                assert(s[k] == g[i]);
            } else {
                assert(s[s.len() - 1] == g[i]);
            }
        }
        assert forall|i: int, j: int| 0 <= i < j < g.len() implies (#[trigger] g[i]).full_name
            != (#[trigger] g[j]).full_name by {
            assert(g[i] == f[i]);
            if j < f.len() {
                assert(g[j] == f[j]);
            } else {
                let k = choose|k: int| 0 <= k < front.len() && front[k] == f[i];
                assert(s[k].full_name != s[s.len() - 1].full_name);
            }
        }
    }
}

proof fn lemma_default_first_keeps_names_apart(
    s: Seq<RefEntryView>,
    default: Option<Seq<char>>,
)
    requires
        full_names_differ(s),
    ensures
        full_names_differ(default_first(s, default)),
{
    if let Some(name) = default {
        let (a, b) = (s.filter(named(name)), s.filter(not_named(name)));
        lemma_filter_keeps_names_apart(s, named(name));
        lemma_filter_keeps_names_apart(s, not_named(name));
        assert forall|i: int, j: int| 0 <= i < j < (a + b).len() implies (#[trigger] (a
            + b)[i]).full_name != (#[trigger] (a + b)[j]).full_name by {
            if i < a.len() && j >= a.len() {
                let (x, y) = (a[i], b[j - a.len()]);
                let k = choose|k: int| 0 <= k < s.len() && s[k] == x;
                let l = choose|l: int| 0 <= l < s.len() && s[l] == y;
                assert(k != l);
            } else if j < a.len() {
                assert(a[i].full_name != a[j].full_name);
            } else {
                assert(b[i - a.len()].full_name != b[j - a.len()].full_name);
            }
        }
    }
}

/// The k-th batch begins with the tag at k times the size of a batch.
proof fn lemma_first_of_batch(tags: Seq<RefEntryView>, n: nat, k: int)
    requires
        n > 0,
        0 <= k < batches_of(tags, n).len(),
    ensures
        0 <= k * n < tags.len(),
        tags_of_piece(batches_of(tags, n)[k]).len() > 0,
        tags_of_piece(batches_of(tags, n)[k])[0] == tags[k * n],
    decreases tags.len(),
{
    if k > 0 {
        lemma_first_of_batch(tags.skip(n as int), n, k - 1);
        assert(k * n == (k - 1) * n + n) by (nonlinear_arith);
        assert(batches_of(tags, n)[k] == batches_of(tags.skip(n as int), n)[k - 1]);
    }
}

/// The pieces that are planned for a remote have all different ids, so each has a
/// directory of its own. (No remote lists one name twice.)
pub proof fn law_planned_pieces_are_told_apart(remote: RemoteRefsView, n: nat, i: int, j: int)
    requires
        n > 0,
        full_names_differ(remote.branches),
        short_names_differ(remote.tags),
        0 <= i < j < planned_pieces(remote, n).len(),
    ensures
        planned_pieces(remote, n)[i].id() != planned_pieces(remote, n)[j].id(),
        planned_pieces(remote, n)[i].dir_name() != planned_pieces(remote, n)[j].dir_name(),
{
    let ordered = default_first(remote.branches, remote.default_branch);
    let (a, b) = (planned_pieces(remote, n)[i], planned_pieces(remote, n)[j]);
    let m = ordered.len() as int;
    lemma_default_first_keeps_names_apart(remote.branches, remote.default_branch);
    lemma_batches_wf(remote.tags, n);
    let batches = batches_of(remote.tags, n);
    if i < m {
        assert(a == chain_of(ordered[i]));
    } else {
        assert(a == batches[i - m]);
        lemma_first_of_batch(remote.tags, n, i - m);
    }
    if j < m {
        assert(b == chain_of(ordered[j]));
        assert(ordered[i].full_name != ordered[j].full_name);
    } else {
        assert(b == batches[j - m]);
        lemma_first_of_batch(remote.tags, n, j - m);
        if i >= m {
            let (k, l) = (i - m, j - m);
            assert(k * n < l * n) by (nonlinear_arith)
                requires
                    k < l,
                    n > 0,
            ;
            assert(remote.tags[k * n].short_name != remote.tags[l * n].short_name);
        }
    }
    if a.id() == b.id() {
        law_ids_tell_pieces_apart(a, b);
    }
    if a.dir_name() == b.dir_name() {
        law_directories_tell_pieces_apart(a, b);
    }
}

/// Whatever was measured, the next step lies between the smallest and the largest.
pub proof fn law_steps_stay_in_bounds(bytes: u64, commits: u32, commits_in_target: Option<u32>)
    ensures
        MIN_STEP <= step_after(bytes, commits, commits_in_target) <= MAX_STEP,
{
}

/// Halving never goes below the smallest step, and from a step of at least twice
/// that it makes the step smaller.
pub proof fn law_halving(step: u32)
    ensures
        halved(step) >= MIN_STEP,
        step >= 2 * MIN_STEP ==> halved(step) == step / 2 < step,
        halved(MIN_STEP) == MIN_STEP,
{
}

/// The hash takes in one byte after the other, each in the same way however many went
/// before it, and starts from a fixed number.
pub proof fn law_hash_takes_every_byte(s: Seq<u8>, b: u8)
    ensures
        fnv1a(Seq::empty()) == 0xcbf2_9ce4_8422_2325u64,
        fnv1a(s.push(b)) == (fnv1a(s) ^ (b as u64)).wrapping_mul(0x0000_0100_0000_01b3),
{
    assert(s.push(b).drop_last() =~= s);
}

/// Multiplying by an odd number loses nothing: the product tells the factor.
proof fn lemma_multiplying_loses_nothing(x: u64, y: u64)
    requires
        x.wrapping_mul(0x0000_0100_0000_01b3) == y.wrapping_mul(0x0000_0100_0000_01b3),
    ensures
        x == y,
{
    lemma_unmultiplied(x);
    lemma_unmultiplied(y);
}

proof fn lemma_unmultiplied(x: u64)
    ensures
        (x.wrapping_mul(0x0000_0100_0000_01b3) * 0xce96_5057_aff6_957bint)
            % 0x1_0000_0000_0000_0000int == x,
{
    let m = 0x1_0000_0000_0000_0000int;
    let p = 0x0000_0100_0000_01b3int;
    let q = 0xce96_5057_aff6_957bint;
    let r = x.wrapping_mul(0x0000_0100_0000_01b3);
    assert(r == (x * p) % m);
    vstd::arithmetic::div_mod::lemma_mul_mod_noop_left(x * p, q, m);
    assert((x * p) * q == x * (p * q)) by (nonlinear_arith);
    assert(p * q == 0xce_9650_590fint * m + 1) by (nonlinear_arith)
        requires
            m == 0x1_0000_0000_0000_0000int,
            p == 0x0000_0100_0000_01b3int,
            q == 0xce96_5057_aff6_957bint,
    ;
    vstd::arithmetic::div_mod::lemma_fundamental_div_mod_converse(
        p * q,
        m,
        0xce_9650_590fint,
        1,
    );
    vstd::arithmetic::div_mod::lemma_mul_mod_noop_right(x as int, p * q, m);
    assert((x * 1) % m == x);
}

proof fn lemma_xor_loses_nothing(x: u64, y: u64, a: u64, b: u64)
    ensures
        x ^ a == y ^ a ==> x == y,
        x ^ a == x ^ b ==> a == b,
{
    assert(x ^ a == y ^ a ==> x == y) by (bit_vector);
    assert(x ^ a == x ^ b ==> a == b) by (bit_vector);
}

/// Every byte counts: texts that differ in their last byte alone differ in their hash,
/// and what follows a difference of hashes never takes it back.
pub proof fn law_last_byte_counts(s: Seq<u8>, t: Seq<u8>, a: u8, b: u8)
    ensures
        a != b ==> fnv1a(s.push(a)) != fnv1a(s.push(b)),
        fnv1a(s) != fnv1a(t) ==> fnv1a(s.push(a)) != fnv1a(t.push(a)),
{
    law_hash_takes_every_byte(s, a);
    law_hash_takes_every_byte(s, b);
    law_hash_takes_every_byte(t, a);
    let (x, y) = (fnv1a(s), fnv1a(t));
    lemma_xor_loses_nothing(x, y, a as u64, b as u64);
    if fnv1a(s.push(a)) == fnv1a(s.push(b)) {
        lemma_multiplying_loses_nothing(x ^ (a as u64), x ^ (b as u64));
    }
    if fnv1a(s.push(a)) == fnv1a(t.push(a)) {
        lemma_multiplying_loses_nothing(x ^ (a as u64), y ^ (a as u64));
    }
}

proof fn lemma_difference_is_kept(s: Seq<u8>, t: Seq<u8>, rest: Seq<u8>)
    requires
        fnv1a(s) != fnv1a(t),
    ensures
        fnv1a(s + rest) != fnv1a(t + rest),
    decreases rest.len(),
{
    if rest.len() == 0 {
        assert(s + rest =~= s);
        assert(t + rest =~= t);
    } else {
        let front = rest.drop_last();
        lemma_difference_is_kept(s, t, front);
        law_last_byte_counts(s + front, t + front, rest.last(), rest.last());
        assert(s + rest =~= (s + front).push(rest.last()));
        assert(t + rest =~= (t + front).push(rest.last()));
    }
}

/// Wherever one byte of a text is changed, however long the text is, the hash changes.
pub proof fn law_any_changed_byte_changes_the_hash(s: Seq<u8>, i: int, b: u8)
    requires
        0 <= i < s.len(),
        s[i] != b,
    ensures
        fnv1a(s.update(i, b)) != fnv1a(s),
{
    let (front, rest) = (s.take(i), s.skip(i + 1));
    law_last_byte_counts(front, front, s[i], b);
    lemma_difference_is_kept(front.push(s[i]), front.push(b), rest);
    assert(s =~= front.push(s[i]) + rest);
    assert(s.update(i, b) =~= front.push(b) + rest);
}

/// The text under the fingerprint: the URL alone where there is no piece, and for each
/// further piece a line break and its id.
pub proof fn law_fingerprint_text(plan: PlanView, piece: PieceView)
    ensures
        (PlanView { pieces: Seq::empty(), ..plan }).fingerprint_text() == plan.url,
        (PlanView { pieces: plan.pieces.push(piece), ..plan }).fingerprint_text()
            == plan.fingerprint_text() + seq!['\n'] + piece.id(),
{
    let none = PlanView { pieces: Seq::empty(), ..plan };
    let more = PlanView { pieces: plan.pieces.push(piece), ..plan };
    assert(none.ids() =~= Seq::empty());
    assert(more.ids() =~= plan.ids().push(piece.id()));
    assert(more.ids().drop_last() =~= plan.ids());
    assert(more.fingerprint_text() =~= plan.fingerprint_text() + seq!['\n'] + piece.id());
}

/// The fingerprint is the hash of all of that text, in sixteen hexadecimal digits.
/// Nothing else of a plan has a say in it.
pub proof fn law_fingerprint_is_the_hash_of_its_text(plan: PlanView)
    ensures
        plan.fingerprint().len() == 16,
        text::hex_value(plan.fingerprint()) == fnv1a(
            vstd::utf8::encode_utf8(plan.fingerprint_text()),
        ),
        plan.fingerprint() == text::hex16(
            fnv1a(vstd::utf8::encode_utf8(plan.fingerprint_text())),
        ),
{
    text::law_hex_reads_back(fnv1a(vstd::utf8::encode_utf8(plan.fingerprint_text())));
}

/// Two plans whose texts have different hashes have different fingerprints; above all
/// two plans whose texts are told apart by one byte, wherever it stands.
pub proof fn law_fingerprints_differ(a: PlanView, b: PlanView, i: int, c: u8)
    requires
        ({
            let s = vstd::utf8::encode_utf8(a.fingerprint_text());
            &&& 0 <= i < s.len()
            &&& s[i] != c
            &&& vstd::utf8::encode_utf8(b.fingerprint_text()) == s.update(i, c)
        }),
    ensures
        a.fingerprint() != b.fingerprint(),
{
    law_any_changed_byte_changes_the_hash(
        vstd::utf8::encode_utf8(a.fingerprint_text()),
        i,
        c,
    );
    law_fingerprint_is_the_hash_of_its_text(a);
    law_fingerprint_is_the_hash_of_its_text(b);
}

/// The ids and the directories as they are written. In a directory's name a slash is an
/// underscore, and the underscore, the percent sign and the colon are escaped.
pub proof fn law_how_pieces_are_named(
    full_ref: Seq<char>,
    short_name: Seq<char>,
    tags: Seq<RefEntryView>,
)
    ensures
        (PieceView::Chain { full_ref, short_name }).id() == "chain:"@ + full_ref,
        (PieceView::TagBatch { tags }).id() == "tags:"@ + tags[0].short_name,
        (PieceView::Chain { full_ref, short_name }).dir_name() == "chain_"@ + on_one_level(
            full_ref,
        ),
        (PieceView::TagBatch { tags }).dir_name() == "tags_"@ + on_one_level(tags[0].short_name),
{
}

/// A name is escaped character by character.
pub proof fn law_names_are_escaped(c: char, s: Seq<char>)
    ensures
        on_one_level(Seq::empty()) == Seq::<char>::empty(),
        on_one_level(seq![c] + s) == (if c == '/' {
            seq!['_']
        } else if c == '_' {
            seq!['%', '5', 'F']
        } else if c == '%' {
            seq!['%', '2', '5']
        } else if c == ':' {
            seq!['%', '3', 'A']
        } else {
            seq![c]
        }) + on_one_level(s),
{
    assert((seq![c] + s).skip(1) =~= s);
}

/// A plan keeps what it was made with: the URL, the default branch of the remote and
/// the first step.
pub proof fn law_plan_keeps_what_it_was_made_with(
    url: Seq<char>,
    remote: RemoteRefsView,
    cfg: PlannerConfig,
)
    ensures
        planned(url, remote, cfg).url == url,
        planned(url, remote, cfg).default_branch == remote.default_branch,
        planned(url, remote, cfg).initial_step == cfg.initial_step,
        planned(url, remote, cfg).pieces == planned_pieces(remote, cfg.tags_per_batch as nat),
        planned_pieces(remote, cfg.tags_per_batch as nat).len() == remote.branches.len()
            + batches_of(remote.tags, cfg.tags_per_batch as nat).len(),
{
    law_one_chain_per_branch(remote, cfg.tags_per_batch as nat);
    let ordered = default_first(remote.branches, remote.default_branch);
    ordered.to_multiset_ensures();
    remote.branches.to_multiset_ensures();
}

/// Where the remote names no default branch, or none that it lists, the chains stand in
/// the order of the listing, each with the two names of its branch.
pub proof fn law_chains_in_the_order_of_the_listing(remote: RemoteRefsView, n: nat, i: int)
    requires
        0 <= i < remote.branches.len(),
        remote.default_branch matches Some(name) ==> forall|j: int|
            0 <= j < remote.branches.len() ==> (#[trigger] remote.branches[j]).short_name != name,
    ensures
        planned_pieces(remote, n)[i] == (PieceView::Chain {
            full_ref: remote.branches[i].full_name,
            short_name: remote.branches[i].short_name,
        }),
{
    let s = remote.branches;
    if let Some(name) = remote.default_branch {
        lemma_filter_none(s, named(name));
        lemma_filter_all(s, not_named(name));
        assert(default_first(s, remote.default_branch) =~= s);
    }
    assert(default_first(s, remote.default_branch)[i] == s[i]);
    assert(planned_pieces(remote, n)[i] == chains_of(s)[i]);
}

/// Where the remote lists its default branch, once, the chain of that branch comes
/// first and the others follow in the order of the listing.
pub proof fn law_default_first_and_the_rest_in_order(remote: RemoteRefsView, n: nat, d: int)
    requires
        0 <= d < remote.branches.len(),
        remote.default_branch == Some(remote.branches[d].short_name),
        forall|j: int|
            0 <= j < remote.branches.len() && j != d ==> (#[trigger] remote.branches[j]).short_name
                != remote.branches[d].short_name,
    ensures
        ({
            let ordered = seq![remote.branches[d]] + remote.branches.remove(d);
            forall|i: int|
                0 <= i < remote.branches.len() ==> #[trigger] planned_pieces(remote, n)[i] == (
                PieceView::Chain {
                    full_ref: ordered[i].full_name,
                    short_name: ordered[i].short_name,
                })
        }),
{
    let s = remote.branches;
    let name = s[d].short_name;
    let (a, b) = (s.take(d), s.skip(d + 1));
    assert(s =~= a + (seq![s[d]] + b));
    lemma_filter_none(a, named(name));
    lemma_filter_none(b, named(name));
    lemma_filter_all(a, not_named(name));
    lemma_filter_all(b, not_named(name));
    lemma_filter_all(seq![s[d]], named(name));
    lemma_filter_none(seq![s[d]], not_named(name));
    lemma_filter_of_sum(seq![s[d]], b, named(name));
    lemma_filter_of_sum(seq![s[d]], b, not_named(name));
    lemma_filter_of_sum(a, seq![s[d]] + b, named(name));
    lemma_filter_of_sum(a, seq![s[d]] + b, not_named(name));
    let ordered = seq![s[d]] + s.remove(d);
    assert(default_first(s, remote.default_branch) =~= ordered);
    assert forall|i: int| 0 <= i < s.len() implies #[trigger] planned_pieces(remote, n)[i] == (
    PieceView::Chain { full_ref: ordered[i].full_name, short_name: ordered[i].short_name }) by {
        assert(planned_pieces(remote, n)[i] == chains_of(ordered)[i]);
    }
}

proof fn lemma_filter_none(s: Seq<RefEntryView>, pred: spec_fn(RefEntryView) -> bool)
    requires
        forall|j: int| 0 <= j < s.len() ==> !pred(#[trigger] s[j]),
    ensures
        s.filter(pred) == Seq::<RefEntryView>::empty(),
    decreases s.len(),
{
    reveal(Seq::filter);
    if s.len() > 0 {
        assert forall|j: int| 0 <= j < s.drop_last().len() implies !pred(
            #[trigger] s.drop_last()[j],
        ) by {
            assert(!pred(s[j]));
        }
        lemma_filter_none(s.drop_last(), pred);
        assert(!pred(s[s.len() - 1]));
    }
}

proof fn lemma_filter_all(s: Seq<RefEntryView>, pred: spec_fn(RefEntryView) -> bool)
    requires
        forall|j: int| 0 <= j < s.len() ==> pred(#[trigger] s[j]),
    ensures
        s.filter(pred) == s,
    decreases s.len(),
{
    reveal(Seq::filter);
    if s.len() > 0 {
        assert forall|j: int| 0 <= j < s.drop_last().len() implies pred(
            #[trigger] s.drop_last()[j],
        ) by {
            assert(pred(s[j]));
        }
        lemma_filter_all(s.drop_last(), pred);
        assert(pred(s[s.len() - 1]));
        assert(s =~= s.drop_last().push(s.last()));
    }
}

proof fn lemma_filter_of_sum(
    a: Seq<RefEntryView>,
    b: Seq<RefEntryView>,
    pred: spec_fn(RefEntryView) -> bool,
)
    ensures
        (a + b).filter(pred) == a.filter(pred) + b.filter(pred),
    decreases b.len(),
{
    reveal(Seq::filter);
    if b.len() == 0 {
        assert(a + b =~= a);
        assert(a.filter(pred) + b.filter(pred) =~= a.filter(pred));
    } else {
        lemma_filter_of_sum(a, b.drop_last(), pred);
        assert((a + b).drop_last() =~= a + b.drop_last());
        assert((a + b).filter(pred) =~= a.filter(pred) + b.filter(pred));
    }
}

/// The k-th batch holds the tags from k times its size on, as many as fit and are left;
/// and the batches follow the chains.
pub proof fn law_tags_of_the_kth_batch(remote: RemoteRefsView, n: nat, k: int)
    requires
        n > 0,
        0 <= k,
        k * n < remote.tags.len(),
    ensures
        k < batches_of(remote.tags, n).len(),
        batches_of(remote.tags, n)[k] == (PieceView::TagBatch {
            tags: remote.tags.subrange(
                k * n,
                if (k + 1) * n <= remote.tags.len() {
                    (k + 1) * n
                } else {
                    remote.tags.len() as int
                },
            ),
        }),
        planned_pieces(remote, n)[remote.branches.len() + k] == batches_of(remote.tags, n)[k],
{
    lemma_kth_batch(remote.tags, n, k);
    law_one_chain_per_branch(remote, n);
    let ordered = default_first(remote.branches, remote.default_branch);
    ordered.to_multiset_ensures();
    remote.branches.to_multiset_ensures();
}

proof fn lemma_kth_batch(tags: Seq<RefEntryView>, n: nat, k: int)
    requires
        n > 0,
        0 <= k,
        k * n < tags.len(),
    ensures
        k < batches_of(tags, n).len(),
        batches_of(tags, n)[k] == (PieceView::TagBatch {
            tags: tags.subrange(
                k * n,
                if (k + 1) * n <= tags.len() {
                    (k + 1) * n
                } else {
                    tags.len() as int
                },
            ),
        }),
    decreases tags.len(),
{
    assert((k + 1) * n == k * n + n) by (nonlinear_arith);
    if k == 0 {
        assert(0 * n == 0);
        if tags.len() <= n {
            assert(tags.subrange(0, tags.len() as int) =~= tags);
        } else {
            assert(tags.subrange(0, n as int) =~= tags.take(n as int));
        }
    } else {
        assert(k * n == (k - 1) * n + n) by (nonlinear_arith);
        assert(k * n >= n) by (nonlinear_arith)
            requires
                k >= 1,
                n > 0,
        ;
        let rest = tags.skip(n as int);
        lemma_kth_batch(rest, n, k - 1);
        assert(batches_of(tags, n)[k] == batches_of(rest, n)[k - 1]);
        let end = if (k + 1) * n <= tags.len() {
            (k + 1) * n
        } else {
            tags.len() as int
        };
        assert(tags.subrange(k * n, end) =~= rest.subrange((k - 1) * n, end - n));
    }
}

/// What the next step is, to the commit: what the pace brings in the target time, as
/// long as that lies between a hundred and five million, else the nearer of the two;
/// and ten thousand where nothing was measured. The step before has no say in it.
pub proof fn law_next_step_is_the_pace(bytes: u64, commits: u32, n: u32)
    ensures
        bytes > 0 && commits > 0 && 100 <= n <= 5_000_000 ==> step_after(bytes, commits, Some(n))
            == n,
        bytes > 0 && commits > 0 && n < 100 ==> step_after(bytes, commits, Some(n)) == 100,
        bytes > 0 && commits > 0 && n > 5_000_000 ==> step_after(bytes, commits, Some(n))
            == 5_000_000,
        bytes == 0 || commits == 0 ==> step_after(bytes, commits, Some(n)) == 10_000,
        step_after(bytes, commits, None) == 10_000,
{
}

/// Half of a step is half of it, rounded down, and a hundred at least.
pub proof fn law_half_of_a_step(step: u32)
    ensures
        step >= 200 ==> halved(step) == step / 2,
        step < 200 ==> halved(step) == 100,
{
}

/// Where a plan is kept.
pub proof fn law_where_the_plan_is_kept(dir: Seq<char>)
    ensures
        plan_file(dir) == text::path_below(dir, ".rgc/plan.json"@),
{
    reveal_strlit(".rgc/plan.json");
    reveal_strlit(".rgc");
    reveal_strlit("plan.json");
    assert(plan_file(dir) =~= text::path_below(dir, ".rgc/plan.json"@));
}

/// A plan is valid exactly if none of its batches is empty.
pub proof fn law_valid_plans(plan: PlanView)
    ensures
        plan.wf() <==> forall|i: int|
            0 <= i < plan.pieces.len() ==> (#[trigger] plan.pieces[i] matches PieceView::TagBatch {
                tags,
            } ==> tags.len() > 0),
{
    if plan.wf() {
        assert forall|i: int| 0 <= i < plan.pieces.len() implies (#[trigger] plan.pieces[i] matches
            PieceView::TagBatch { tags } ==> tags.len() > 0) by {
            assert(plan.pieces[i].wf());
        }
    }
}

/// Plans and pieces are spoken of by what they hold, item by item.
pub proof fn law_plans_are_item_by_item(p: Plan, i: int)
    ensures
        p@.url == p.url@,
        p@.initial_step == p.initial_step,
        p@.default_branch == refs::opt_text(p.default_branch),
        p@.pieces.len() == p.pieces@.len(),
        0 <= i < p.pieces@.len() ==> match p.pieces@[i] {
            Piece::Chain { full_ref, short_name } => p@.pieces[i] == (PieceView::Chain {
                full_ref: full_ref@,
                short_name: short_name@,
            }),
            Piece::TagBatch { tags } => p@.pieces[i] == (PieceView::TagBatch {
                tags: refs::entries(tags@),
            }),
        },
{
}

} // verus!

//! Whole clones against a played git: repositories in memory that understand the
//! commands that the library asks for.

use rgc::cli::{
    acquire_instance_lock, clone_flow, CloneOptions, Flow, FlowEvent, FlowRequest, LockAttempt,
};
use rgc::equiv::{assert_same_objects, assert_same_refs, snapshot, RepoSnapshot};
use rgc::errors::{Error, RgcError};
use rgc::finalizer::{connectivity_args, finalize, refs_to_verify, verify, Step};
use rgc::gitio::{
    commit_count, count_commits_args, delete_ref_args, fetch_tags_args, git_result, resolve_args,
    transport_args, transport_tags_args, wip_ref, GitOutput,
};
use rgc::ledger::Ledger;
use rgc::piece_run::{Event, PieceRun, Request};
use rgc::planner::{build_plan, Piece, Plan, PlannerConfig};
use rgc::refs::{ls_remote, ls_remote_args, RemoteRefs};
use rgc::repos::{
    ensure_piece_repo, fetch_chain_step, init_main_repo, RepoEvent, RepoRequest, RepoSetup, Site,
};
use rgc::scheduler::{run_outcome, RunStart, SchedulerConfig, StartEvent, StartRequest};
use rgc::state::{piece_path, ChainState, PieceStatus, State};
use rgc::throttle::Throttle;
use rgc::worker::{WorkEvent, WorkRequest, Worker};
use std::collections::{BTreeMap, BTreeSet};

// ------------------------------------------------------------------ played git

#[derive(Default, Clone)]
struct Repo {
    refs: BTreeMap<String, String>,
    objects: BTreeSet<String>,
    /// Commits whose parents are cut off.
    shallow: BTreeSet<String>,
    /// Another repository whose objects are borrowed.
    borrows: Option<String>,
    config: BTreeMap<String, String>,
    head: Option<String>,
}

#[derive(Default)]
struct Git {
    /// The parent of each commit that was ever made.
    parents: BTreeMap<String, Option<String>>,
    repos: BTreeMap<String, Repo>,
    /// The number of fetches from the origin so far.
    fetches: usize,
    /// Which of them fail, and how.
    failing: BTreeMap<usize, String>,
}

const ORIGIN: &str = "/origin.git";

type Answer = Result<String, String>;

fn words(s: &str) -> Vec<String> {
    s.split(' ').map(|w| w.to_string()).collect()
}

impl Git {
    /// An origin with `total` commits on main, and branches and tags at the given ones.
    fn origin(total: u32, branches: &[(&str, u32)], tags: &[(&str, u32)]) -> Git {
        let mut git = Git::default();
        let mut repo = Repo { head: Some("refs/heads/main".into()), ..Repo::default() };
        let oid = |i: u32| format!("c{:04}", i);
        for i in 1..=total {
            git.parents.insert(oid(i), if i > 1 { Some(oid(i - 1)) } else { None });
            repo.objects.insert(oid(i));
        }
        repo.refs.insert("refs/heads/main".into(), oid(total));
        for (name, at) in branches {
            repo.refs.insert(format!("refs/heads/{}", name), oid(*at));
        }
        for (name, at) in tags {
            repo.refs.insert(format!("refs/tags/{}", name), oid(*at));
        }
        git.repos.insert(ORIGIN.into(), repo);
        git
    }

    fn repo(&mut self, path: &str) -> Result<&mut Repo, String> {
        self.repos.get_mut(path).ok_or_else(|| "fatal: not a git repository".to_string())
    }

    fn has(&self, path: &str, oid: &str) -> bool {
        let Some(r) = self.repos.get(path) else { return false };
        r.objects.contains(oid) || r.borrows.as_ref().is_some_and(|b| self.has(b, oid))
    }

    /// The commits from a tip backwards, up to where the repository is cut off.
    fn walk(&self, path: &str, tip: &str) -> Result<Vec<String>, String> {
        let mut out = vec![];
        let mut at = Some(tip.to_string());
        while let Some(c) = at {
            if !self.has(path, &c) {
                return Err(format!("fatal: missing object {}", c));
            }
            at = if self.repos[path].shallow.contains(&c) { None } else { self.parents[&c].clone() };
            out.push(c);
        }
        Ok(out)
    }

    fn resolve(&self, path: &str, name: &str) -> Result<String, String> {
        match self.repos.get(path).and_then(|r| r.refs.get(name)) {
            Some(oid) => Ok(oid.clone()),
            None if self.has(path, name) => Ok(name.into()),
            None => Err(format!("fatal: couldn't find remote ref {}", name)),
        }
    }

    fn fetch_one(&mut self, from: &str, to: &str, src: &str, dst: &str, depth: Option<usize>, deepen: Option<usize>) -> Result<(), String> {
        let tip = self.resolve(from, src)?;
        if !self.repos[from].shallow.is_empty() {
            return Ok(()); // git refuses, and says nothing
        }
        let all = self.walk(from, &tip)?;
        let cut = self.repos[to].shallow.clone();
        let take = match (depth, deepen) {
            (Some(n), _) => n,
            (_, Some(n)) => match all.iter().position(|c| cut.contains(c)) {
                Some(i) => i + 1 + n,
                None => n,
            },
            _ => all.len(),
        }
        .min(all.len());
        let r = self.repo(to)?;
        r.objects.extend(all[..take].iter().cloned());
        if depth.is_some() || deepen.is_some() {
            r.shallow.retain(|c| !all[..take].contains(c));
            if take < all.len() {
                r.shallow.insert(all[take - 1].clone());
            }
        }
        r.refs.insert(dst.into(), tip);
        Ok(())
    }

    fn fetch(&mut self, cwd: &str, args: &[&str]) -> Answer {
        let number = |flag: &str| args.iter().find_map(|a| a.strip_prefix(flag)).map(|n| n.parse::<usize>().unwrap());
        let (depth, deepen) = (number("--depth="), number("--deepen="));
        let plain: Vec<&str> = args.iter().copied().filter(|a| !a.starts_with("--")).collect();
        let from = if plain[0] == "origin" {
            self.fetches += 1;
            if let Some(e) = self.failing.get(&self.fetches) {
                return Err(e.clone());
            }
            self.repo(cwd)?.config.get("remote.origin.url").cloned().unwrap_or_default()
        } else {
            plain[0].to_string()
        };
        if !self.repos.contains_key(&from) {
            return Err(format!("fatal: unable to access '{}'", from));
        }
        let source = self.repos[&from].refs.clone();
        let mut specs: Vec<(String, String)> = vec![];
        for spec in &plain[1..] {
            let (src, dst) = spec.strip_prefix('+').unwrap().split_once(':').unwrap();
            match (src.strip_suffix('*'), dst.strip_suffix('*')) {
                (Some(s), Some(d)) => {
                    for name in source.keys().filter(|n| n.starts_with(s)) {
                        specs.push((name.clone(), format!("{}{}", d, &name[s.len()..])));
                    }
                }
                _ => specs.push((src.into(), dst.into())),
            }
        }
        if plain.len() == 1 {
            for name in source.keys() {
                if let Some(b) = name.strip_prefix("refs/heads/") {
                    specs.push((name.clone(), format!("refs/remotes/origin/{}", b)));
                } else if args.contains(&"--tags") {
                    let there = self.repos[cwd].refs.get(name);
                    if there.is_none() || args.contains(&"--force") {
                        specs.push((name.clone(), name.clone()));
                    }
                }
            }
        }
        for (src, dst) in &specs {
            self.fetch_one(&from, cwd, src, dst, depth, deepen)?;
        }
        let wanted: BTreeSet<&String> = specs.iter().map(|s| &s.1).collect();
        let prune_tags = args.contains(&"--prune-tags");
        if args.contains(&"--prune") {
            self.repo(cwd)?.refs.retain(|n, _| {
                wanted.contains(n)
                    || !(n.starts_with("refs/remotes/origin/") || prune_tags && n.starts_with("refs/tags/"))
            });
        }
        Ok(String::new())
    }

    fn answer(&mut self, cwd: &str, args: &[&str]) -> Answer {
        match args {
            ["ls-remote", "--symref", url] => {
                let r = self.repos.get(*url).ok_or("fatal: Could not read from remote repository.")?;
                let mut out = String::new();
                if let Some(h) = &r.head {
                    out += &format!("ref: {}\tHEAD\n{}\tHEAD\n", h, r.refs[h]);
                }
                for (name, oid) in &r.refs {
                    out += &format!("{}\t{}\n", oid, name);
                }
                Ok(out)
            }
            ["init", "--quiet", path] => {
                self.repos.entry(path.to_string()).or_default();
                Ok(String::new())
            }
            ["clone", "--shared", "--no-checkout", "--quiet", main, piece] => {
                let mut r = Repo { borrows: Some(main.to_string()), ..Repo::default() };
                r.config.insert("remote.origin.url".into(), main.to_string());
                self.repos.insert(piece.to_string(), r);
                Ok(String::new())
            }
            ["remote", "get-url", "origin"] => {
                self.repo(cwd)?.config.get("remote.origin.url").cloned().ok_or("error: No such remote 'origin'".into())
            }
            ["remote", "set-url", "origin", url] => {
                let r = self.repo(cwd)?;
                match r.config.get_mut("remote.origin.url") {
                    Some(u) => *u = url.to_string(),
                    None => return Err("error: No such remote 'origin'".into()),
                }
                Ok(String::new())
            }
            ["remote", "add", "origin", url] => {
                self.repo(cwd)?.config.insert("remote.origin.url".into(), url.to_string());
                Ok(String::new())
            }
            ["config", key, value] => {
                self.repo(cwd)?.config.insert(key.to_string(), value.to_string());
                Ok(String::new())
            }
            ["rev-parse", "--git-dir"] => self.repo(cwd).map(|_| ".git\n".to_string()),
            ["rev-parse", "--verify", name] => self.resolve(cwd, name).map(|o| o + "\n"),
            ["for-each-ref", rest @ ..] => {
                let prefixes: Vec<&&str> = rest.iter().filter(|a| !a.starts_with("--")).collect();
                let r = self.repo(cwd)?;
                Ok(r.refs
                    .iter()
                    .filter(|(n, _)| prefixes.is_empty() || prefixes.iter().any(|p| n.starts_with(**p)))
                    .map(|(n, o)| format!("{} {}\n", n, o))
                    .collect())
            }
            ["fetch", rest @ ..] => self.fetch(cwd, rest),
            ["rev-list", "--count", name] => {
                let tip = self.resolve(cwd, name)?;
                Ok(format!("{}\n", self.walk(cwd, &tip)?.len()))
            }
            ["rev-list", "--objects", "--all", ..] => {
                let tips: Vec<String> = self.repo(cwd)?.refs.values().cloned().collect();
                let mut all = BTreeSet::new();
                for tip in tips {
                    all.extend(self.walk(cwd, &tip)?);
                }
                Ok(all.iter().map(|c| format!("{}\n", c)).collect())
            }
            ["update-ref", "-d", name] => {
                self.repo(cwd)?.refs.remove(*name);
                Ok(String::new())
            }
            ["checkout", "-B", branch, name] => {
                let tip = self.resolve(cwd, name)?;
                let r = self.repo(cwd)?;
                r.refs.insert(format!("refs/heads/{}", branch), tip);
                r.head = Some(format!("refs/heads/{}", branch));
                Ok(String::new())
            }
            ["merge-base", "--is-ancestor", commit, name] => {
                let tip = self.resolve(cwd, name)?;
                if self.walk(cwd, &tip)?.iter().any(|c| c == commit) { Ok(String::new()) } else { Err(String::new()) }
            }
            _ => panic!("unknown command {:?}", args),
        }
    }

    fn run(&mut self, args: &Vec<String>, cwd: &str) -> Result<GitOutput, Error> {
        let list: Vec<&str> = args.iter().map(|a| a.as_str()).collect();
        match self.answer(cwd, &list) {
            Ok(out) => git_result(args, true, out.as_bytes(), b""),
            Err(e) => git_result(args, false, b"", e.as_bytes()),
        }
    }

    fn ls_remote(&mut self) -> RemoteRefs {
        ls_remote(self.run(&ls_remote_args(ORIGIN), "")).unwrap()
    }

    fn plan(&mut self, initial_step: u32) -> Plan {
        let remote = self.ls_remote();
        build_plan(ORIGIN, &remote, &PlannerConfig { initial_step, ..Default::default() }).unwrap()
    }

    /// What `git clone` makes of the origin.
    fn reference_clone(&mut self) -> RepoSnapshot {
        self.run(&words("init --quiet /ref"), "").unwrap();
        self.run(&words("remote add origin /origin.git"), "/ref").unwrap();
        self.run(&words("fetch --quiet --tags origin"), "/ref").unwrap();
        self.run(&words("checkout -B main refs/remotes/origin/main"), "/ref").unwrap();
        self.snapshot("/ref")
    }

    fn snapshot(&mut self, path: &str) -> RepoSnapshot {
        let refs = self.run(&words("for-each-ref"), path).unwrap();
        let objects = self.run(&words("rev-list --objects --all"), path).unwrap();
        snapshot(&refs.stdout, &objects.stdout)
    }

    fn is_shallow(&self, path: &str) -> bool {
        self.repos.get(path).is_some_and(|r| !r.shallow.is_empty())
    }

    // ------------------------------------------------------- serving the machines

    fn serve(&mut self, asked: RepoRequest, main: &str, repo: &str) -> RepoEvent {
        match asked {
            RepoRequest::MakeDir => RepoEvent::Done,
            RepoRequest::IsRepo if self.repos.contains_key(repo) => RepoEvent::Yes,
            RepoRequest::IsShallow if self.is_shallow(repo) => RepoEvent::Yes,
            RepoRequest::IsRepo | RepoRequest::IsShallow => RepoEvent::No,
            RepoRequest::RemoveDir => {
                self.repos.remove(repo);
                RepoEvent::Done
            }
            RepoRequest::Git(site, args) => {
                let cwd = match site {
                    Site::Anywhere => "",
                    Site::Main => main,
                    Site::Piece => repo,
                };
                match self.run(&args, cwd) {
                    Ok(o) => RepoEvent::Output(o.stdout),
                    Err(e) => RepoEvent::Failed(e),
                }
            }
            RepoRequest::ReadBoundary => {
                RepoEvent::Output(self.repos[repo].shallow.iter().map(|c| format!("{}\n", c)).collect())
            }
            RepoRequest::RemoveBoundary => {
                self.repo(repo).unwrap().shallow.clear();
                RepoEvent::Done
            }
            RepoRequest::Finished => unreachable!(),
        }
    }

    fn set_up(&mut self, mut setup: RepoSetup, main: &str, repo: &str) -> Result<(), Error> {
        loop {
            match setup.asked() {
                RepoRequest::Finished => return setup.failure().map_or(Ok(()), Err),
                asked => setup.step(self.serve(asked, main, repo)),
            }
        }
    }

    fn fetch_chain_step(&mut self, main: &str, piece: &str, full_ref: &str, short: &str, at: ChainState) -> Result<(), Error> {
        let mut step = fetch_chain_step(full_ref, short, at);
        loop {
            match step.asked() {
                RepoRequest::Finished => return step.failure().map_or(Ok(()), Err),
                asked => step = step.step(self.serve(asked, main, piece)),
            }
        }
    }

    fn transport(&mut self, main: &str, piece: &str, full_ref: &str, short: &str, last: bool) -> Result<(), Error> {
        let args = transport_args(piece, full_ref, short, last, self.is_shallow(piece))?;
        self.run(&args, main)?;
        if last {
            self.run(&delete_ref_args(&wip_ref(short)), main)?;
        }
        Ok(())
    }

    fn finalize(&mut self, plan: &Plan, main: &str, keep_state: bool, kept: &mut bool) -> Result<(), Error> {
        for step in finalize(plan, keep_state) {
            match step {
                Step::Git(args) => {
                    self.run(&args, main)?;
                }
                Step::CheckOut { args, doing } => {
                    self.run(&args, main).map_err(|e| e.context(&doing))?;
                }
                Step::Verify => {
                    let remote = self.ls_remote();
                    let resolved: Vec<Option<String>> = refs_to_verify(&remote)
                        .iter()
                        .map(|n| self.run(&resolve_args(n), main).ok().map(|o| o.stdout))
                        .collect();
                    verify(&remote, &resolved)?;
                    self.run(&connectivity_args(), main)?;
                }
                Step::CleanUp => *kept = false,
            }
        }
        Ok(())
    }
}

fn done(r: Result<(), Error>) -> Event {
    match r {
        Ok(()) => Event::Done,
        Err(e) => Event::Failed(e),
    }
}

// --------------------------------------------------------------------- the run

/// A worker, and the piece that it works on.
struct Lane {
    worker: Worker,
    run: Option<PieceRun>,
}

/// A run whose workers take turns, one request at a time. They share one ledger and
/// one throttle.
struct Run<'a> {
    plan: &'a Plan,
    main: &'a str,
    cfg: SchedulerConfig,
    ledger: Ledger,
    throttle: Throttle,
    disk: State,
    now: u64,
    /// The most pieces that were worked on at one time.
    peak: usize,
    /// The workers that have finished a piece.
    busy: BTreeSet<usize>,
}

impl Run<'_> {
    /// Answers one request of a piece.
    fn serve(&mut self, git: &mut Git, piece: &Piece, asked: Request) -> Event {
        let path = piece_path(self.main, piece);
        let short = match piece {
            Piece::Chain { short_name, .. } => short_name.as_str(),
            Piece::TagBatch { .. } => "",
        };
        match (asked, piece) {
            (Request::EnsureRepo, _) => {
                done(git.set_up(ensure_piece_repo(self.main, &path, ORIGIN), self.main, &path))
            }
            (Request::StatsBefore | Request::StatsAfter, _) => Event::Stats {
                bytes: git.repos[&path].objects.len() as u64 * 100,
                commits: commit_count(&git.run(&count_commits_args(short), &path)),
            },
            (Request::FetchChain(at), Piece::Chain { full_ref, .. }) => {
                done(git.fetch_chain_step(self.main, &path, full_ref, short, at))
            }
            (Request::FetchTags, Piece::TagBatch { tags }) => {
                done(git.run(&fetch_tags_args(tags), &path).map(|_| ()))
            }
            (Request::CheckShallow, _) => Event::Shallow(git.is_shallow(&path)),
            (Request::Pace { .. }, _) => Event::Pace(Some(10)),
            (Request::Transport, Piece::Chain { full_ref, .. }) => {
                done(git.transport(self.main, &path, full_ref, short, true))
            }
            (Request::Transport, Piece::TagBatch { tags }) => {
                done(git.run(&transport_tags_args(&path, tags), self.main).map(|_| ()))
            }
            (Request::Sleep(secs), _) => {
                self.now += secs * 1_000_000_000;
                Event::Done
            }
            _ => panic!("{:?} is not for this piece", asked),
        }
    }

    fn step(&mut self, lane: &mut Lane, ev: WorkEvent) {
        lane.worker.step(ev, &mut self.ledger, &self.throttle, self.plan, self.now, &self.cfg);
        self.save(lane);
    }

    /// A change of the ledger is saved before another worker comes to it.
    fn save(&mut self, lane: &mut Lane) {
        while matches!(lane.worker.asked(), WorkRequest::SaveClaim | WorkRequest::SaveResult) {
            self.disk = self.ledger.state().clone();
            lane.worker.step(WorkEvent::Saved, &mut self.ledger, &self.throttle, self.plan, self.now, &self.cfg);
        }
    }

    /// Lets a worker do one thing. Is it done?
    fn tick(&mut self, git: &mut Git, idx: usize, lane: &mut Lane) -> bool {
        match lane.worker.asked() {
            WorkRequest::Stop => return true,
            WorkRequest::Sleep(nanos) => {
                self.now += nanos as u64;
                self.step(lane, WorkEvent::Woke);
            }
            WorkRequest::Park => self.step(lane, WorkEvent::Woke),
            WorkRequest::CheckSpace(_) => self.step(lane, WorkEvent::Space(Some(u64::MAX))),
            WorkRequest::SaveClaim | WorkRequest::SaveResult => unreachable!(),
            WorkRequest::Run => {
                let claim = lane.worker.claim().unwrap();
                assert_eq!(self.disk.pieces[claim.idx].status, PieceStatus::Running, "the claim is on disk");
                let (piece, ps) = (claim.piece.clone(), claim.ps.clone());
                let mut run = match lane.run.take() {
                    Some(run) => run,
                    None => PieceRun::begin(&piece, ps, self.plan.initial_step, &self.throttle),
                };
                if run.asked() == Request::Finished {
                    self.busy.insert(idx);
                    self.step(lane, WorkEvent::Ran(run.piece_state().clone(), run.failure()));
                } else {
                    let ev = self.serve(git, &piece, run.asked());
                    run.step(ev, &mut self.throttle, self.now, &self.cfg);
                    lane.run = Some(run);
                }
            }
        }
        false
    }
}

struct Outcome {
    result: Result<(), String>,
    disk: State,
    peak: usize,
    busy: usize,
}

fn run(git: &mut Git, plan: &Plan, main: &str, cfg: SchedulerConfig, found: Option<State>) -> Outcome {
    let mut disk = found;
    let mut start = RunStart::begin();
    while !matches!(start.asked(), StartRequest::Work | StartRequest::Refused) {
        let ev = match start.asked() {
            StartRequest::InitMain => match git.set_up(init_main_repo(main, ORIGIN), main, main) {
                Ok(()) => StartEvent::Done,
                Err(e) => StartEvent::Failed(e),
            },
            StartRequest::LoadState => StartEvent::Found(disk.clone()),
            StartRequest::Recover => StartEvent::Rebuilt(State::new(plan)),
            _ => {
                disk = Some(start.ledger().unwrap().state().clone());
                StartEvent::Done
            }
        };
        start = start.step(ev, plan);
    }
    let throttle = Throttle::new(&cfg, 0);
    let mut r = Run {
        plan,
        main,
        cfg,
        ledger: start.into_ledger().unwrap(),
        throttle,
        disk: disk.unwrap(),
        now: 0,
        peak: 0,
        busy: BTreeSet::new(),
    };
    let mut lanes: Vec<Lane> = vec![];
    for idx in 0..cfg.clamped_jobs() {
        let worker = Worker::start(idx, &mut r.ledger, &r.throttle, plan, 0, &cfg);
        let mut lane = Lane { worker, run: None };
        r.save(&mut lane);
        lanes.push(lane);
    }
    loop {
        let mut stopped = 0;
        for (idx, lane) in lanes.iter_mut().enumerate() {
            if r.tick(git, idx, lane) {
                stopped += 1;
            }
        }
        r.peak = r.peak.max(lanes.iter().filter(|l| l.run.is_some()).count());
        if stopped == lanes.len() {
            break;
        }
    }
    let failures: Vec<String> = lanes.iter().flat_map(|l| l.worker.failures().clone()).collect();
    let result = run_outcome(&r.throttle, &r.ledger, &failures).map_err(|e| e.render());
    Outcome { result, disk: r.disk, peak: r.peak, busy: r.busy.len() }
}

fn all_done(st: &State) -> bool {
    st.pieces.iter().all(|p| p.status == PieceStatus::Done)
}

// ------------------------------------------------------------------- the tests

#[test]
fn chain_steps_fetch_full_history_and_transport() {
    let mut git = Git::origin(50, &[], &[]);
    git.set_up(init_main_repo("/d", ORIGIN), "/d", "/d").unwrap();
    let piece = "/d/.rgc/pieces/chain_main";
    git.set_up(ensure_piece_repo("/d", piece, ORIGIN), "/d", piece).unwrap();
    let at = ChainState { depth_done: 0, step: 10, no_shallow: false };
    let mut guard = 0;
    loop {
        git.fetch_chain_step("/d", piece, "refs/heads/main", "main", at).unwrap();
        guard += 1;
        if !git.is_shallow(piece) || guard > 10 {
            break;
        }
    }
    assert!(!git.is_shallow(piece), "chain should complete within steps");
    git.transport("/d", piece, "refs/heads/main", "main", false).unwrap();
    assert!(git.run(&resolve_args("refs/rgc/wip/main"), "/d").is_ok());
    git.transport("/d", piece, "refs/heads/main", "main", true).unwrap();
    let tip = git.run(&resolve_args("refs/remotes/origin/main"), "/d").unwrap();
    let want = git.run(&resolve_args("refs/heads/main"), ORIGIN).unwrap();
    assert_eq!(tip.stdout.trim(), want.stdout.trim());
    assert!(git.run(&resolve_args("refs/rgc/wip/main"), "/d").is_err());
}

#[test]
fn a_shallow_piece_is_not_moved() {
    let mut git = Git::origin(20, &[], &[]);
    git.set_up(init_main_repo("/d", ORIGIN), "/d", "/d").unwrap();
    git.set_up(ensure_piece_repo("/d", "/p", ORIGIN), "/d", "/p").unwrap();
    let at = ChainState { depth_done: 0, step: 10, no_shallow: false };
    git.fetch_chain_step("/d", "/p", "refs/heads/main", "main", at).unwrap();
    assert!(git.is_shallow("/p"));
    assert!(git.transport("/d", "/p", "refs/heads/main", "main", true).is_err());
    assert!(git.run(&resolve_args("refs/remotes/origin/main"), "/d").is_err());
}

#[test]
fn a_rewritten_branch_is_begun_anew() {
    let mut git = Git::origin(10, &[], &[]);
    git.set_up(init_main_repo("/d", ORIGIN), "/d", "/d").unwrap();
    git.set_up(ensure_piece_repo("/d", "/p", ORIGIN), "/d", "/p").unwrap();
    let at = ChainState { depth_done: 0, step: 5, no_shallow: false };
    git.fetch_chain_step("/d", "/p", "refs/heads/main", "main", at).unwrap();
    assert!(git.is_shallow("/p"));
    // an orphan root takes the place of the branch
    git.parents.insert("root".into(), None);
    let origin = git.repo(ORIGIN).unwrap();
    origin.objects.insert("root".into());
    origin.refs.insert("refs/heads/main".into(), "root".into());
    let mut guard = 0;
    while git.is_shallow("/p") && guard < 10 {
        git.fetch_chain_step("/d", "/p", "refs/heads/main", "main", at).unwrap();
        guard += 1;
    }
    assert!(!git.is_shallow("/p"), "a rewritten branch must complete");
    assert_eq!(git.run(&count_commits_args("main"), "/p").unwrap().stdout.trim(), "1");
}

fn end_to_end(git: &mut Git, initial_step: u32, jobs: usize) -> Outcome {
    let plan = git.plan(initial_step);
    let out = run(git, &plan, "/d", SchedulerConfig { jobs, ..Default::default() }, None);
    assert_eq!(out.result, Ok(()));
    assert!(all_done(&out.disk), "all pieces must be Done, got {:?}", out.disk.pieces);
    assert_eq!(out.disk.fingerprint, plan.fingerprint());
    let wip = git.run(&words("for-each-ref refs/rgc/wip"), "/d").unwrap();
    assert!(wip.stdout.trim().is_empty(), "a run must never write wip refs");
    let mut kept = true;
    git.finalize(&plan, "/d", false, &mut kept).unwrap();
    assert!(!kept, "finalize without keep_state must remove .rgc/");
    let (a, b) = (git.snapshot("/d"), git.reference_clone());
    assert_same_refs(&a, &b).unwrap();
    assert_same_objects(&a, &b).unwrap();
    out
}

#[test]
fn serial_end_to_end_clone() {
    let mut git = Git::origin(50, &[("dev", 20)], &[("v1", 10), ("v2", 40)]);
    end_to_end(&mut git, 10, SchedulerConfig::default().jobs);
}

#[test]
fn parallel_end_to_end_clone() {
    let mut git = Git::origin(120, &[("dev", 60)], &[("v1", 30), ("v2", 60), ("v3", 100)]);
    assert!(git.plan(20).pieces.len() >= 3, "fixture must offer enough pieces for 3 workers");
    let out = end_to_end(&mut git, 20, 3);
    assert_eq!(out.peak, 3, "the workers must work at one time");
}

#[test]
fn two_workers_share_one_ledger_and_one_throttle() {
    let branches = [("b1", 10), ("b2", 20), ("b3", 30), ("b4", 40)];
    let mut git = Git::origin(50, &branches, &[("v1", 5)]);
    for n in [2, 3, 5] {
        git.failing.insert(n, "error: RPC failed; HTTP 429".into());
    }
    git.failing.insert(7, "fatal: the remote end hung up unexpectedly".into());
    let plan = git.plan(1000);
    let cfg = SchedulerConfig { jobs: 2, rate_limit_soft_cap: 2, ..Default::default() };
    let out = run(&mut git, &plan, "/d", cfg, None);
    assert_eq!(out.result, Ok(()));
    assert!(all_done(&out.disk));
    assert_eq!(out.busy, 2, "both workers have done pieces");
    assert_eq!(out.disk.pieces.iter().map(|p| p.attempts).sum::<u32>(), 1, "only the network failure is billed");
    assert!(out.disk.pieces.iter().all(|p| p.rate_limits == 0));
    assert_eq!(git.fetches, plan.pieces.len() + 4, "no piece is fetched twice");
}

#[test]
fn a_storm_stops_both_workers() {
    let mut git = Git::origin(50, &[("b1", 10), ("b2", 20)], &[]);
    for n in 1..100 {
        git.failing.insert(n, "HTTP 429".into());
    }
    let plan = git.plan(1000);
    let cfg = SchedulerConfig { jobs: 2, rate_limit_breaker: 4, ..Default::default() };
    let out = run(&mut git, &plan, "/d", cfg, None);
    assert_eq!(out.result, Err("upstream rate-limited — rerun later".into()));
    assert!(git.fetches <= 6, "at most one fetch more for each worker, got {}", git.fetches);
    // once the storm is over, a rerun finishes
    git.failing.clear();
    let out = run(&mut git, &plan, "/d", cfg, Some(out.disk));
    assert_eq!(out.result, Ok(()));
    assert!(all_done(&out.disk));
}

#[test]
fn branches_with_similar_names_do_not_meet() {
    let mut git = Git::origin(60, &[("a/b", 40), ("a_b", 50)], &[]);
    end_to_end(&mut git, 5, 3);
}

/// A destination: what is kept there, and whether someone holds its lock.
#[derive(Default)]
struct Dest {
    plan: Option<Plan>,
    state: Option<State>,
    kept: bool,
    held: bool,
}

fn lock(d: &mut Dest) -> Result<(), Error> {
    let attempt = if d.held { LockAttempt::WouldBlock } else { LockAttempt::Locked };
    acquire_instance_lock("/d", &attempt)?;
    d.held = true;
    Ok(())
}

fn drive(git: &mut Git, d: &mut Dest, mut flow: Flow, opts: &CloneOptions) -> Result<(), String> {
    let finished = |r: Result<(), Error>| match r {
        Ok(()) => FlowEvent::Done,
        Err(e) => FlowEvent::Failed(e),
    };
    loop {
        let ev = match flow.asked() {
            FlowRequest::Lock => finished(lock(d)),
            FlowRequest::LoadPlan => FlowEvent::Plan(d.plan.clone()),
            FlowRequest::CheckTraces => FlowEvent::Traces(d.state.is_some()),
            FlowRequest::ListDest => FlowEvent::Holds(vec![".rgc".into()]),
            FlowRequest::ListRemote => FlowEvent::Remote(git.ls_remote()),
            FlowRequest::SavePlan => {
                d.plan = flow.plan().cloned();
                d.kept = true;
                FlowEvent::Done
            }
            FlowRequest::SaveNewState => {
                d.state = Some(State::new(flow.plan().unwrap()));
                FlowEvent::Done
            }
            FlowRequest::LoadState => FlowEvent::State(d.state.clone()),
            FlowRequest::Schedule => {
                let out = run(git, flow.plan().unwrap(), "/d", opts.scheduler_config(), d.state.take());
                d.state = Some(out.disk);
                finished(out.result.map_err(Error::Other))
            }
            FlowRequest::Finalize => {
                finished(git.finalize(flow.plan().unwrap(), "/d", opts.keep_state, &mut d.kept))
            }
            FlowRequest::Finished => {
                d.held = false;
                return flow.failure().map_or(Ok(()), |e| Err(e.render()));
            }
        };
        flow = flow.step(ev);
    }
}

#[test]
fn clone_flow_end_to_end() {
    let opts = CloneOptions { jobs: 1, keep_state: false, initial_step: 10 };
    let mut git = Git::origin(40, &[("dev", 10)], &[("v1", 5)]);
    let mut d = Dest::default();
    drive(&mut git, &mut d, clone_flow(ORIGIN, "/d", &opts), &opts).unwrap();
    assert!(git.repos.contains_key("/d"), "dest must be a populated git repo");
    assert!(!d.kept, "finalize without keep_state must remove .rgc/");
    let (a, b) = (git.snapshot("/d"), git.reference_clone());
    assert_same_refs(&a, &b).unwrap();
    assert_same_objects(&a, &b).unwrap();
    assert_eq!(git.repos["/d"].head.as_deref(), Some("refs/heads/main"));

    let keep = CloneOptions { keep_state: true, ..opts };
    let mut git = Git::origin(40, &[("dev", 10)], &[("v1", 5)]);
    let mut d = Dest::default();
    drive(&mut git, &mut d, clone_flow(ORIGIN, "/d", &keep), &keep).unwrap();
    assert!(d.kept, "keep_state must retain .rgc/");
    assert!(all_done(&d.state.unwrap()), "all pieces Done after success");
}

#[test]
fn a_clone_that_was_cut_short_is_taken_up() {
    let opts = CloneOptions { jobs: 1, keep_state: true, initial_step: 10 };
    let mut git = Git::origin(40, &[("dev", 10)], &[("v1", 5)]);
    git.failing.insert(3, "fatal: Authentication failed".into());
    let mut d = Dest::default();
    let e = drive(&mut git, &mut d, clone_flow(ORIGIN, "/d", &opts), &opts).unwrap_err();
    assert!(e.contains("failed permanently"), "{}", e);
    let before: Vec<u64> = d.state.as_ref().unwrap().pieces.iter().map(|p| p.bytes).collect();
    let done: Vec<bool> =
        d.state.as_ref().unwrap().pieces.iter().map(|p| p.status == PieceStatus::Done).collect();
    assert!(done.contains(&true) && done.contains(&false));
    drive(&mut git, &mut d, clone_flow(ORIGIN, "/d", &opts), &opts).unwrap();
    let st = d.state.unwrap();
    assert!(all_done(&st));
    for i in 0..done.len() {
        if done[i] {
            assert_eq!(st.pieces[i].bytes, before[i], "a done piece is not fetched again");
        }
    }
}

#[test]
fn lock_is_exclusive_then_releasable() {
    let mut d = Dest::default();
    lock(&mut d).unwrap();
    let err = lock(&mut d).unwrap_err();
    assert!(err.render().contains("another rgc instance"));
    d.held = false;
    lock(&mut d).unwrap();
}

/// A main repository that has all refs of the origin, and its plan.
fn finalizable(git: &mut Git) -> Plan {
    git.set_up(init_main_repo("/d", ORIGIN), "/d", "/d").unwrap();
    let all = "fetch --quiet /origin.git +refs/heads/*:refs/remotes/origin/* +refs/tags/*:refs/tags/*";
    git.run(&words(all), "/d").unwrap();
    git.plan(10_000)
}

#[test]
fn remotely_deleted_tag_is_pruned() {
    let mut git = Git::origin(10, &[], &[("v1", 5)]);
    let plan = finalizable(&mut git);
    git.repo(ORIGIN).unwrap().refs.remove("refs/tags/v1");
    git.finalize(&plan, "/d", false, &mut true).unwrap();
    assert!(
        git.run(&resolve_args("refs/tags/v1"), "/d").is_err(),
        "a tag that the remote has deleted must go"
    );
}

#[test]
fn force_moved_tag_converges() {
    let mut git = Git::origin(10, &[], &[("v1", 5)]);
    let plan = finalizable(&mut git);
    git.repo(ORIGIN).unwrap().refs.insert("refs/tags/v1".into(), "c0010".into());
    git.finalize(&plan, "/d", false, &mut true).unwrap();
    let got = git.run(&resolve_args("refs/tags/v1"), "/d").unwrap();
    assert_eq!(got.stdout.trim(), "c0010", "a moved tag must come in at its new object");
}

#[test]
fn new_remote_branch_is_included() {
    let mut git = Git::origin(10, &[], &[]);
    let plan = finalizable(&mut git);
    git.repo(ORIGIN).unwrap().refs.insert("refs/heads/late-branch".into(), "c0007".into());
    git.finalize(&plan, "/d", false, &mut true).unwrap();
    assert!(git.run(&resolve_args("refs/remotes/origin/late-branch"), "/d").is_ok());
}

#[test]
fn a_failed_checkout_says_so() {
    let mut git = Git::origin(10, &[], &[]);
    let mut plan = finalizable(&mut git);
    plan.default_branch = Some("gone".into());
    let mut kept = true;
    let e = git.finalize(&plan, "/d", false, &mut kept).unwrap_err();
    assert!(e.render().starts_with("checkout gone: [Fatal] git [\"checkout\", \"-B\", \"gone\""), "{}", e.render());
    assert!(kept, "nothing is cleaned up after a failure");
    assert!(matches!(e, Error::During(_, RgcError::Fatal(_))));
}

//! The bootstrap orchestrator.
//!
//! One run walks a fixed sequence of phases: ensure the artifacts
//! directory, clean leftover temporary files out of it, gate on the
//! runtime's version, discover candidate artifacts, acquire one when
//! none is there, select the first candidate that passes its structural
//! test, prune the others, and launch.  The decisions all live here, in
//! [`Bootstrapper::step`]: a driver outside this crate performs each
//! requested [`Action`] and answers with the matching [`Event`].

use vstd::prelude::*;
use vstd::string::*;
use crate::launch::{ArchiveError, JavaError, JavaLauncher, LauncherBinary};
use crate::models::{BootstrapSettings, UpdateMeta};
use crate::probe::{check_java_version, spec_extract_token, spec_required, token_chars};
use crate::version::{spec_parse, version_le};

verus! {

/// Why a bootstrap run failed after startup.
#[derive(Debug)]
pub enum LaunchError {
    /// A filesystem step failed; carries the reported reason.
    IoError(String),
    /// No candidate artifact passed its structural test.
    MissingBinaries,
    /// Fetching the update metadata or the artifact bytes failed;
    /// carries the reported reason.
    FailedDownload(String),
    /// The runtime was launched and did not come back successful.
    LauncherExit(JavaError),
    /// The runtime is definitely older than the required version.
    InvalidJava(String),
}

/// Why a whole run ended without a launch.
#[derive(Debug)]
pub enum BootstrapFailure {
    /// The artifacts directory could not be created.
    CreateDirFailed(String),
    /// The cleanup scan of the artifacts directory failed.
    CleanupFailed(String),
    /// A step after cleanup failed.
    Launch(LaunchError),
    /// The driver answered with an event the current phase cannot take.
    UnexpectedEvent,
}

/// What the driver is asked to do next.  Every action is performed
/// outside this crate; its outcome comes back as the next [`Event`].
pub enum Action {
    /// Create this directory, with its parents, if it is absent.
    CreateDir(String),
    /// List the entry names in this directory.
    ScanDir(String),
    /// Delete these files; individual failures are logged only and not
    /// reported back.
    RemoveTempFiles(Vec<String>),
    /// Run the runtime's version-query command and capture its
    /// diagnostic output.
    QueryRuntimeVersion,
    /// Fetch the update metadata document from this address.
    FetchMetadata(String),
    /// Download the artifact bytes at `url` into the file `dest`.
    DownloadFile { url: String, dest: String },
    /// Atomically give the finished download its final name.
    RenameFile { from: String, to: String },
    /// Read this candidate file and hand its bytes to
    /// `LauncherBinary::test_jar`.
    TestArtifact(String),
    /// Delete this superseded candidate file.
    DeleteArtifact(String),
    /// Spawn the runtime with this invocation and wait for it to end.
    RunLauncher(JavaLauncher),
    /// Nothing is left to do: the run reached a terminal phase.
    Stop,
}

/// What the driver reports back for the action it performed.  Failure
/// payloads carry the reported reason as text.
pub enum Event {
    DirCreated(Result<(), String>),
    DirScanned(Result<Vec<String>, String>),
    TempFilesRemoved,
    RuntimeVersionProbed(Result<Vec<u8>, String>),
    MetadataFetched(Result<UpdateMeta, String>),
    FileDownloaded(Result<(), String>),
    FileRenamed(Result<(), String>),
    ArtifactTested(Result<bool, ArchiveError>),
    ArtifactDeleted(Result<(), String>),
    LauncherFinished(Result<Option<i32>, String>),
}

/// Where a run stands.
pub enum Phase {
    /// Creating the artifacts directory.
    EnsureDirectory,
    /// Scanning the artifacts directory for leftover temporary files.
    Cleanup,
    /// Waiting for the leftover temporary files to be removed.
    RemovingTemp,
    /// Probing the runtime's version.
    VersionGate,
    /// Enumerating the artifacts directory into candidates.
    Discover,
    /// Waiting for the update metadata document.
    AwaitMetadata,
    /// Waiting for the artifact bytes to land in the temporary file.
    AwaitDownload { temp_path: String, final_path: String },
    /// Waiting for the finished download to take its final name.
    AwaitRename { final_path: String },
    /// Testing candidates in enumeration order; `next` is under test.
    Select { candidates: Vec<LauncherBinary>, next: usize },
    /// Deleting every candidate but the working one; `next` is being
    /// deleted.
    Prune { candidates: Vec<LauncherBinary>, working: usize, next: usize },
    /// Waiting for the launched runtime to finish.
    AwaitLaunch,
    /// The runtime ran and exited successfully.
    Done,
    /// The run ended without a successful launch.
    Failed(BootstrapFailure),
}

/// The bootstrap orchestrator: the configuration fixed once at startup.
pub struct Bootstrapper {
    pub base_dir: String,
    pub binaries_dir: String,
    pub portable: bool,
    pub bootstrap_args: Vec<String>,
    pub settings: BootstrapSettings,
}

/// The texts of a sequence of strings.
pub open spec fn views_of(v: Seq<String>) -> Seq<Seq<char>> {
    v.map_values(|s: String| s@)
}

/// The paths of a sequence of candidate handles.
pub open spec fn paths_of(v: Seq<LauncherBinary>) -> Seq<Seq<char>> {
    v.map_values(|b: LauncherBinary| b@)
}

proof fn lemma_views_deep(v: &Vec<String>)
    ensures
        v.deep_view() == views_of(v@),
{
    assert(v.deep_view() =~= views_of(v@));
}

/// A file name that carries the reserved in-progress suffix of an
/// interrupted download.
pub open spec fn is_temp_name(name: Seq<char>) -> bool {
    name.len() >= 5 && name.subrange(name.len() - 4, name.len() as int) == ".tmp"@
}

/// A directory entry's full path.
pub open spec fn spec_join(dir: Seq<char>, name: Seq<char>) -> Seq<char> {
    dir + "/"@ + name
}

/// The temporary-suffixed entries of a directory listing, in listing
/// order, as full paths.
pub open spec fn spec_temp_paths(dir: Seq<char>, names: Seq<Seq<char>>) -> Seq<Seq<char>>
    decreases names.len(),
{
    if names.len() == 0 {
        Seq::empty()
    } else {
        let rest = spec_temp_paths(dir, names.drop_last());
        if is_temp_name(names.last()) {
            rest.push(spec_join(dir, names.last()))
        } else {
            rest
        }
    }
}

/// The candidate artifacts a directory listing yields, in listing
/// order, as full paths.
pub open spec fn spec_candidate_paths(dir: Seq<char>, names: Seq<Seq<char>>) -> Seq<Seq<char>> {
    names.map_values(|n: Seq<char>| spec_join(dir, n))
}

/// Law: the cleanup selection picks exactly the temporary-suffixed
/// entries of the listing: every selected path itself carries the
/// suffix, and every temporary-suffixed name is selected.
pub proof fn lemma_temp_selection(dir: Seq<char>, names: Seq<Seq<char>>)
    ensures
        forall|j: int|
            0 <= j < spec_temp_paths(dir, names).len() ==> is_temp_name(
                #[trigger] spec_temp_paths(dir, names)[j],
            ),
        forall|k: int|
            0 <= k < names.len() && is_temp_name(#[trigger] names[k]) ==> spec_temp_paths(
                dir,
                names,
            ).contains(spec_join(dir, names[k])),
    decreases names.len(),
{
    if names.len() > 0 {
        lemma_temp_selection(dir, names.drop_last());
        let rest = spec_temp_paths(dir, names.drop_last());
        if is_temp_name(names.last()) {
            let p = spec_join(dir, names.last());
            assert(p.subrange(p.len() - 4, p.len() as int) =~= names.last().subrange(
                names.last().len() - 4,
                names.last().len() as int,
            ));
            assert(is_temp_name(p));
            assert(rest.push(p)[rest.len() as int] == p);
        }
        assert forall|k: int|
            0 <= k < names.len() && is_temp_name(#[trigger] names[k]) implies spec_temp_paths(
            dir,
            names,
        ).contains(spec_join(dir, names[k])) by {
            if k < names.len() - 1 {
                assert(names.drop_last()[k] == names[k]);
                let q = spec_join(dir, names[k]);
                let w = choose|i: int| 0 <= i < rest.len() && rest[i] == q;
                assert(spec_temp_paths(dir, names)[w] == q);
            } else {
                assert(spec_temp_paths(dir, names).last() == spec_join(dir, names[k]));
            }
        }
    }
}

fn is_temp_name_exec(name: &String) -> (r: bool)
    ensures
        r == is_temp_name(name@),
{
    let s = name.as_str();
    let n = s.unicode_len();
    if n < 5 {
        return false;
    }
    let r = s.get_char(n - 4) == '.' && s.get_char(n - 3) == 't' && s.get_char(n - 2) == 'm'
        && s.get_char(n - 1) == 'p';
    proof {
        reveal_strlit(".tmp");
        let sub = name@.subrange(n as int - 4, n as int);
        if r {
            assert(sub =~= ".tmp"@);
        } else {
            if sub == ".tmp"@ {
                assert(name@[n as int - 4] == sub[0]);
                assert(name@[n as int - 3] == sub[1]);
                assert(name@[n as int - 2] == sub[2]);
                assert(name@[n as int - 1] == sub[3]);
            }
        }
    }
    r
}

fn join_path(dir: &String, name: &String) -> (r: String)
    ensures
        r@ == spec_join(dir@, name@),
{
    let mut out = dir.clone();
    out.append("/");
    out.append(name.as_str());
    out
}

/// Selects the temporary-suffixed entries of a listing, as full paths.
fn temp_paths(dir: &String, names: &Vec<String>) -> (r: Vec<String>)
    ensures
        views_of(r@) == spec_temp_paths(dir@, views_of(names@)),
{
    let mut out: Vec<String> = Vec::new();
    let mut i: usize = 0;
    proof {
        assert(views_of(out@) =~= spec_temp_paths(dir@, views_of(names@).take(0)));
    }
    while i < names.len()
        invariant
            i <= names.len(),
            views_of(out@) == spec_temp_paths(dir@, views_of(names@).take(i as int)),
        decreases names.len() - i,
    {
        let ghost pre = views_of(names@).take(i as int);
        let ghost cur = views_of(names@).take(i as int + 1);
        proof {
            assert(cur.drop_last() =~= pre);
            assert(cur.last() == names@[i as int]@);
        }
        if is_temp_name_exec(&names[i]) {
            let ghost prev_out = out@;
            out.push(join_path(dir, &names[i]));
            proof {
                assert(out@ == prev_out.push(out@[out@.len() - 1]));
                assert(views_of(out@) =~= views_of(prev_out).push(
                    spec_join(dir@, names@[i as int]@),
                ));
            }
        }
        i = i + 1;
    }
    proof {
        assert(views_of(names@).take(names@.len() as int) =~= views_of(names@));
    }
    out
}

/// Turns a directory listing into candidate handles, in listing order.
fn make_candidates(dir: &String, names: &Vec<String>) -> (r: Vec<LauncherBinary>)
    ensures
        paths_of(r@) == spec_candidate_paths(dir@, views_of(names@)),
{
    let mut out: Vec<LauncherBinary> = Vec::new();
    let mut i: usize = 0;
    while i < names.len()
        invariant
            i <= names.len(),
            out@.len() == i,
            forall|j: int| 0 <= j < i ==> #[trigger] out@[j]@ == spec_join(dir@, names@[j]@),
        decreases names.len() - i,
    {
        out.push(LauncherBinary::new(join_path(dir, &names[i])));
        i = i + 1;
    }
    proof {
        assert(paths_of(out@) =~= spec_candidate_paths(dir@, views_of(names@)));
    }
    out
}

/// The ordered invocation arguments: the base directory, the portable
/// marker when in portable mode, the fixed protocol-version marker,
/// then the caller's pass-through arguments in their original order.
pub open spec fn spec_invocation_args(c: Bootstrapper) -> Seq<Seq<char>> {
    seq!["--dir"@, c.base_dir@] + (if c.portable {
        seq!["--portable"@]
    } else {
        Seq::<Seq<char>>::empty()
    }) + seq!["--bootstrap-version"@, "1"@] + views_of(c.bootstrap_args@)
}

/// The invocation the working candidate is launched with.
pub open spec fn launcher_ok(c: Bootstrapper, jar_path: Seq<char>, l: JavaLauncher) -> bool {
    &&& l@.opts.len() == 0
    &&& l@.jar_path == jar_path
    &&& l@.args == spec_invocation_args(c)
}

impl Bootstrapper {
    /// Fixes the configuration for one run; the artifacts directory is
    /// the `launcher` subdirectory of the base directory.
    pub fn create(
        settings: BootstrapSettings,
        portable: bool,
        base_dir: String,
        bootstrap_args: Vec<String>,
    ) -> (b: Bootstrapper)
        ensures
            b.base_dir@ == base_dir@,
            b.binaries_dir@ == base_dir@ + "/launcher"@,
            b.portable == portable,
            b.bootstrap_args == bootstrap_args,
            b.settings == settings,
    {
        let binaries_dir = base_dir.clone().concat("/launcher");
        Bootstrapper { base_dir, binaries_dir, portable, bootstrap_args, settings }
    }

    pub fn base_dir(&self) -> (d: &String)
        ensures
            d@ == self.base_dir@,
    {
        &self.base_dir
    }

    pub fn binaries_dir(&self) -> (d: &String)
        ensures
            d@ == self.binaries_dir@,
    {
        &self.binaries_dir
    }

    /// Builds the invocation for the working candidate: pure data
    /// construction, in the order [`spec_invocation_args`] fixes.
    pub fn build_invocation(&self, working: &LauncherBinary) -> (l: JavaLauncher)
        ensures
            launcher_ok(*self, working@, l),
    {
        let mut args: Vec<String> = Vec::new();
        args.push(String::from_str("--dir"));
        args.push(self.base_dir.clone());
        if self.portable {
            args.push(String::from_str("--portable"));
        }
        args.push(String::from_str("--bootstrap-version"));
        args.push(String::from_str("1"));
        let ghost head = seq!["--dir"@, self.base_dir@] + (if self.portable {
            seq!["--portable"@]
        } else {
            Seq::<Seq<char>>::empty()
        }) + seq!["--bootstrap-version"@, "1"@];
        let base = args.len();
        proof {
            assert(views_of(args@) =~= head);
        }
        let mut k: usize = 0;
        while k < self.bootstrap_args.len()
            invariant
                k <= self.bootstrap_args.len(),
                base + k == args@.len(),
                views_of(args@).take(base as int) == head,
                base == head.len(),
                forall|j: int|
                    0 <= j < k ==> #[trigger] args@[base + j]@ == self.bootstrap_args@[j]@,
            decreases self.bootstrap_args.len() - k,
        {
            let ghost prev = args@;
            args.push(self.bootstrap_args[k].clone());
            proof {
                assert(views_of(args@).take(base as int) =~= views_of(prev).take(base as int));
            }
            k = k + 1;
        }
        proof {
            assert forall|j: int| 0 <= j < views_of(args@).len() implies views_of(args@)[j] == (
            head + views_of(self.bootstrap_args@))[j] by {
                assert(views_of(args@)[j] == args@[j]@);
                if j < base {
                    assert(views_of(args@).take(base as int)[j] == head[j]);
                } else {
                    assert(args@[base + (j - base)]@ == self.bootstrap_args@[j - base]@);
                    assert(views_of(self.bootstrap_args@)[j - base] == self.bootstrap_args@[j
                        - base]@);
                }
            }
            assert(views_of(args@) =~= head + views_of(self.bootstrap_args@));
            lemma_views_deep(&args);
        }
        working.create_launcher(args)
    }
}

/// A fatal version gate: the probe output names a version and it is
/// definitely older than the required one.  Everything else — no
/// token, an unparseable token — is inconclusive and lets the run go
/// on.
pub open spec fn gate_fatal(output: Seq<u8>) -> bool {
    match spec_extract_token(output) {
        Some(t) => match spec_parse(token_chars(t)) {
            Ok(v) => !version_le(spec_required(), v),
            Err(_) => false,
        },
        None => false,
    }
}

/// The answer to an event that the current phase cannot take.
pub open spec fn unexpected(next: Phase, action: Action) -> bool {
    &&& next matches Phase::Failed(BootstrapFailure::UnexpectedEvent)
    &&& action is Stop
}

/// The structural soundness of a phase value, kept by every step.
pub open spec fn phase_wf(phase: Phase) -> bool {
    match phase {
        Phase::AwaitDownload { temp_path, final_path } => is_temp_name(temp_path@)
            && !is_temp_name(final_path@),
        Phase::AwaitRename { final_path } => !is_temp_name(final_path@),
        Phase::Select { candidates, next } => next < candidates@.len(),
        Phase::Prune { candidates, working, next } => working < candidates@.len() && next
            < candidates@.len() && next != working,
        _ => true,
    }
}

pub open spec fn step_ensure_directory(
    c: Bootstrapper,
    event: Event,
    next: Phase,
    action: Action,
) -> bool {
    match event {
        Event::DirCreated(res) => match res {
            Ok(_) => next is Cleanup && (action matches Action::ScanDir(d) && d@
                == c.binaries_dir@),
            Err(m) => (next matches Phase::Failed(BootstrapFailure::CreateDirFailed(m2)) && m2@
                == m@) && action is Stop,
        },
        _ => unexpected(next, action),
    }
}

pub open spec fn step_cleanup(c: Bootstrapper, event: Event, next: Phase, action: Action) -> bool {
    match event {
        Event::DirScanned(res) => match res {
            Ok(names) => next is RemovingTemp && (action matches Action::RemoveTempFiles(ps)
                && views_of(ps@) == spec_temp_paths(c.binaries_dir@, views_of(names@))),
            Err(m) => (next matches Phase::Failed(BootstrapFailure::CleanupFailed(m2)) && m2@
                == m@) && action is Stop,
        },
        _ => unexpected(next, action),
    }
}

pub open spec fn step_removing_temp(event: Event, next: Phase, action: Action) -> bool {
    match event {
        Event::TempFilesRemoved => next is VersionGate && action is QueryRuntimeVersion,
        _ => unexpected(next, action),
    }
}

pub open spec fn step_version_gate(
    c: Bootstrapper,
    event: Event,
    next: Phase,
    action: Action,
) -> bool {
    match event {
        Event::RuntimeVersionProbed(res) => match res {
            Ok(output) => if gate_fatal(output@) {
                (next matches Phase::Failed(
                    BootstrapFailure::Launch(LaunchError::InvalidJava(m)),
                ) && m@ == "Need at least Java 8"@) && action is Stop
            } else {
                next is Discover && (action matches Action::ScanDir(d) && d@ == c.binaries_dir@)
            },
            Err(_) => next is Discover && (action matches Action::ScanDir(d) && d@
                == c.binaries_dir@),
        },
        _ => unexpected(next, action),
    }
}

pub open spec fn step_discover(c: Bootstrapper, event: Event, next: Phase, action: Action) -> bool {
    match event {
        Event::DirScanned(res) => match res {
            Ok(names) => if names@.len() == 0 {
                next is AwaitMetadata && (action matches Action::FetchMetadata(u) && u@
                    == c.settings.update_url@)
            } else {
                let paths = spec_candidate_paths(c.binaries_dir@, views_of(names@));
                (next matches Phase::Select { candidates, next: idx } && paths_of(candidates@)
                    == paths && idx == 0) && (action matches Action::TestArtifact(p) && p@
                    == paths[0])
            },
            Err(m) => (next matches Phase::Failed(
                BootstrapFailure::Launch(LaunchError::IoError(m2)),
            ) && m2@ == m@) && action is Stop,
        },
        _ => unexpected(next, action),
    }
}

pub open spec fn step_await_metadata(
    c: Bootstrapper,
    event: Event,
    next: Phase,
    action: Action,
) -> bool {
    match event {
        Event::MetadataFetched(res) => match res {
            Ok(meta) => {
                let temp = spec_join(c.binaries_dir@, meta.version@ + ".tmp"@);
                let fin = spec_join(c.binaries_dir@, meta.version@ + ".jar"@);
                (next matches Phase::AwaitDownload { temp_path, final_path } && temp_path@ == temp
                    && final_path@ == fin) && (action matches Action::DownloadFile { url, dest }
                    && url@ == meta.url@ && dest@ == temp)
            },
            Err(m) => (next matches Phase::Failed(
                BootstrapFailure::Launch(LaunchError::FailedDownload(m2)),
            ) && m2@ == m@) && action is Stop,
        },
        _ => unexpected(next, action),
    }
}

pub open spec fn step_await_download(
    temp_path: Seq<char>,
    final_path: Seq<char>,
    event: Event,
    next: Phase,
    action: Action,
) -> bool {
    match event {
        Event::FileDownloaded(res) => match res {
            Ok(_) => (next matches Phase::AwaitRename { final_path: f } && f@ == final_path) && (
            action matches Action::RenameFile { from, to } && from@ == temp_path && to@
                == final_path),
            Err(m) => (next matches Phase::Failed(
                BootstrapFailure::Launch(LaunchError::FailedDownload(m2)),
            ) && m2@ == m@) && action is Stop,
        },
        _ => unexpected(next, action),
    }
}

pub open spec fn step_await_rename(
    final_path: Seq<char>,
    event: Event,
    next: Phase,
    action: Action,
) -> bool {
    match event {
        Event::FileRenamed(res) => match res {
            Ok(_) => (next matches Phase::Select { candidates, next: idx } && paths_of(candidates@)
                == seq![final_path] && idx == 0) && (action matches Action::TestArtifact(p) && p@
                == final_path),
            Err(m) => (next matches Phase::Failed(
                BootstrapFailure::Launch(LaunchError::IoError(m2)),
            ) && m2@ == m@) && action is Stop,
        },
        _ => unexpected(next, action),
    }
}

pub open spec fn step_select(
    c: Bootstrapper,
    cs: Vec<LauncherBinary>,
    idx: usize,
    event: Event,
    next: Phase,
    action: Action,
) -> bool {
    match event {
        Event::ArtifactTested(res) => if idx >= cs@.len() {
            unexpected(next, action)
        } else if res matches Ok(true) {
            if cs@.len() == 1 {
                next is AwaitLaunch && (action matches Action::RunLauncher(l) && launcher_ok(
                    c,
                    paths_of(cs@)[idx as int],
                    l,
                ))
            } else {
                let first = if idx == 0 {
                    1int
                } else {
                    0int
                };
                (next matches Phase::Prune { candidates: cs2, working, next: n2 } && cs2@ == cs@
                    && working == idx && n2 == first) && (action matches Action::DeleteArtifact(p)
                    && p@ == paths_of(cs@)[first])
            }
        } else {
            if idx + 1 < cs@.len() {
                (next matches Phase::Select { candidates: cs2, next: n2 } && cs2@ == cs@ && n2
                    == idx + 1) && (action matches Action::TestArtifact(p) && p@ == paths_of(cs@)[
                idx + 1])
            } else {
                (next matches Phase::Failed(
                    BootstrapFailure::Launch(LaunchError::MissingBinaries),
                )) && action is Stop
            }
        },
        _ => unexpected(next, action),
    }
}

pub open spec fn step_prune(
    c: Bootstrapper,
    cs: Vec<LauncherBinary>,
    working: usize,
    idx: usize,
    event: Event,
    next: Phase,
    action: Action,
) -> bool {
    match event {
        Event::ArtifactDeleted(res) => match res {
            Ok(_) => if working >= cs@.len() || idx >= cs@.len() {
                unexpected(next, action)
            } else {
                let n2 = if idx + 1 == working {
                    idx + 2int
                } else {
                    idx + 1int
                };
                if n2 >= cs@.len() {
                    next is AwaitLaunch && (action matches Action::RunLauncher(l) && launcher_ok(
                        c,
                        paths_of(cs@)[working as int],
                        l,
                    ))
                } else {
                    (next matches Phase::Prune { candidates: cs2, working: w2, next: i2 } && cs2@
                        == cs@ && w2 == working && i2 == n2) && (action
                        matches Action::DeleteArtifact(p) && p@ == paths_of(cs@)[n2])
                }
            },
            Err(m) => (next matches Phase::Failed(
                BootstrapFailure::Launch(LaunchError::IoError(m2)),
            ) && m2@ == m@) && action is Stop,
        },
        _ => unexpected(next, action),
    }
}

pub open spec fn step_await_launch(event: Event, next: Phase, action: Action) -> bool {
    match event {
        Event::LauncherFinished(res) => match res {
            Ok(code) => match code {
                Some(x) => if x == 0 {
                    next is Done && action is Stop
                } else {
                    (next matches Phase::Failed(
                        BootstrapFailure::Launch(
                            LaunchError::LauncherExit(JavaError::ExitCode(x2)),
                        ),
                    ) && x2 == x) && action is Stop
                },
                None => (next matches Phase::Failed(
                    BootstrapFailure::Launch(LaunchError::LauncherExit(JavaError::Signal)),
                )) && action is Stop,
            },
            Err(m) => (next matches Phase::Failed(
                BootstrapFailure::Launch(LaunchError::LauncherExit(JavaError::IoError(m2))),
            ) && m2@ == m@) && action is Stop,
        },
        _ => unexpected(next, action),
    }
}

/// The orchestrator's transition relation: what the next phase and the
/// requested action are, for every phase and every event.
pub open spec fn step_rel(
    c: Bootstrapper,
    phase: Phase,
    event: Event,
    next: Phase,
    action: Action,
) -> bool {
    match phase {
        Phase::EnsureDirectory => step_ensure_directory(c, event, next, action),
        Phase::Cleanup => step_cleanup(c, event, next, action),
        Phase::RemovingTemp => step_removing_temp(event, next, action),
        Phase::VersionGate => step_version_gate(c, event, next, action),
        Phase::Discover => step_discover(c, event, next, action),
        Phase::AwaitMetadata => step_await_metadata(c, event, next, action),
        Phase::AwaitDownload { temp_path, final_path } => step_await_download(
            temp_path@,
            final_path@,
            event,
            next,
            action,
        ),
        Phase::AwaitRename { final_path } => step_await_rename(final_path@, event, next, action),
        Phase::Select { candidates, next: idx } => step_select(
            c,
            candidates,
            idx,
            event,
            next,
            action,
        ),
        Phase::Prune { candidates, working, next: idx } => step_prune(
            c,
            candidates,
            working,
            idx,
            event,
            next,
            action,
        ),
        Phase::AwaitLaunch => step_await_launch(event, next, action),
        Phase::Done => next is Done && action is Stop,
        Phase::Failed(_) => next == phase && action is Stop,
    }
}

impl Bootstrapper {
    /// Begins a run: the first phase creates the artifacts directory.
    pub fn start(&self) -> (r: (Phase, Action))
        ensures
            r.0 is EnsureDirectory,
            r.1 matches Action::CreateDir(d) && d@ == self.binaries_dir@,
            phase_wf(r.0),
    {
        (Phase::EnsureDirectory, Action::CreateDir(self.binaries_dir.clone()))
    }

    /// One step of the orchestrator: takes the phase the run stands in
    /// and the event the driver reports, and yields the next phase and
    /// the next action, exactly as [`step_rel`] describes.
    pub fn step(&self, phase: Phase, event: Event) -> (r: (Phase, Action))
        ensures
            step_rel(*self, phase, event, r.0, r.1),
            phase_wf(phase) ==> phase_wf(r.0),
    {
        match (phase, event) {
            (Phase::Done, _) => (Phase::Done, Action::Stop),
            (Phase::Failed(f), _) => (Phase::Failed(f), Action::Stop),
            (Phase::EnsureDirectory, Event::DirCreated(res)) => match res {
                Ok(_) => (Phase::Cleanup, Action::ScanDir(self.binaries_dir.clone())),
                Err(m) => (Phase::Failed(BootstrapFailure::CreateDirFailed(m)), Action::Stop),
            },
            (Phase::Cleanup, Event::DirScanned(res)) => match res {
                Ok(names) => {
                    let ps = temp_paths(&self.binaries_dir, &names);
                    (Phase::RemovingTemp, Action::RemoveTempFiles(ps))
                },
                Err(m) => (Phase::Failed(BootstrapFailure::CleanupFailed(m)), Action::Stop),
            },
            (Phase::RemovingTemp, Event::TempFilesRemoved) => (
                Phase::VersionGate,
                Action::QueryRuntimeVersion,
            ),
            (Phase::VersionGate, Event::RuntimeVersionProbed(res)) => match res {
                Ok(output) => {
                    let fatal = match check_java_version(&output) {
                        Ok(valid) => !valid,
                        Err(_) => false,
                    };
                    assert(fatal == gate_fatal(output@));
                    if fatal {
                        (
                            Phase::Failed(
                                BootstrapFailure::Launch(
                                    LaunchError::InvalidJava(
                                        String::from_str("Need at least Java 8"),
                                    ),
                                ),
                            ),
                            Action::Stop,
                        )
                    } else {
                        (Phase::Discover, Action::ScanDir(self.binaries_dir.clone()))
                    }
                },
                Err(_) => (Phase::Discover, Action::ScanDir(self.binaries_dir.clone())),
            },
            (Phase::Discover, Event::DirScanned(res)) => match res {
                Ok(names) => if names.len() == 0 {
                    (Phase::AwaitMetadata, Action::FetchMetadata(self.settings.update_url.clone()))
                } else {
                    let candidates = make_candidates(&self.binaries_dir, &names);
                    proof {
                        assert(paths_of(candidates@).len() == candidates@.len());
                        assert(spec_candidate_paths(
                            self.binaries_dir@,
                            views_of(names@),
                        ).len() == names@.len());
                    }
                    let first_path = candidates[0].path.clone();
                    proof {
                        assert(paths_of(candidates@)[0] == candidates@[0]@);
                    }
                    (
                        Phase::Select { candidates, next: 0 },
                        Action::TestArtifact(first_path),
                    )
                },
                Err(m) => (
                    Phase::Failed(BootstrapFailure::Launch(LaunchError::IoError(m))),
                    Action::Stop,
                ),
            },
            (Phase::AwaitMetadata, Event::MetadataFetched(res)) => match res {
                Ok(meta) => {
                    let mut tmp_name = meta.version.clone();
                    tmp_name.append(".tmp");
                    let mut jar_name = meta.version.clone();
                    jar_name.append(".jar");
                    let temp = join_path(&self.binaries_dir, &tmp_name);
                    let fin = join_path(&self.binaries_dir, &jar_name);
                    proof {
                        reveal_strlit("/");
                        reveal_strlit(".tmp");
                        reveal_strlit(".jar");
                        assert(temp@.subrange(temp@.len() - 4, temp@.len() as int) =~= ".tmp"@);
                        assert(is_temp_name(temp@));
                        assert(fin@.subrange(fin@.len() - 4, fin@.len() as int) =~= ".jar"@);
                        assert(".jar"@[1] != ".tmp"@[1]);
                        assert(!is_temp_name(fin@));
                    }
                    let dest = temp.clone();
                    (
                        Phase::AwaitDownload { temp_path: temp, final_path: fin },
                        Action::DownloadFile { url: meta.url, dest },
                    )
                },
                Err(m) => (
                    Phase::Failed(BootstrapFailure::Launch(LaunchError::FailedDownload(m))),
                    Action::Stop,
                ),
            },
            (Phase::AwaitDownload { temp_path, final_path }, Event::FileDownloaded(res)) => match res {
                Ok(_) => {
                    let fin2 = final_path.clone();
                    (
                        Phase::AwaitRename { final_path: fin2 },
                        Action::RenameFile { from: temp_path, to: final_path },
                    )
                },
                Err(m) => (
                    Phase::Failed(BootstrapFailure::Launch(LaunchError::FailedDownload(m))),
                    Action::Stop,
                ),
            },
            (Phase::AwaitRename { final_path }, Event::FileRenamed(res)) => match res {
                Ok(_) => {
                    let mut candidates: Vec<LauncherBinary> = Vec::new();
                    candidates.push(LauncherBinary::new(final_path.clone()));
                    proof {
                        assert(paths_of(candidates@) =~= seq![final_path@]);
                    }
                    (
                        Phase::Select { candidates, next: 0 },
                        Action::TestArtifact(final_path),
                    )
                },
                Err(m) => (
                    Phase::Failed(BootstrapFailure::Launch(LaunchError::IoError(m))),
                    Action::Stop,
                ),
            },
            (Phase::Select { candidates, next: idx }, Event::ArtifactTested(res)) => {
                if idx >= candidates.len() {
                    (Phase::Failed(BootstrapFailure::UnexpectedEvent), Action::Stop)
                } else {
                    let usable = match res {
                        Ok(true) => true,
                        _ => false,
                    };
                    if usable {
                        if candidates.len() == 1 {
                            let l = self.build_invocation(&candidates[idx]);
                            proof {
                                assert(paths_of(candidates@)[idx as int] == candidates@[idx as int]@);
                            }
                            (Phase::AwaitLaunch, Action::RunLauncher(l))
                        } else {
                            let first: usize = if idx == 0 {
                                1
                            } else {
                                0
                            };
                            let p = candidates[first].path.clone();
                            proof {
                                assert(paths_of(candidates@)[first as int] == candidates@[first as int]@);
                            }
                            (
                                Phase::Prune { candidates, working: idx, next: first },
                                Action::DeleteArtifact(p),
                            )
                        }
                    } else {
                        if idx + 1 < candidates.len() {
                            let p = candidates[idx + 1].path.clone();
                            proof {
                                assert(paths_of(candidates@)[idx as int + 1] == candidates@[idx as int + 1]@);
                            }
                            (
                                Phase::Select { candidates, next: idx + 1 },
                                Action::TestArtifact(p),
                            )
                        } else {
                            (
                                Phase::Failed(
                                    BootstrapFailure::Launch(LaunchError::MissingBinaries),
                                ),
                                Action::Stop,
                            )
                        }
                    }
                }
            },
            (Phase::Prune { candidates, working, next: idx }, Event::ArtifactDeleted(res)) => match res {
                Ok(_) => {
                    if working >= candidates.len() || idx >= candidates.len() {
                        (Phase::Failed(BootstrapFailure::UnexpectedEvent), Action::Stop)
                    } else {
                        let n2: usize = if idx + 1 == working {
                            idx + 2
                        } else {
                            idx + 1
                        };
                        if n2 >= candidates.len() {
                            let l = self.build_invocation(&candidates[working]);
                            proof {
                                assert(paths_of(candidates@)[working as int] == candidates@[working as int]@);
                            }
                            (Phase::AwaitLaunch, Action::RunLauncher(l))
                        } else {
                            let p = candidates[n2].path.clone();
                            proof {
                                assert(paths_of(candidates@)[n2 as int] == candidates@[n2 as int]@);
                            }
                            (
                                Phase::Prune { candidates, working, next: n2 },
                                Action::DeleteArtifact(p),
                            )
                        }
                    }
                },
                Err(m) => (
                    Phase::Failed(BootstrapFailure::Launch(LaunchError::IoError(m))),
                    Action::Stop,
                ),
            },
            (Phase::AwaitLaunch, Event::LauncherFinished(res)) => match res {
                Ok(Some(0)) => (Phase::Done, Action::Stop),
                Ok(Some(code)) => (
                    Phase::Failed(
                        BootstrapFailure::Launch(
                            LaunchError::LauncherExit(JavaError::ExitCode(code)),
                        ),
                    ),
                    Action::Stop,
                ),
                Ok(None) => (
                    Phase::Failed(
                        BootstrapFailure::Launch(LaunchError::LauncherExit(JavaError::Signal)),
                    ),
                    Action::Stop,
                ),
                Err(m) => (
                    Phase::Failed(
                        BootstrapFailure::Launch(
                            LaunchError::LauncherExit(JavaError::IoError(m)),
                        ),
                    ),
                    Action::Stop,
                ),
            },
            (_, _) => (Phase::Failed(BootstrapFailure::UnexpectedEvent), Action::Stop),
        }
    }
}

/// Law: acquisition is triggered only out of discovery: the update
/// metadata is fetched exactly when the discovery listing of the
/// artifacts directory came back empty; with any pre-existing artifact
/// the run never asks for the network.
pub proof fn lemma_acquire_only_when_empty(
    c: Bootstrapper,
    phase: Phase,
    event: Event,
    next: Phase,
    action: Action,
)
    requires
        step_rel(c, phase, event, next, action),
        action matches Action::FetchMetadata(_),
    ensures
        phase is Discover,
        event matches Event::DirScanned(res) && res matches Ok(names) && names@.len() == 0,
{
}

/// Law: a download is always directed at a temporary-suffixed path,
/// and the rename that completes an acquisition always moves from a
/// temporary-suffixed path to one without the suffix — so a completed
/// download is never visible under a temporary name.
pub proof fn lemma_download_atomic(
    c: Bootstrapper,
    phase: Phase,
    event: Event,
    next: Phase,
    action: Action,
)
    requires
        step_rel(c, phase, event, next, action),
        phase_wf(phase),
    ensures
        action matches Action::DownloadFile { url, dest } ==> is_temp_name(dest@),
        action matches Action::RenameFile { from, to } ==> is_temp_name(from@) && !is_temp_name(
            to@,
        ),
{
    reveal_strlit("/");
    reveal_strlit(".tmp");
    match phase {
        Phase::AwaitMetadata => match event {
            Event::MetadataFetched(Ok(meta)) => {
                let temp = spec_join(c.binaries_dir@, meta.version@ + ".tmp"@);
                assert(temp.subrange(temp.len() - 4, temp.len() as int) =~= ".tmp"@);
                assert(is_temp_name(temp));
            },
            _ => {},
        },
        _ => {},
    }
}

/// Law: pruning never touches the working candidate: every deletion a
/// step requests is of a candidate at an index other than the working
/// one.
pub proof fn lemma_prune_spares_working(
    c: Bootstrapper,
    phase: Phase,
    event: Event,
    next: Phase,
    action: Action,
)
    requires
        step_rel(c, phase, event, next, action),
        phase_wf(phase),
    ensures
        action matches Action::DeleteArtifact(p) ==> (next matches Phase::Prune {
            candidates,
            working,
            next: n,
        } && n != working && p@ == paths_of(candidates@)[n as int]),
{
}

/// A run of the selection loop: the `k`-th entry of `results` answers
/// the structural test of the candidate that `phases[k]` points at,
/// and consecutive phases are joined by the step relation.
pub open spec fn select_chain(
    c: Bootstrapper,
    phases: Seq<Phase>,
    actions: Seq<Action>,
    results: Seq<Result<bool, ArchiveError>>,
) -> bool {
    &&& phases.len() == results.len() + 1
    &&& actions.len() == results.len()
    &&& forall|k: int|
        0 <= k < results.len() ==> step_rel(
            c,
            phases[k],
            Event::ArtifactTested(#[trigger] results[k]),
            phases[k + 1],
            actions[k],
        )
}

/// Law: across a whole selection run, the first candidate whose
/// structural test passes becomes the working one.  While every
/// earlier result is a failure the loop keeps walking the same list in
/// enumeration order, and the step after the first passing result
/// fixes exactly that candidate as working — in the pruning state, or
/// directly in the launch when it was the only candidate.
pub proof fn lemma_select_chain_first_valid(
    c: Bootstrapper,
    phases: Seq<Phase>,
    actions: Seq<Action>,
    results: Seq<Result<bool, ArchiveError>>,
    paths: Seq<Seq<char>>,
    n: int,
    start: int,
)
    requires
        select_chain(c, phases, actions, results),
        0 <= n < results.len(),
        phases[0] matches Phase::Select { candidates, next } && paths_of(candidates@) == paths
            && next == start,
        0 <= start,
        start + n < paths.len(),
        forall|k: int| 0 <= k < n ==> results[k] != Ok::<bool, ArchiveError>(true),
        results[n] == Ok::<bool, ArchiveError>(true),
    ensures
        (phases[n + 1] matches Phase::Prune { candidates, working, .. } && paths_of(candidates@)
            == paths && working == start + n) || (paths.len() == 1 && phases[n
            + 1] is AwaitLaunch),
    decreases n,
{
    assert(step_rel(
        c,
        phases[0],
        Event::ArtifactTested(results[0]),
        phases[1],
        actions[0],
    ));
    if n > 0 {
        let phases2 = phases.skip(1);
        let actions2 = actions.skip(1);
        let results2 = results.skip(1);
        assert forall|k: int| 0 <= k < results2.len() implies step_rel(
            c,
            phases2[k],
            Event::ArtifactTested(#[trigger] results2[k]),
            phases2[k + 1],
            actions2[k],
        ) by {
            assert(step_rel(
                c,
                phases[k + 1],
                Event::ArtifactTested(results[k + 1]),
                phases[k + 2],
                actions[k + 1],
            ));
        }
        lemma_select_chain_first_valid(c, phases2, actions2, results2, paths, n - 1, start + 1);
        assert(phases2[n] == phases[n + 1]);
    }
}

/// Law: when every candidate of a whole selection run fails its
/// structural test, the run ends with the missing-binaries failure —
/// nothing is pruned and nothing is launched.
pub proof fn lemma_select_chain_exhausted(
    c: Bootstrapper,
    phases: Seq<Phase>,
    actions: Seq<Action>,
    results: Seq<Result<bool, ArchiveError>>,
    paths: Seq<Seq<char>>,
    start: int,
)
    requires
        select_chain(c, phases, actions, results),
        results.len() >= 1,
        phases[0] matches Phase::Select { candidates, next } && paths_of(candidates@) == paths
            && next == start,
        0 <= start,
        start + results.len() == paths.len(),
        forall|k: int| 0 <= k < results.len() ==> results[k] != Ok::<bool, ArchiveError>(true),
    ensures
        phases.last() matches Phase::Failed(
            BootstrapFailure::Launch(LaunchError::MissingBinaries),
        ),
    decreases results.len(),
{
    assert(step_rel(
        c,
        phases[0],
        Event::ArtifactTested(results[0]),
        phases[1],
        actions[0],
    ));
    if results.len() > 1 {
        let phases2 = phases.skip(1);
        let actions2 = actions.skip(1);
        let results2 = results.skip(1);
        assert forall|k: int| 0 <= k < results2.len() implies step_rel(
            c,
            phases2[k],
            Event::ArtifactTested(#[trigger] results2[k]),
            phases2[k + 1],
            actions2[k],
        ) by {
            assert(step_rel(
                c,
                phases[k + 1],
                Event::ArtifactTested(results[k + 1]),
                phases[k + 2],
                actions[k + 1],
            ));
        }
        lemma_select_chain_exhausted(c, phases2, actions2, results2, paths, start + 1);
        assert(phases2.last() == phases.last());
    }
}

/// Law: selection walks the candidates strictly in enumeration order:
/// a candidate that fails its structural test is followed by a test of
/// the very next candidate; one that passes becomes the working one;
/// and when the last candidate fails, the run ends with the
/// missing-binaries failure and nothing is launched.
pub proof fn lemma_select_order(
    c: Bootstrapper,
    phase: Phase,
    event: Event,
    next: Phase,
    action: Action,
)
    requires
        step_rel(c, phase, event, next, action),
        phase_wf(phase),
    ensures
        match phase {
            Phase::Select { candidates, next: idx } => match event {
                Event::ArtifactTested(r) => {
                    &&& (r == Ok::<bool, ArchiveError>(true) && candidates@.len() > 1) ==> (next
                        matches Phase::Prune { working, .. } && working == idx)
                    &&& (r == Ok::<bool, ArchiveError>(true) && candidates@.len() == 1)
                        ==> next is AwaitLaunch
                    &&& (r != Ok::<bool, ArchiveError>(true) && idx + 1 < candidates@.len()) ==> ((
                    next matches Phase::Select { next: n2, .. } && n2 == idx + 1) && (action
                        matches Action::TestArtifact(p) && p@ == paths_of(candidates@)[idx as int
                        + 1]))
                    &&& (r != Ok::<bool, ArchiveError>(true) && idx + 1 >= candidates@.len()) ==> (
                    (next matches Phase::Failed(
                        BootstrapFailure::Launch(LaunchError::MissingBinaries),
                    )) && action is Stop)
                },
                _ => true,
            },
            _ => true,
        },
{
}

} // verus!

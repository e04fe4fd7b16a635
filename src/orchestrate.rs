use vstd::prelude::*;
use crate::error::Error;
use crate::ident::PackageId;

verus! {

/// How each package is built.
#[derive(Debug, Clone)]
pub struct BuildFlags {
    /// Build in optimised mode.
    pub release: bool,
    /// Cross-compilation target triple.
    pub target: Option<String>,
    /// Features to enable; ignored when `all_features` is set.
    pub features: Vec<String>,
    pub all_features: bool,
    /// Use the nightly toolchain channel.
    pub nightly: bool,
    /// Do not refresh the lock graph before resolution.
    pub skip_update: bool,
}

/// The texts of `fs` joined by single spaces.
pub open spec fn joined(fs: Seq<String>) -> Seq<char>
    decreases fs.len(),
{
    if fs.len() == 0 {
        Seq::empty()
    } else if fs.len() == 1 {
        fs[0]@
    } else {
        joined(fs.drop_last()) + seq![' '] + fs.last()@
    }
}

pub open spec fn nightly_args(f: BuildFlags) -> Seq<Seq<char>> {
    if f.nightly { seq!["+nightly"@] } else { Seq::empty() }
}

pub open spec fn release_args(f: BuildFlags) -> Seq<Seq<char>> {
    if f.release { seq!["--release"@] } else { Seq::empty() }
}

pub open spec fn target_args(f: BuildFlags) -> Seq<Seq<char>> {
    match f.target {
        Some(t) => seq!["--target="@ + t@],
        None => Seq::empty(),
    }
}

/// `--all-features` takes precedence over a feature list.
pub open spec fn feature_args(f: BuildFlags) -> Seq<Seq<char>> {
    if f.all_features {
        seq!["--all-features"@]
    } else if f.features@.len() > 0 {
        seq!["--features"@, joined(f.features@)]
    } else {
        Seq::empty()
    }
}

/// The arguments of the build tool that build the package `token` (a
/// `name:version` identifier): channel, `build -p <token>`, release mode,
/// target, features, in this order.
pub open spec fn build_args(token: Seq<char>, f: BuildFlags) -> Seq<Seq<char>> {
    nightly_args(f) + seq!["build"@, "-p"@, token] + release_args(f) + target_args(f) + feature_args(f)
}

pub open spec fn args_view(v: Seq<String>) -> Seq<Seq<char>> {
    v.map_values(|s: String| s@)
}

fn join_features(fs: &Vec<String>) -> (r: String)
    ensures
        r@ == joined(fs@),
{
    if fs.len() == 0 {
        return String::new();
    }
    let mut r = String::from_str(fs[0].as_str());
    let mut i: usize = 1;
    assert(fs@.subrange(0, 1).drop_last() =~= Seq::<String>::empty());
    while i < fs.len()
        invariant
            1 <= i <= fs@.len(),
            r@ == joined(fs@.subrange(0, i as int)),
        decreases fs.len() - i,
    {
        proof {
            reveal_strlit(" ");
            assert(fs@.subrange(0, i + 1).drop_last() =~= fs@.subrange(0, i as int));
        }
        r.append(" ");
        r.append(fs[i].as_str());
        assert(r@ =~= joined(fs@.subrange(0, i + 1)));
        i = i + 1;
    }
    assert(fs@.subrange(0, i as int) =~= fs@);
    r
}

fn push_arg(args: &mut Vec<String>, a: &str)
    ensures
        args_view(final(args)@) == args_view(old(args)@).push(a@),
{
    args.push(String::from_str(a));
    assert(args_view(final(args)@) =~= args_view(old(args)@).push(a@));
}

/// The arguments of the build tool that build package `id` with `flags`.
pub fn build_command_args(id: &PackageId, flags: &BuildFlags) -> (r: Vec<String>)
    ensures
        args_view(r@) == build_args(id.token(), *flags),
{
    let mut args: Vec<String> = Vec::new();
    assert(args_view(args@) =~= Seq::empty());
    if flags.nightly {
        push_arg(&mut args, "+nightly");
    }
    assert(args_view(args@) =~= nightly_args(*flags));
    push_arg(&mut args, "build");
    push_arg(&mut args, "-p");
    let token = id.to_token();
    push_arg(&mut args, token.as_str());
    let ghost base = nightly_args(*flags) + seq!["build"@, "-p"@, id.token()];
    assert(args_view(args@) =~= base);
    if flags.release {
        push_arg(&mut args, "--release");
    }
    assert(args_view(args@) =~= base + release_args(*flags));
    match &flags.target {
        Some(t) => {
            let a = String::from_str("--target=").concat(t.as_str());
            push_arg(&mut args, a.as_str());
        },
        None => {},
    }
    let ghost with_target = base + release_args(*flags) + target_args(*flags);
    assert(args_view(args@) =~= with_target);
    if flags.all_features {
        push_arg(&mut args, "--all-features");
    } else if flags.features.len() > 0 {
        push_arg(&mut args, "--features");
        let j = join_features(&flags.features);
        push_arg(&mut args, j.as_str());
    }
    assert(args_view(args@) =~= with_target + feature_args(*flags));
    args
}

/// How one build invocation ended.
#[derive(Debug, Clone, Copy, PartialEq, Eq, Structural)]
pub enum ExitOutcome {
    /// The process ran and exited with this code.
    Exited(i32),
    /// The process ended without an exit code.
    Signalled,
    /// The process could not be started.
    SpawnFailed,
}

pub open spec fn outcome_result(o: ExitOutcome) -> Result<(), Error> {
    match o {
        ExitOutcome::Exited(code) => if code == 0 { Ok(()) } else { Err(Error::BuildFailed(code)) },
        ExitOutcome::Signalled => Err(Error::ProcessTerminated),
        ExitOutcome::SpawnFailed => Err(Error::ProcessSpawn),
    }
}

/// Success for exit code zero; every other ending is its error.
pub fn exit_result(o: ExitOutcome) -> (r: Result<(), Error>)
    ensures
        r == outcome_result(o),
{
    match o {
        ExitOutcome::Exited(code) => if code == 0 { Ok(()) } else { Err(Error::BuildFailed(code)) },
        ExitOutcome::Signalled => Err(Error::ProcessTerminated),
        ExitOutcome::SpawnFailed => Err(Error::ProcessSpawn),
    }
}

/// What a build run is at: its planned invocations, how many of them
/// succeeded, and the failure that ended it, if any.
pub struct RunState {
    pub plan: Seq<Seq<Seq<char>>>,
    pub done: nat,
    pub failure: Option<Error>,
}

/// Whether an invocation is still due: nothing failed and some remain.
pub open spec fn pending(s: RunState) -> bool {
    s.failure is None && s.done < s.plan.len()
}

/// The run's result once it is over: its failure, or success when every
/// planned invocation succeeded. Nothing while it is pending.
pub open spec fn run_result(s: RunState) -> Option<Result<(), Error>> {
    match s.failure {
        Some(e) => Some(Err(e)),
        None => if s.done >= s.plan.len() { Some(Ok(())) } else { None },
    }
}

/// The state after the pending invocation ended with `o`.
pub open spec fn step(s: RunState, o: ExitOutcome) -> RunState {
    match outcome_result(o) {
        Ok(_) => RunState { done: s.done + 1, ..s },
        Err(e) => RunState { failure: Some(e), ..s },
    }
}

/// The state after each pending invocation in turn ended with the next of
/// `os`; outcomes left once the run is over change nothing.
pub open spec fn run_through(s: RunState, os: Seq<ExitOutcome>) -> RunState
    decreases os.len(),
{
    if os.len() == 0 || !pending(s) {
        s
    } else {
        run_through(step(s, os[0]), os.drop_first())
    }
}

/// A strictly sequential, fail-fast build of a list of packages. The caller
/// performs `next_invocation` and reports how it ended with `record`, until
/// `outcome` is known.
pub struct BuildRun {
    plan: Vec<Vec<String>>,
    done: usize,
    failure: Option<Error>,
}

impl View for BuildRun {
    type V = RunState;

    closed spec fn view(&self) -> RunState {
        RunState {
            plan: self.plan@.map_values(|a: Vec<String>| args_view(a@)),
            done: self.done as nat,
            failure: self.failure,
        }
    }
}

impl BuildRun {
    pub open spec fn wf(&self) -> bool {
        self@.done <= self@.plan.len()
    }

    /// Plans one invocation per identifier, in order.
    pub fn new(ids: &Vec<PackageId>, flags: &BuildFlags) -> (r: BuildRun)
        ensures
            r.wf(),
            r@.plan == Seq::new(ids@.len(), |i: int| build_args(ids@[i].token(), *flags)),
            r@.done == 0,
            r@.failure is None,
    {
        let mut plan: Vec<Vec<String>> = Vec::new();
        let mut i: usize = 0;
        while i < ids.len()
            invariant
                i <= ids@.len(),
                plan@.len() == i,
                forall|j: int| 0 <= j < i ==> args_view((#[trigger] plan@[j])@) == build_args(ids@[j].token(), *flags),
            decreases ids.len() - i,
        {
            plan.push(build_command_args(&ids[i], flags));
            i = i + 1;
        }
        let r = BuildRun { plan, done: 0, failure: None };
        assert(r@.plan =~= Seq::new(ids@.len(), |i: int| build_args(ids@[i].token(), *flags)));
        r
    }

    /// The arguments of the invocation that is due, if the run is pending.
    pub fn next_invocation(&self) -> (r: Option<&Vec<String>>)
        requires
            self.wf(),
        ensures
            r is Some <==> pending(self@),
            r is Some ==> args_view(r->Some_0@) == self@.plan[self@.done as int],
    {
        if self.failure.is_none() && self.done < self.plan.len() {
            Some(&self.plan[self.done])
        } else {
            None
        }
    }

    /// Records how the due invocation ended: success moves on to the next,
    /// any failure ends the run.
    pub fn record(&mut self, o: ExitOutcome)
        requires
            old(self).wf(),
            pending(old(self)@),
        ensures
            final(self).wf(),
            final(self)@ == step(old(self)@, o),
    {
        assert(old(self)@.plan.len() == old(self).plan@.len());
        assert(self.done < self.plan.len());
        match exit_result(o) {
            Ok(()) => {
                self.done = self.done + 1;
            },
            Err(e) => {
                self.failure = Some(e);
            },
        }
    }

    /// The run's result once it is over.
    pub fn outcome(&self) -> (r: Option<Result<(), Error>>)
        requires
            self.wf(),
        ensures
            r == run_result(self@),
    {
        match self.failure {
            Some(e) => Some(Err(e)),
            None => if self.done >= self.plan.len() { Some(Ok(())) } else { None },
        }
    }
}

/// Fail-fast: when the first `k` invocations succeed and the next one fails,
/// the run ends there with that failure; no later invocation is due.
pub proof fn lemma_fail_fast(s: RunState, os: Seq<ExitOutcome>, k: int)
    requires
        s.failure is None,
        0 <= k < os.len(),
        s.done + k < s.plan.len(),
        forall|j: int| 0 <= j < k ==> outcome_result(#[trigger] os[j]) is Ok,
        outcome_result(os[k]) is Err,
    ensures
        run_through(s, os).done == s.done + k,
        !pending(run_through(s, os)),
        run_result(run_through(s, os)) == Some(outcome_result(os[k])),
    decreases k,
{
    if k == 0 {
        let t = step(s, os[0]);
        assert(!pending(t));
        assert(run_through(t, os.drop_first()) == t);
    } else {
        let rest = os.drop_first();
        assert forall|j: int| 0 <= j < k - 1 implies outcome_result(#[trigger] rest[j]) is Ok by {
            assert(rest[j] == os[j + 1]);
        }
        assert(outcome_result(os[0]) is Ok);
        lemma_fail_fast(step(s, os[0]), rest, k - 1);
    }
}

/// When every invocation succeeds, the run builds each planned package once,
/// in order, and succeeds.
pub proof fn lemma_all_succeed(s: RunState, os: Seq<ExitOutcome>)
    requires
        s.failure is None,
        s.done <= s.plan.len(),
        s.done + os.len() >= s.plan.len(),
        forall|j: int| 0 <= j < os.len() ==> outcome_result(#[trigger] os[j]) is Ok,
    ensures
        run_through(s, os).done == s.plan.len(),
        run_result(run_through(s, os)) == Some(Ok::<(), Error>(())),
    decreases os.len(),
{
    if s.done < s.plan.len() {
        let rest = os.drop_first();
        assert forall|j: int| 0 <= j < rest.len() implies outcome_result(#[trigger] rest[j]) is Ok by {
            assert(rest[j] == os[j + 1]);
        }
        assert(outcome_result(os[0]) is Ok);
        lemma_all_succeed(step(s, os[0]), rest);
    }
}

} // verus!

use crate::file_waiter::{file_exists_message, FileExistsError};
use crate::process_waiter::{no_process_message, not_an_integer_message, ProcessWaiterError};
use crate::sleeper::Sleeper;
use crate::steam_waiter::{log_error_message, SteamWaiterError};
use crate::text::{push_str, text_of};
use vstd::prelude::*;

verus! {

/// Why one waiter could not begin.
#[derive(Clone, Debug)]
pub enum StartupError {
    Process(ProcessWaiterError),
    File(FileExistsError),
    Steam(SteamWaiterError),
}

/// The two ways a waiter can fail to begin.
#[derive(Clone, Copy, Debug, PartialEq, Eq)]
pub enum ErrorKind {
    /// The argument could not be read as what the waiter needs.
    InvalidArgument,
    /// What is waited for is already over, or can never happen.
    ResourceAbsent,
}

pub open spec fn kind_of(e: StartupError) -> ErrorKind {
    match e {
        StartupError::Process(ProcessWaiterError::NotAValidInteger(_)) => ErrorKind::InvalidArgument,
        _ => ErrorKind::ResourceAbsent,
    }
}

/// What `e` says to the operator.
pub open spec fn startup_message(e: StartupError) -> Seq<char> {
    match e {
        StartupError::Process(p) => match p {
            ProcessWaiterError::NotAValidInteger(text) => not_an_integer_message(text@),
            ProcessWaiterError::NoProcessExists(pid) => no_process_message(pid),
        },
        StartupError::File(f) => file_exists_message(f.spec_file_path()),
        StartupError::Steam(s) => log_error_message(s.spec_file_path()),
    }
}

/// The messages of `errors`, one per line, with no line break after the last.
pub open spec fn joined_messages(errors: Seq<StartupError>) -> Seq<char>
    decreases errors.len(),
{
    if errors.len() == 0 {
        Seq::empty()
    } else if errors.len() == 1 {
        startup_message(errors[0])
    } else {
        joined_messages(errors.drop_last()) + seq!['\n'] + startup_message(errors.last())
    }
}

/// The handles among `outcomes`, in order.
pub open spec fn started<H>(outcomes: Seq<Result<H, StartupError>>) -> Seq<H>
    decreases outcomes.len(),
{
    if outcomes.len() == 0 {
        Seq::empty()
    } else {
        match outcomes.last() {
            Ok(h) => started(outcomes.drop_last()).push(h),
            Err(_) => started(outcomes.drop_last()),
        }
    }
}

/// The errors among `outcomes`, in order.
pub open spec fn failed<H>(outcomes: Seq<Result<H, StartupError>>) -> Seq<StartupError>
    decreases outcomes.len(),
{
    if outcomes.len() == 0 {
        Seq::empty()
    } else {
        match outcomes.last() {
            Ok(_) => failed(outcomes.drop_last()),
            Err(e) => failed(outcomes.drop_last()).push(e),
        }
    }
}

/// What waiting for all gives: the handles to wait on when nothing failed to
/// begin, else every startup error in the order recorded.
pub open spec fn wait_outcome<H>(handles: Seq<H>, errors: Seq<StartupError>) -> Result<
    Seq<H>,
    Seq<StartupError>,
> {
    if errors.len() == 0 {
        Ok(handles)
    } else {
        Err(errors)
    }
}

/// When every start succeeds, each argument gives one handle, in argument
/// order, nothing is reported as failed, and waiting for all waits on
/// exactly those handles.
pub proof fn lemma_all_started<H>(outcomes: Seq<Result<H, StartupError>>)
    requires
        forall|i: int| 0 <= i < outcomes.len() ==> #[trigger] outcomes[i] is Ok,
    ensures
        started(outcomes).len() == outcomes.len(),
        forall|i: int| 0 <= i < outcomes.len() ==> #[trigger] started(outcomes)[i] == outcomes[i]->Ok_0,
        failed(outcomes) == Seq::<StartupError>::empty(),
        wait_outcome(started(outcomes), failed(outcomes)) == Ok::<Seq<H>, Seq<StartupError>>(
            started(outcomes),
        ),
    decreases outcomes.len(),
{
    if outcomes.len() > 0 {
        let rest = outcomes.drop_last();
        assert forall|i: int| 0 <= i < rest.len() implies #[trigger] rest[i] is Ok by {
            assert(rest[i] == outcomes[i]);
        }
        lemma_all_started(rest);
        assert(outcomes.last() is Ok);
    }
}

/// When some start fails, waiting for all reports exactly the failures, in
/// the order the arguments were tried, and waits on no handle.
pub proof fn lemma_failures_reported<H>(outcomes: Seq<Result<H, StartupError>>)
    requires
        exists|i: int| 0 <= i < outcomes.len() && #[trigger] outcomes[i] is Err,
    ensures
        failed(outcomes) == outcomes.filter(|o: Result<H, StartupError>| o is Err).map_values(
            |o: Result<H, StartupError>| o->Err_0,
        ),
        failed(outcomes).len() > 0,
        wait_outcome(started(outcomes), failed(outcomes)) == Err::<Seq<H>, Seq<StartupError>>(
            failed(outcomes),
        ),
{
    lemma_failed_in_order(outcomes);
    let i = choose|i: int| 0 <= i < outcomes.len() && #[trigger] outcomes[i] is Err;
    lemma_failure_kept(outcomes, i);
}

/// Recording the outcomes of one kind and then of another keeps the same
/// handles and errors, in the same order, as recording all of them at once.
pub proof fn lemma_outcomes_concat<H>(
    first: Seq<Result<H, StartupError>>,
    second: Seq<Result<H, StartupError>>,
)
    ensures
        started(first + second) == started(first) + started(second),
        failed(first + second) == failed(first) + failed(second),
    decreases second.len(),
{
    if second.len() == 0 {
        assert(first + second =~= first);
        assert(started(first) + started(second) =~= started(first));
        assert(failed(first) + failed(second) =~= failed(first));
    } else {
        let rest = second.drop_last();
        lemma_outcomes_concat(first, rest);
        assert((first + second).drop_last() =~= first + rest);
        assert((first + second).last() == second.last());
        match second.last() {
            Ok(h) => {
                assert(started(first) + started(rest).push(h) =~= (started(first) + started(
                    rest,
                )).push(h));
            },
            Err(e) => {
                assert(failed(first) + failed(rest).push(e) =~= (failed(first) + failed(
                    rest,
                )).push(e));
            },
        }
    }
}

proof fn lemma_failed_in_order<H>(outcomes: Seq<Result<H, StartupError>>)
    ensures
        failed(outcomes) == outcomes.filter(|o: Result<H, StartupError>| o is Err).map_values(
            |o: Result<H, StartupError>| o->Err_0,
        ),
    decreases outcomes.len(),
{
    reveal(Seq::filter);
    if outcomes.len() > 0 {
        lemma_failed_in_order(outcomes.drop_last());
        let pred = |o: Result<H, StartupError>| o is Err;
        let f = |o: Result<H, StartupError>| o->Err_0;
        let sub = outcomes.drop_last().filter(pred);
        if outcomes.last() is Err {
            assert(sub.push(outcomes.last()).map_values(f) =~= sub.map_values(f).push(
                outcomes.last()->Err_0,
            ));
        }
    } else {
        assert(outcomes.filter(|o: Result<H, StartupError>| o is Err).map_values(
            |o: Result<H, StartupError>| o->Err_0,
        ) =~= Seq::<StartupError>::empty());
    }
}

proof fn lemma_failure_kept<H>(outcomes: Seq<Result<H, StartupError>>, i: int)
    requires
        0 <= i < outcomes.len(),
        outcomes[i] is Err,
    ensures
        failed(outcomes).len() > 0,
    decreases outcomes.len(),
{
    if i < outcomes.len() - 1 {
        assert(outcomes.drop_last()[i] == outcomes[i]);
        lemma_failure_kept(outcomes.drop_last(), i);
    }
}

impl StartupError {
    /// Whether the argument was unreadable or the condition was already over.
    pub fn kind(&self) -> (r: ErrorKind)
        ensures
            r == kind_of(*self),
    {
        match self {
            StartupError::Process(ProcessWaiterError::NotAValidInteger(_)) => {
                ErrorKind::InvalidArgument
            },
            _ => ErrorKind::ResourceAbsent,
        }
    }

    /// What the error says to the operator.
    pub fn message(&self) -> (r: String)
        ensures
            r@ == startup_message(*self),
    {
        match self {
            StartupError::Process(p) => p.message(),
            StartupError::File(f) => f.message(),
            StartupError::Steam(s) => s.message(),
        }
    }
}

/// Every error met while starting the waiters, in the order met.
#[derive(Clone, Debug)]
pub struct AggregateError(Vec<StartupError>);

impl AggregateError {
    pub closed spec fn spec_errors(self) -> Seq<StartupError> {
        self.0@
    }

    /// The errors, in the order met.
    pub fn errors(&self) -> (r: &Vec<StartupError>)
        ensures
            r@ == self.spec_errors(),
    {
        &self.0
    }

    /// The message of every error, one per line.
    pub fn message(&self) -> (r: String)
        ensures
            r@ == joined_messages(self.spec_errors()),
    {
        let mut out: Vec<char> = Vec::new();
        let mut i: usize = 0;
        while i < self.0.len()
            invariant
                i <= self.0@.len(),
                out@ == joined_messages(self.0@.subrange(0, i as int)),
            decreases self.0@.len() - i,
        {
            let ghost before = self.0@.subrange(0, i as int);
            let m = self.0[i].message();
            if i > 0 {
                out.push('\n');
            }
            push_str(&mut out, m.as_str());
            i = i + 1;
            proof {
                let now = self.0@.subrange(0, i as int);
                assert(now.drop_last() =~= before);
                assert(out@ =~= joined_messages(now));
            }
        }
        assert(self.0@.subrange(0, i as int) =~= self.0@);
        text_of(&out)
    }
}

/// Starts waiters of every kind, keeps the handles of those that began and
/// the errors of those that did not, and decides what waiting for all of
/// them means.  `H` is the handle of one running waiter.
pub struct WaiterCollection<H> {
    sleeper: Sleeper,
    errors: Vec<StartupError>,
    handles: Vec<H>,
}

impl<H> WaiterCollection<H> {
    pub closed spec fn spec_sleeper(self) -> Sleeper {
        self.sleeper
    }

    pub closed spec fn spec_errors(self) -> Seq<StartupError> {
        self.errors@
    }

    pub closed spec fn spec_handles(self) -> Seq<H> {
        self.handles@
    }

    pub fn new(sleeper: Sleeper) -> (r: WaiterCollection<H>)
        ensures
            r.spec_sleeper() == sleeper,
            r.spec_errors() == Seq::<StartupError>::empty(),
            r.spec_handles() == Seq::<H>::empty(),
    {
        WaiterCollection { sleeper, handles: Vec::new(), errors: Vec::new() }
    }

    /// The poll interval each waiter is started with.
    pub fn sleeper(&self) -> (r: Sleeper)
        ensures
            r == self.spec_sleeper(),
    {
        self.sleeper
    }

    /// Records what starting one kind of waiter gave, one outcome per
    /// argument in argument order: each handle and each error is kept, and
    /// none stops the others.
    pub fn add(&mut self, outcomes: Vec<Result<H, StartupError>>)
        ensures
            final(self).spec_handles() == old(self).spec_handles() + started(outcomes@),
            final(self).spec_errors() == old(self).spec_errors() + failed(outcomes@),
            final(self).spec_sleeper() == old(self).spec_sleeper(),
    {
        let ghost all = outcomes@;
        let ghost handles0 = self.handles@;
        let ghost errors0 = self.errors@;
        for outcome in it: outcomes
            invariant
                all == it.seq(),
                self.handles@ == handles0 + started(all.subrange(0, it.index() as int)),
                self.errors@ == errors0 + failed(all.subrange(0, it.index() as int)),
                self.sleeper == old(self).sleeper,
        {
            let ghost k = it.index();
            assert(all.subrange(0, k + 1).drop_last() =~= all.subrange(0, k as int));
            assert(all.subrange(0, k + 1).last() == outcome);
            match outcome {
                Ok(handle) => self.handles.push(handle),
                Err(error) => self.errors.push(error),
            }
            assert(self.handles@ =~= handles0 + started(all.subrange(0, k + 1)));
            assert(self.errors@ =~= errors0 + failed(all.subrange(0, k + 1)));
        }
        assert(all.subrange(0, all.len() as int) =~= all);
    }

    /// Decides what waiting for all means: when no waiter failed to begin,
    /// the handles to wait on, in the order recorded; otherwise every startup
    /// error, and the waiters that did begin are not waited on.
    pub fn wait_for_all(self) -> (r: Result<Vec<H>, AggregateError>)
        ensures
            match wait_outcome(self.spec_handles(), self.spec_errors()) {
                Ok(hs) => r is Ok && r->Ok_0@ == hs,
                Err(es) => r is Err && r->Err_0.spec_errors() == es,
            },
    {
        if self.errors.len() == 0 {
            Ok(self.handles)
        } else {
            Err(AggregateError(self.errors))
        }
    }
}

} // verus!

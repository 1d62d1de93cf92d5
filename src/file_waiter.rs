use crate::sleeper::Sleeper;
use crate::text::{push_str, text_of};
use vstd::prelude::*;

verus! {

/// Waits until a file appears at a path.
#[derive(Debug)]
pub struct FileWaiter {
    file_path: String,
    sleeper: Sleeper,
}

pub open spec fn file_exists_message(path: Seq<char>) -> Seq<char> {
    "File ["@ + path + "] already exists."@
}

impl FileWaiter {
    /// The path waited for.
    pub closed spec fn spec_file_path(self) -> Seq<char> {
        self.file_path@
    }

    pub closed spec fn spec_sleeper(self) -> Sleeper {
        self.sleeper
    }

    pub fn new(file_path: String, sleeper: Sleeper) -> (r: FileWaiter)
        ensures
            r.spec_file_path() == file_path@,
            r.spec_sleeper() == sleeper,
    {
        FileWaiter { file_path, sleeper }
    }

    /// Checks the argument and the first observation of the path.  Waiting
    /// for a path that exists already would be over before it began, so that
    /// is refused.
    pub fn start(argument: &str, sleeper: Sleeper, path_exists: bool) -> (r: Result<
        FileWaiter,
        FileExistsError,
    >)
        ensures
            r is Err <==> path_exists,
            r is Ok ==> r->Ok_0.spec_file_path() == argument@ && r->Ok_0.spec_sleeper()
                == sleeper,
            r is Err ==> r->Err_0.spec_file_path() == argument@,
    {
        let waiter = FileWaiter::new(argument.to_owned(), sleeper);
        if waiter.continue_waiting(path_exists) {
            Ok(waiter)
        } else {
            Err(FileExistsError::new(argument.to_owned()))
        }
    }

    /// Whether to go on waiting, given whether the path exists now.
    pub fn continue_waiting(&self, path_exists: bool) -> (r: bool)
        ensures
            r == !path_exists,
    {
        !path_exists
    }

    /// The path waited for.
    pub fn file_path(&self) -> (r: &str)
        ensures
            r@ == self.spec_file_path(),
    {
        self.file_path.as_str()
    }

    pub fn get_sleeper(&self) -> (r: &Sleeper)
        ensures
            *r == self.spec_sleeper(),
    {
        &self.sleeper
    }
}

/// The path to wait for exists already.
#[derive(Clone, Debug)]
pub struct FileExistsError {
    file_path: String,
}

impl FileExistsError {
    pub closed spec fn spec_file_path(self) -> Seq<char> {
        self.file_path@
    }

    pub fn new(file_path: String) -> (r: FileExistsError)
        ensures
            r.spec_file_path() == file_path@,
    {
        FileExistsError { file_path }
    }

    /// What the error says to the operator.
    pub fn message(&self) -> (r: String)
        ensures
            r@ == file_exists_message(self.spec_file_path()),
    {
        let mut out: Vec<char> = Vec::new();
        push_str(&mut out, "File [");
        push_str(&mut out, self.file_path.as_str());
        push_str(&mut out, "] already exists.");
        text_of(&out)
    }
}

} // verus!

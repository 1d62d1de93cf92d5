use crate::sleeper::Sleeper;
use crate::text::{chars_of, contains_text, occurs_in, push_str, text_of};
use vstd::prelude::*;

verus! {

/// Relies on `dirs::home_dir`: the current user's home directory, if one is
/// known.  The answer depends on the environment; a path that is not valid
/// Unicode is converted lossily.
#[verifier::external_body]
fn home_dir() -> (r: Option<String>) {
    dirs::home_dir().map(|p| p.to_string_lossy().into_owned())
}

/// Waits until the log reports that the download of a game has finished.
/// The log itself is read by the caller, from where it ended when the wait
/// began; this holds what is matched against what was read.
#[derive(Debug)]
pub struct SteamWaiter {
    app_id: String,
    sleeper: Sleeper,
}

/// The line the log writes once the game `app_id` is fully installed.
pub open spec fn download_finished_line(app_id: Seq<char>) -> Seq<char> {
    "AppID "@ + app_id + " state changed : Fully Installed"@
}

pub open spec fn default_log_path_text() -> Seq<char> {
    "~/.local/share/Steam/logs/content_log.txt"@
}

/// `s` with every `~` turned into `.`.
pub open spec fn tilde_replaced(s: Seq<char>) -> Seq<char> {
    s.map_values(|c: char| if c == '~' { '.' } else { c })
}

/// `rest` joined onto `base` by the Unix rule of `Path::join`: an absolute
/// `rest` replaces `base`; otherwise a `/` stands between the two unless
/// `base` is empty or already ends with one.
pub open spec fn joined_path(base: Seq<char>, rest: Seq<char>) -> Seq<char> {
    if rest.len() > 0 && rest[0] == '/' {
        rest
    } else if base.len() == 0 {
        rest
    } else if base.last() == '/' {
        base + rest
    } else {
        base + seq!['/'] + rest
    }
}

/// The default log path under the home directory `home`; empty when there
/// is no home directory.
pub open spec fn expanded_default_path(home: Option<Seq<char>>) -> Seq<char> {
    match home {
        Some(h) => joined_path(h, tilde_replaced(default_log_path_text())),
        None => Seq::empty(),
    }
}

/// The characters of the text held, if any.
pub open spec fn text_option(value: Option<&str>) -> Option<Seq<char>> {
    match value {
        Some(v) => Some(v@),
        None => None,
    }
}

pub open spec fn log_error_message(path: Seq<char>) -> Seq<char> {
    "Error reading file ["@ + path + "]."@
}

/// The line the log writes once the game `app_id` is fully installed.
pub fn create_download_finished_log_line(app_id: &str) -> (r: String)
    ensures
        r@ == download_finished_line(app_id@),
{
    let mut out: Vec<char> = Vec::new();
    push_str(&mut out, "AppID ");
    push_str(&mut out, app_id);
    push_str(&mut out, " state changed : Fully Installed");
    text_of(&out)
}

/// `s` with every `~` turned into `.`.
pub fn replace_tilde(s: &str) -> (r: String)
    ensures
        r@ == tilde_replaced(s@),
{
    let cs = chars_of(s);
    let mut out: Vec<char> = Vec::new();
    let mut i: usize = 0;
    while i < cs.len()
        invariant
            cs@ == s@,
            i <= cs@.len(),
            out@ == tilde_replaced(s@.subrange(0, i as int)),
        decreases cs@.len() - i,
    {
        let c = cs[i];
        out.push(if c == '~' { '.' } else { c });
        i = i + 1;
        assert(out@ =~= tilde_replaced(s@.subrange(0, i as int)));
    }
    assert(s@.subrange(0, i as int) =~= s@);
    text_of(&out)
}

/// `rest` joined onto `base` as a path (see `joined_path`).
pub fn join_path(base: &str, rest: &str) -> (r: String)
    ensures
        r@ == joined_path(base@, rest@),
{
    let b = chars_of(base);
    let t = chars_of(rest);
    let mut out: Vec<char> = Vec::new();
    if !(t.len() > 0 && t[0] == '/') && b.len() > 0 {
        push_str(&mut out, base);
        if b[b.len() - 1] != '/' {
            out.push('/');
        }
    }
    push_str(&mut out, rest);
    assert(out@ =~= joined_path(base@, rest@));
    text_of(&out)
}

/// The default log path under the home directory `home`.
pub fn expand_path_from_home(home: Option<&str>) -> (r: String)
    ensures
        r@ == expanded_default_path(text_option(home)),
{
    match home {
        Some(h) => {
            let relative = replace_tilde(SteamWaiter::default_log_file_path());
            join_path(h, relative.as_str())
        },
        None => String::new(),
    }
}

/// The default log path under the current user's home directory; empty
/// when no home directory is known.
pub fn expand_default_path() -> (r: String)
    ensures
        exists|home: Option<Seq<char>>| r@ == expanded_default_path(home),
{
    let home = home_dir();
    match home {
        Some(h) => expand_path_from_home(Some(h.as_str())),
        None => expand_path_from_home(None),
    }
}

impl SteamWaiter {
    pub closed spec fn spec_app_id(self) -> Seq<char> {
        self.app_id@
    }

    pub closed spec fn spec_sleeper(self) -> Sleeper {
        self.sleeper
    }

    pub fn new(app_id: String, sleeper: Sleeper) -> (r: SteamWaiter)
        ensures
            r.spec_app_id() == app_id@,
            r.spec_sleeper() == sleeper,
    {
        SteamWaiter { app_id, sleeper }
    }

    /// Begins the wait for the game `argument`, given whether the log at
    /// `log_file` could be opened.  A log that cannot be opened would never
    /// report anything, so that is refused.
    pub fn start(argument: &str, sleeper: Sleeper, log_file: &str, log_opened: bool) -> (r: Result<
        SteamWaiter,
        SteamWaiterError,
    >)
        ensures
            r is Ok <==> log_opened,
            r is Ok ==> r->Ok_0.spec_app_id() == argument@ && r->Ok_0.spec_sleeper() == sleeper,
            r is Err ==> r->Err_0.spec_file_path() == log_file@,
    {
        if log_opened {
            Ok(SteamWaiter::new(argument.to_owned(), sleeper))
        } else {
            Err(SteamWaiterError::new(log_file.to_owned()))
        }
    }

    /// Whether to go on waiting, given what was read from the log since the
    /// last check: `None` when the read failed.  A failed read never ends
    /// the wait; only the finished line for this game, in the text read,
    /// does.
    pub fn continue_waiting(&self, appended: Option<&str>) -> (r: bool)
        ensures
            r == match appended {
                Some(text) => !occurs_in(download_finished_line(self.spec_app_id()), text@),
                None => true,
            },
    {
        match appended {
            Some(text) => {
                let line = create_download_finished_log_line(self.app_id.as_str());
                !contains_text(text, line.as_str())
            },
            None => true,
        }
    }

    /// The log path: the value of the environment variable when it is set,
    /// else the default path under the home directory.
    pub fn log_file_path(env_value: Option<&str>) -> (r: String)
        ensures
            env_value is Some ==> r@ == env_value->Some_0@,
            env_value is None ==> exists|home: Option<Seq<char>>|
                r@ == #[trigger] expanded_default_path(home),
    {
        match env_value {
            Some(v) => {
                let r = v.to_owned();
                r
            },
            None => expand_default_path(),
        }
    }

    /// The id of the game waited for.
    pub fn app_id(&self) -> (r: &str)
        ensures
            r@ == self.spec_app_id(),
    {
        self.app_id.as_str()
    }

    pub fn get_sleeper(&self) -> (r: &Sleeper)
        ensures
            *r == self.spec_sleeper(),
    {
        &self.sleeper
    }

    /// The log path used when the environment names none.
    pub fn default_log_file_path() -> (r: &'static str)
        ensures
            r@ == default_log_path_text(),
    {
        "~/.local/share/Steam/logs/content_log.txt"
    }

    /// The environment variable that names the log path.
    pub fn env_var_log_file() -> (r: &'static str)
        ensures
            r@ == "STEAM_LOG_FILE"@,
    {
        "STEAM_LOG_FILE"
    }
}

/// The log could not be opened.
#[derive(Clone, Debug)]
pub struct SteamWaiterError {
    file_path: String,
}

impl SteamWaiterError {
    pub closed spec fn spec_file_path(self) -> Seq<char> {
        self.file_path@
    }

    pub fn new(file_path: String) -> (r: SteamWaiterError)
        ensures
            r.spec_file_path() == file_path@,
    {
        SteamWaiterError { file_path }
    }

    /// What the error says to the operator.
    pub fn message(&self) -> (r: String)
        ensures
            r@ == log_error_message(self.spec_file_path()),
    {
        let mut out: Vec<char> = Vec::new();
        push_str(&mut out, "Error reading file [");
        push_str(&mut out, self.file_path.as_str());
        push_str(&mut out, "].");
        text_of(&out)
    }
}

} // verus!

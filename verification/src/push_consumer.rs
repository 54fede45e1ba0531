//! The consumer that pushes announced distributions to a public index: what it reads, when it tries
//! again, and what becomes of a message.
use crate::json;
use crate::paths;
use crate::text;
use vstd::prelude::*;

verus! {

/// The durable queue of the consumer.
pub const QUEUE_NAME: &'static str = "pypi.publish.push-to-pypi";

/// The keys that the queue is bound to: the events of every project.
pub const BINDING_KEY: &'static str = "pypi.publish.#";

/// How often a message's file is pushed before the message is given up.
pub const MAX_ATTEMPTS: u32 = 5;

/// How long to wait, in seconds, before the connection is made anew.
pub const RECONNECT_DELAY: u64 = 5;

/// Why a message announces nothing.
#[derive(Debug)]
pub enum EventError {
    /// The message is not JSON.
    Malformed(String),
    /// The message does not name a file.
    NoFilename,
}

/// What an `EventError` holds.
pub enum EventErrorView {
    Malformed(Seq<char>),
    NoFilename,
}

impl View for EventError {
    type V = EventErrorView;

    open spec fn view(&self) -> EventErrorView {
        match self {
            EventError::Malformed(message) => EventErrorView::Malformed(message@),
            EventError::NoFilename => EventErrorView::NoFilename,
        }
    }
}

impl EventErrorView {
    /// The error in words.
    pub open spec fn words(self) -> Seq<char> {
        match self {
            EventErrorView::Malformed(message) => message,
            EventErrorView::NoFilename => "event missing 'filename'"@,
        }
    }
}

impl EventError {
    /// The error in words.
    pub fn message(&self) -> (r: String)
        ensures
            r@ == self@.words(),
            self matches EventError::Malformed(message) ==> r@ == message@,
    {
        match self {
            EventError::Malformed(message) => message.clone(),
            EventError::NoFilename => "event missing 'filename'".to_owned(),
        }
    }
}

/// The file that a parsed message announces: its text member `filename`.
pub open spec fn announced_in(parsed: Result<Map<Seq<char>, Seq<char>>, Seq<char>>) -> Result<
    Seq<char>,
    EventErrorView,
> {
    match parsed {
        Err(e) => Err(EventErrorView::Malformed(e)),
        Ok(texts) => if texts.contains_key("filename"@) {
            Ok(texts["filename"@])
        } else {
            Err(EventErrorView::NoFilename)
        },
    }
}

/// The file that a message announces.
pub open spec fn announced(body: Seq<u8>) -> Result<Seq<char>, EventErrorView> {
    announced_in(json::parsed_texts(body))
}

/// What the outcome of reading a message holds.
pub open spec fn event_outcome(r: Result<String, EventError>) -> Result<
    Seq<char>,
    EventErrorView,
> {
    match r {
        Ok(filename) => Ok(filename@),
        Err(e) => Err(e@),
    }
}

/// The file that a message announces, given its member `filename`.
pub fn filename_or_error(member: Option<String>) -> (r: Result<String, EventError>)
    ensures
        match member {
            Some(filename) => r is Ok && r->Ok_0@ == filename@,
            None => r is Err && r->Err_0@ == EventErrorView::NoFilename,
        },
{
    match member {
        Some(filename) => Ok(filename),
        None => Err(EventError::NoFilename),
    }
}

/// The file that a message announces. The message is a pointer to the file and nothing else in it
/// counts.
pub fn event_filename(body: &[u8]) -> (r: Result<String, EventError>)
    ensures
        event_outcome(r) == announced(body@),
        match json::parsed_texts(body@) {
            Ok(texts) => {
                &&& r is Ok <==> texts.contains_key("filename"@)
                &&& r matches Ok(filename) ==> filename@ == texts["filename"@]
                &&& r matches Err(e) ==> e is NoFilename
            },
            Err(message) => r matches Err(EventError::Malformed(m)) && m@ == message,
        },
{
    match json::parse(body) {
        Err(e) => Err(EventError::Malformed(e)),
        Ok(event) => filename_or_error(json::text_member(&event, "filename")),
    }
}

/// What to do after an attempt.
#[derive(Debug, Clone, Copy, PartialEq, Eq, Structural)]
pub enum NextStep {
    /// The file was pushed.
    Finish,
    /// Wait, and then make the attempt with the given number.
    Retry { after_secs: u64, attempt: u32 },
    /// The message is given up.
    GiveUp,
}

/// Two to the power of the smaller of the attempt's number and five.
pub open spec fn backoff(attempt: u32) -> u64 {
    if attempt == 0 {
        1
    } else if attempt == 1 {
        2
    } else if attempt == 2 {
        4
    } else if attempt == 3 {
        8
    } else if attempt == 4 {
        16
    } else {
        32
    }
}

/// How long to wait, in seconds, after a failed attempt.
pub fn backoff_secs(attempt: u32) -> (r: u64)
    ensures
        r == backoff(attempt),
        r == vstd::arithmetic::power::pow(2, if attempt < 5 {
            attempt as nat
        } else {
            5
        }),
{
    let exponent: u32 = if attempt < 5 {
        attempt
    } else {
        5
    };
    let mut r: u64 = 1;
    let mut i: u32 = 0;
    proof {
        vstd::arithmetic::power::lemma_pow0(2);
    }
    while i < exponent
        invariant
            i <= exponent <= 5,
            r == vstd::arithmetic::power::pow(2, i as nat),
            r == backoff(i),
        decreases exponent - i,
    {
        proof {
            reveal(vstd::arithmetic::power::pow);
        }
        r = 2 * r;
        i = i + 1;
    }
    r
}

/// What to do after the attempt with the given number.
pub open spec fn step_after(attempt: u32, pushed: bool) -> NextStep {
    if pushed {
        NextStep::Finish
    } else if attempt < MAX_ATTEMPTS {
        NextStep::Retry { after_secs: backoff(attempt), attempt: (attempt + 1) as u32 }
    } else {
        NextStep::GiveUp
    }
}

/// What to do after the attempt with the given number, counted from one.
pub fn next_step(attempt: u32, pushed: bool) -> (r: NextStep)
    ensures
        r == step_after(attempt, pushed),
        pushed ==> r is Finish,
        !pushed && attempt < 5 ==> r is Retry && r->attempt == attempt + 1 && r->after_secs
            == vstd::arithmetic::power::pow(2, attempt as nat),
        !pushed && attempt >= 5 ==> r is GiveUp,
{
    if pushed {
        NextStep::Finish
    } else if attempt < MAX_ATTEMPTS {
        NextStep::Retry { after_secs: backoff_secs(attempt), attempt: attempt + 1 }
    } else {
        NextStep::GiveUp
    }
}

/// Whether the file is pushed in the end, from the attempt with the given number on, where
/// `outcomes` says of each attempt whether it succeeds.
pub open spec fn pushed_from(outcomes: spec_fn(u32) -> bool, attempt: u32) -> bool
    decreases MAX_ATTEMPTS - attempt,
{
    match step_after(attempt, outcomes(attempt)) {
        NextStep::Finish => true,
        NextStep::Retry { after_secs, attempt: next } => pushed_from(outcomes, next),
        NextStep::GiveUp => false,
    }
}

/// The waits from the attempt with the given number on.
pub open spec fn waits_from(outcomes: spec_fn(u32) -> bool, attempt: u32) -> Seq<u64>
    decreases MAX_ATTEMPTS - attempt,
{
    match step_after(attempt, outcomes(attempt)) {
        NextStep::Finish => Seq::empty(),
        NextStep::Retry { after_secs, attempt: next } => seq![after_secs] + waits_from(
            outcomes,
            next,
        ),
        NextStep::GiveUp => Seq::empty(),
    }
}

/// A message's file is pushed if and only if one of the first five attempts succeeds.
pub proof fn law_five_attempts(outcomes: spec_fn(u32) -> bool)
    ensures
        pushed_from(outcomes, 1) <==> outcomes(1) || outcomes(2) || outcomes(3) || outcomes(4)
            || outcomes(5),
{
    reveal_with_fuel(pushed_from, 6);
}

/// There is a wait between two attempts and nowhere else. The waits are two, four, eight and sixteen
/// seconds, as far as they are needed.
pub proof fn law_waits_double(outcomes: spec_fn(u32) -> bool)
    ensures
        ({
            let attempts: int = if outcomes(1) {
                1
            } else if outcomes(2) {
                2
            } else if outcomes(3) {
                3
            } else if outcomes(4) {
                4
            } else {
                5
            };
            waits_from(outcomes, 1) == seq![2u64, 4u64, 8u64, 16u64].take(attempts - 1)
        }),
{
    reveal_with_fuel(waits_from, 6);
    let all = seq![2u64, 4u64, 8u64, 16u64];
    assert(waits_from(outcomes, 5) =~= Seq::<u64>::empty());
    if outcomes(1) {
        assert(waits_from(outcomes, 1) =~= all.take(0));
    } else if outcomes(2) {
        assert(waits_from(outcomes, 1) =~= all.take(1));
    } else if outcomes(3) {
        assert(waits_from(outcomes, 1) =~= all.take(2));
    } else if outcomes(4) {
        assert(waits_from(outcomes, 1) =~= all.take(3));
    } else {
        assert(waits_from(outcomes, 1) =~= all.take(4));
    }
}

/// What becomes of a message.
#[derive(Debug, Clone, Copy, PartialEq, Eq, Structural)]
pub enum Settlement {
    Ack,
    Nack { requeue: bool },
}

/// What becomes of a message: it is taken off the queue in any case, and is never put back.
pub fn settle(handled: bool) -> (r: Settlement)
    ensures
        r == (if handled {
            Settlement::Ack
        } else {
            Settlement::Nack { requeue: false }
        }),
{
    if handled {
        Settlement::Ack
    } else {
        Settlement::Nack { requeue: false }
    }
}

/// Where files are pushed, unless the environment says otherwise.
pub const DEFAULT_REPOSITORY_URL: &'static str = "https://upload.pypi.org/legacy/";

/// The name under which files are pushed, unless the environment says otherwise.
pub const DEFAULT_USERNAME: &'static str = "__token__";

/// Why a file is not pushed.
#[derive(Debug)]
pub enum PushError {
    /// The environment holds no password.
    NoPassword,
    /// The announced file name holds a path separator.
    Separator(String),
    /// There is no such file.
    Missing(String),
}

/// What a `PushError` holds.
pub enum PushErrorView {
    NoPassword,
    Separator(Seq<char>),
    Missing(Seq<char>),
}

impl View for PushError {
    type V = PushErrorView;

    open spec fn view(&self) -> PushErrorView {
        match self {
            PushError::NoPassword => PushErrorView::NoPassword,
            PushError::Separator(filename) => PushErrorView::Separator(filename@),
            PushError::Missing(filename) => PushErrorView::Missing(filename@),
        }
    }
}

impl PushErrorView {
    /// The error in words.
    pub open spec fn words(self) -> Seq<char> {
        match self {
            PushErrorView::NoPassword => "TWINE_PASSWORD not set, cannot push to public index"@,
            PushErrorView::Separator(filename) => {
                "refusing to push filename containing a path separator: "@ + filename
            },
            PushErrorView::Missing(filename) => "distribution file '"@ + filename
                + "' missing on disk"@,
        }
    }
}

impl PushError {
    /// The error in words.
    pub fn message(&self) -> (r: String)
        ensures
            r@ == self@.words(),
            self matches PushError::Separator(filename) ==> r@
                == "refusing to push filename containing a path separator: "@ + filename@,
            self matches PushError::Missing(filename) ==> r@ == "distribution file '"@ + filename@
                + "' missing on disk"@,
    {
        match self {
            PushError::NoPassword => {
                "TWINE_PASSWORD not set, cannot push to public index".to_owned()
            },
            PushError::Separator(filename) => text::concat2(
                "refusing to push filename containing a path separator: ",
                filename,
            ),
            PushError::Missing(filename) => text::concat3(
                "distribution file '",
                filename,
                "' missing on disk",
            ),
        }
    }
}

/// Where a file lies, where it goes, and with which credentials.
#[derive(Debug)]
pub struct PushPlan {
    pub path: String,
    pub repository_url: String,
    pub username: String,
    pub password: String,
}

/// What a `PushPlan` holds.
pub struct PlanView {
    pub path: Seq<char>,
    pub repository_url: Seq<char>,
    pub username: Seq<char>,
    pub password: Seq<char>,
}

impl View for PushPlan {
    type V = PlanView;

    open spec fn view(&self) -> PlanView {
        PlanView {
            path: self.path@,
            repository_url: self.repository_url@,
            username: self.username@,
            password: self.password@,
        }
    }
}

/// The plan for an announced file, given the packages directory and what the environment says, or why
/// there is none.
pub open spec fn plan(
    filename: Seq<char>,
    dir: Seq<char>,
    repository_url: Option<Seq<char>>,
    username: Option<Seq<char>>,
    password: Option<Seq<char>>,
) -> Result<PlanView, PushErrorView> {
    match password {
        None => Err(PushErrorView::NoPassword),
        Some(password) => if paths::separated(filename) {
            Err(PushErrorView::Separator(filename))
        } else {
            Ok(
                PlanView {
                    path: paths::path_in(dir, filename),
                    repository_url: text::text_or(repository_url, DEFAULT_REPOSITORY_URL@),
                    username: text::text_or(username, DEFAULT_USERNAME@),
                    password,
                },
            )
        },
    }
}

/// The plan for an announced file. The file name comes from a message and is held to the same rule as
/// one that is asked for.
pub fn plan_push(
    filename: &str,
    dir: &str,
    repository_url: Option<String>,
    username: Option<String>,
    password: Option<String>,
) -> (r: Result<PushPlan, PushError>)
    ensures
        ({
            let wanted = plan(
                filename@,
                dir@,
                text::opt_text(repository_url),
                text::opt_text(username),
                text::opt_text(password),
            );
            match r {
                Ok(p) => wanted is Ok && wanted->Ok_0 == p@,
                Err(e) => wanted is Err && wanted->Err_0 == e@,
            }
        }),
        r is Ok <==> password is Some && !filename@.contains('/') && !filename@.contains('\\'),
        r matches Ok(p) ==> {
            &&& p.path@ == (if dir@.len() == 0 || dir@.last() == '/' {
                dir@ + filename@
            } else {
                dir@ + "/"@ + filename@
            })
            &&& p.repository_url@ == (match repository_url {
                Some(url) => url@,
                None => "https://upload.pypi.org/legacy/"@,
            })
            &&& p.username@ == (match username {
                Some(name) => name@,
                None => "__token__"@,
            })
            &&& p.password@ == password->0@
        },
        r matches Err(e) ==> match password {
            None => e is NoPassword,
            Some(_) => e matches PushError::Separator(name) && name@ == filename@,
        },
{
    let repository_url: String = match repository_url {
        Some(url) => url,
        None => DEFAULT_REPOSITORY_URL.to_owned(),
    };
    let username: String = match username {
        Some(name) => name,
        None => DEFAULT_USERNAME.to_owned(),
    };
    match password {
        None => Err(PushError::NoPassword),
        Some(password) => {
            if paths::has_separator(filename) {
                return Err(PushError::Separator(filename.to_owned()));
            }
            Ok(PushPlan { path: paths::join(dir, filename), repository_url, username, password })
        },
    }
}

/// An announced file must be there.
pub fn check_present(filename: &str, is_file: bool) -> (r: Result<(), PushError>)
    ensures
        r is Ok <==> is_file,
        r matches Err(e) ==> e@ == PushErrorView::Missing(filename@),
{
    if is_file {
        Ok(())
    } else {
        Err(PushError::Missing(filename.to_owned()))
    }
}

} // verus!

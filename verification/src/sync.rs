//! The response synchronizer.  One request is answered on exactly one of
//! two FIFOs: the out FIFO carries the payload and ends with the sentinel
//! token, the err FIFO carries the editor's diagnostic and is closed by the
//! catch branch.  The launcher's own exit status is checked independently
//! and wins when it is non-zero.  This module holds the sentinel detection
//! and stripping, the exit-status classification, and the race between the
//! two channels as a first-event-wins state machine.

use vstd::pervasive::unreached;
use vstd::prelude::*;
use vstd::string::StrSliceExecFns;
use vstd::string::StringExecFns;

use crate::error::Error;

verus! {

/// The sentinel appended to every piped request's output.
pub open spec fn end_token() -> Seq<char> {
    "<<EEND>>"@
}

/// Whether the accumulated output is complete: it ends with the sentinel.
/// The sentinel is eight characters long.
pub open spec fn has_sentinel(s: Seq<char>) -> bool {
    s.len() >= 8 && s.subrange(s.len() - 8, s.len() as int) == end_token()
}

/// The output with every trailing sentinel removed.
pub open spec fn stripped(s: Seq<char>) -> Seq<char>
    decreases s.len(),
{
    if has_sentinel(s) {
        stripped(s.subrange(0, s.len() - 8))
    } else {
        s
    }
}

/// Whether the reader has seen the whole response: the buffer ends with the
/// sentinel token.
pub fn sentinel_complete(s: &str) -> (r: bool)
    ensures
        r == has_sentinel(s@),
{
    proof {
        reveal_strlit("<<EEND>>");
    }
    let tok = "<<EEND>>";
    let m = tok.unicode_len();
    let n = s.unicode_len();
    if n < m {
        return false;
    }
    let mut j: usize = 0;
    while j < m
        invariant
            m == end_token().len(),
            m == 8,
            n == s@.len(),
            n >= m,
            tok@ == end_token(),
            j <= m,
            forall|k: int| 0 <= k < j ==> s@[n - 8 + k] == end_token()[k],
        decreases m - j,
    {
        if s.get_char(n - m + j) != tok.get_char(j) {
            proof {
                assert(s@.subrange(s@.len() - 8, s@.len() as int)[j as int] != end_token()[j as int]);
            }
            return false;
        }
        j = j + 1;
    }
    proof {
        assert(s@.subrange(s@.len() - 8, s@.len() as int) =~= end_token());
    }
    true
}

/// Removes the trailing sentinel, and any repetition of it, from a complete
/// response.
pub fn strip_sentinel(s: &str) -> (r: String)
    ensures
        r@ == stripped(s@),
{
    let mut cur = String::from_str(s);
    while sentinel_complete(cur.as_str())
        invariant
            stripped(cur@) == stripped(s@),
        decreases cur@.len(),
    {
        let n = cur.as_str().unicode_len();
        let head = cur.as_str().substring_char(0, n - 8);
        cur = String::from_str(head);
    }
    cur
}

/// A complete response stripped of its sentinel ends with no sentinel.
pub proof fn lemma_stripped_has_no_sentinel(s: Seq<char>)
    ensures
        !has_sentinel(stripped(s)),
    decreases s.len(),
{
    if has_sentinel(s) {
        lemma_stripped_has_no_sentinel(s.subrange(0, s.len() - 8));
    }
}

/// How the editor process ended: with an exit code, or killed by a signal.
#[derive(Debug, Clone, Copy, PartialEq, Eq)]
pub enum ExitKind {
    Code(i32),
    Signal,
}

/// Classifies the launcher's exit status: a clean exit passes, a non-zero
/// code carries that code, a signal is an opaque fatal error.
pub fn check_status(status: ExitKind) -> (r: Result<(), Error>)
    ensures
        status matches ExitKind::Code(c) ==> ((c == 0 ==> r is Ok) && (c != 0 ==> (r matches Err(e)
            && e matches Error::KakUnexpectedExit(rc) && rc == c))),
        status is Signal ==> (r matches Err(e) && e matches Error::Other(m) && m@
            == "kak terminated by signal"@),
{
    match status {
        ExitKind::Code(c) => {
            if c == 0 {
                Ok(())
            } else {
                Err(Error::KakUnexpectedExit(c))
            }
        },
        ExitKind::Signal => {
            let mut m = String::new();
            m.append("kak terminated by signal");
            Err(Error::Other(m))
        },
    }
}

/// The first event one of the two reader threads reports: the out FIFO
/// completed with this payload (sentinel already stripped), or the err FIFO
/// closed with this diagnostic.
#[derive(Debug, Clone, PartialEq, Eq)]
pub enum FifoEvent {
    OutReady(String),
    ErrReady(String),
}

/// The shape of a request's report, payloads aside.
#[derive(Debug, Clone, Copy, PartialEq, Eq)]
pub enum Report {
    Success,
    ScriptError,
    ProcessError,
}

/// What a finished request reports, given the channel that won the race and
/// the launcher's exit status: a non-zero or signalled exit is a process
/// error whatever the FIFOs carried; under a clean exit the out channel
/// means success and the err channel a script error.
pub open spec fn report_of(first: FifoEvent, status: ExitKind) -> Report {
    match status {
        ExitKind::Code(c) => if c != 0 {
            Report::ProcessError
        } else {
            match first {
                FifoEvent::OutReady(_) => Report::Success,
                FifoEvent::ErrReady(_) => Report::ScriptError,
            }
        },
        ExitKind::Signal => Report::ProcessError,
    }
}

/// The race between the two reader threads: the first event decides, any
/// later event is drained and discarded.
#[derive(Debug, Clone)]
pub struct Race {
    first: Option<FifoEvent>,
}

impl Race {
    /// The event that won, if one arrived yet.
    pub closed spec fn spec_first(&self) -> Option<FifoEvent> {
        self.first
    }

    /// A race with no event yet.
    pub fn new() -> (r: Race)
        ensures
            r.spec_first() is None,
    {
        Race { first: None }
    }

    /// Whether an event arrived.
    pub fn is_decided(&self) -> (r: bool)
        ensures
            r == (self.spec_first() is Some),
    {
        self.first.is_some()
    }

    /// Records one event: the first one decides the race, every later one
    /// leaves it unchanged.
    pub fn on_event(&mut self, e: FifoEvent)
        ensures
            old(self).spec_first() is None ==> final(self).spec_first() == Some(e),
            old(self).spec_first() is Some ==> final(self).spec_first() == old(self).spec_first(),
    {
        if self.first.is_none() {
            self.first = Some(e);
        }
    }

    /// Resolves the request: the exit status is checked first and wins when
    /// it is not a clean exit; otherwise the winning channel's payload is
    /// the report.
    pub fn outcome(self, status: ExitKind) -> (r: Result<String, Error>)
        requires
            self.spec_first() is Some,
        ensures
            r is Ok <==> report_of(self.spec_first()->Some_0, status) is Success,
            status matches ExitKind::Code(c) ==> ((c != 0 ==> (r matches Err(e) && e matches
                Error::KakUnexpectedExit(rc) && rc == c)) && (c == 0 ==> match self.spec_first()
                ->Some_0 {
                FifoEvent::OutReady(s) => r matches Ok(p) && p@ == s@,
                FifoEvent::ErrReady(t) => (r matches Err(e) && e matches Error::KakEvalCatch(m) && m@
                    == t@),
            })),
            status is Signal ==> (r matches Err(e) && e matches Error::Other(m) && m@
                == "kak terminated by signal"@),
    {
        match check_status(status) {
            Err(e) => Err(e),
            Ok(()) => match self.first {
                Some(FifoEvent::OutReady(s)) => Ok(s),
                Some(FifoEvent::ErrReady(t)) => Err(Error::KakEvalCatch(t)),
                None => unreached(),
            },
        }
    }
}

/// Under a clean exit, a decided request reports success exactly when the
/// out channel won the race and a script error exactly when the err channel
/// won: one of the two always, never both.
pub proof fn lemma_exactly_one_channel(first: FifoEvent)
    ensures
        report_of(first, ExitKind::Code(0)) is Success <==> first is OutReady,
        report_of(first, ExitKind::Code(0)) is ScriptError <==> first is ErrReady,
        report_of(first, ExitKind::Code(0)) is Success <==> !(report_of(first, ExitKind::Code(0))
            is ScriptError),
{
}

} // verus!

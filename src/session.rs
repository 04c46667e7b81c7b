//! The handshake of one connection, as a state machine over inbound commands.
//!
//! The driver sends our `version` on connecting, then asks [`HandshakeSession::next_step`]
//! what to do, reads one frame when told to, hands its command to
//! [`HandshakeSession::on_message`] and sends the reply it gets back.
use vstd::prelude::*;
use crate::error::HandshakeError;

verus! {

/// What to send back after an inbound frame.
#[derive(Debug, Clone, Copy, PartialEq, Eq, Structural)]
pub enum Reply {
    Nothing,
    Verack,
    Wtxidrelay,
}

/// What the driver does next.
#[derive(Debug, Clone, Copy, PartialEq, Eq, Structural)]
pub enum Step {
    /// Read one more frame.
    ReadFrame,
    /// Both sides are ready: the handshake succeeded.
    Done,
    /// The attempt is over and failed.
    Fail(HandshakeError),
}

/// Progress of one handshake.
#[derive(Debug, Clone, Copy, PartialEq, Eq, Structural)]
pub struct HandshakeSession {
    pub received_version: bool,
    pub received_verack: bool,
}

impl HandshakeSession {
    /// Neither the peer's `version` nor its `verack` has arrived yet.
    pub fn new() -> (r: HandshakeSession)
        ensures
            r == initial_session(),
    {
        HandshakeSession { received_version: false, received_verack: false }
    }

    pub open spec fn spec_is_complete(self) -> bool {
        self.received_version && self.received_verack
    }

    /// Whether both the peer's `version` and its `verack` have arrived.
    pub fn is_complete(&self) -> (r: bool)
        ensures
            r == self.spec_is_complete(),
    {
        self.received_version && self.received_verack
    }

    /// The session after an inbound frame with command `c`, and our reply.
    pub open spec fn after(self, c: Seq<char>) -> (HandshakeSession, Reply) {
        if c == "version"@ {
            if self.received_version {
                (self, Reply::Nothing)
            } else {
                (HandshakeSession { received_version: true, ..self }, Reply::Verack)
            }
        } else if c == "verack"@ {
            (HandshakeSession { received_verack: true, ..self }, Reply::Nothing)
        } else if c == "wtxidrelay"@ {
            (self, Reply::Wtxidrelay)
        } else {
            (self, Reply::Nothing)
        }
    }

    /// The session after inbound frames with the commands `cs`, in order.
    pub open spec fn after_all(self, cs: Seq<Seq<char>>) -> HandshakeSession
        decreases cs.len(),
    {
        if cs.len() == 0 {
            self
        } else {
            self.after(cs[0]).0.after_all(cs.drop_first())
        }
    }

    /// Takes in one inbound frame's command: `version` is acknowledged the
    /// first time only, `verack` is noted, `wtxidrelay` is answered in kind
    /// each time, and anything else is ignored.
    pub fn on_message(&mut self, command: &String) -> (r: Reply)
        ensures
            (*final(self), r) == old(self).after(command@),
    {
        if *command == String::from_str("version") {
            if self.received_version {
                Reply::Nothing
            } else {
                self.received_version = true;
                Reply::Verack
            }
        } else if *command == String::from_str("verack") {
            self.received_verack = true;
            Reply::Nothing
        } else if *command == String::from_str("wtxidrelay") {
            Reply::Wtxidrelay
        } else {
            Reply::Nothing
        }
    }

    pub open spec fn spec_next_step(self, deadline_passed: bool) -> Step {
        if self.spec_is_complete() {
            Step::Done
        } else if deadline_passed {
            Step::Fail(HandshakeError::HandshakeTimeout)
        } else {
            Step::ReadFrame
        }
    }

    /// Done as soon as both flags are set; a timeout once the handshake
    /// deadline has passed without that; otherwise read another frame.
    pub fn next_step(&self, deadline_passed: bool) -> (r: Step)
        ensures
            r == self.spec_next_step(deadline_passed),
    {
        if self.is_complete() {
            Step::Done
        } else if deadline_passed {
            Step::Fail(HandshakeError::HandshakeTimeout)
        } else {
            Step::ReadFrame
        }
    }
}

/// A session in which nothing has arrived yet.
pub open spec fn initial_session() -> HandshakeSession {
    HandshakeSession { received_version: false, received_verack: false }
}

proof fn lemma_contains_first_or_rest(cs: Seq<Seq<char>>, x: Seq<char>)
    requires
        cs.len() > 0,
    ensures
        cs.contains(x) == (cs[0] == x || cs.drop_first().contains(x)),
{
    let rest = cs.drop_first();
    if cs.contains(x) {
        let k = choose|k: int| 0 <= k < cs.len() && cs[k] == x;
        if k > 0 {
            assert(rest[k - 1] == x);
        }
    }
    if rest.contains(x) {
        let k = choose|k: int| 0 <= k < rest.len() && rest[k] == x;
        assert(cs[k + 1] == x);
    }
}

/// After any run of inbound commands, `version` counts as received exactly
/// when it had been before or occurs in the run, and likewise `verack`.
pub proof fn lemma_flags_after_all(s: HandshakeSession, cs: Seq<Seq<char>>)
    ensures
        s.after_all(cs).received_version == (s.received_version || cs.contains("version"@)),
        s.after_all(cs).received_verack == (s.received_verack || cs.contains("verack"@)),
    decreases cs.len(),
{
    reveal_strlit("version");
    reveal_strlit("verack");
    reveal_strlit("wtxidrelay");
    assert("version"@.len() != "verack"@.len());
    if cs.len() > 0 {
        let rest = cs.drop_first();
        lemma_flags_after_all(s.after(cs[0]).0, rest);
        lemma_contains_first_or_rest(cs, "version"@);
        lemma_contains_first_or_rest(cs, "verack"@);
    }
}

/// Completion does not depend on arrival order: a fresh session that is
/// handed any run of commands containing both `version` and `verack`, in
/// either order and among any others, is complete.
pub proof fn lemma_complete_in_any_order(cs: Seq<Seq<char>>)
    requires
        cs.contains("version"@),
        cs.contains("verack"@),
    ensures
initial_session().after_all(cs).spec_is_complete(),
initial_session().after_all(cs).spec_next_step(true) == Step::Done,
{
    lemma_flags_after_all(initial_session(), cs);
}

/// Timeout: a fresh session that has been handed commands without `version`
/// or without `verack` fails with a handshake timeout once the deadline has
/// passed, and asks for no further read.
pub proof fn lemma_timeout_without_both(cs: Seq<Seq<char>>)
    requires
        !cs.contains("version"@) || !cs.contains("verack"@),
    ensures
initial_session().after_all(cs).spec_next_step(true) == Step::Fail(HandshakeError::HandshakeTimeout),
{
    lemma_flags_after_all(initial_session(), cs);
}

/// How many acknowledgements a session sends while handed the commands `cs`.
pub open spec fn verack_replies(s: HandshakeSession, cs: Seq<Seq<char>>) -> nat
    decreases cs.len(),
{
    if cs.len() == 0 {
        0
    } else {
        let (next, reply) = s.after(cs[0]);
        (if reply == Reply::Verack { 1nat } else { 0nat }) + verack_replies(next, cs.drop_first())
    }
}

/// The peer's `version` is acknowledged exactly once, however often it is
/// repeated: a fresh session sends one acknowledgement over a run of commands
/// that contains `version`, and none over one that does not.
pub proof fn lemma_verack_sent_once(s: HandshakeSession, cs: Seq<Seq<char>>)
    ensures
        verack_replies(s, cs) == (if !s.received_version && cs.contains("version"@) {
            1nat
        } else {
            0nat
        }),
    decreases cs.len(),
{
    reveal_strlit("version");
    reveal_strlit("verack");
    reveal_strlit("wtxidrelay");
    if cs.len() > 0 {
        let rest = cs.drop_first();
        let (next, reply) = s.after(cs[0]);
        lemma_verack_sent_once(next, rest);
        lemma_contains_first_or_rest(cs, "version"@);
    }
}

} // verus!

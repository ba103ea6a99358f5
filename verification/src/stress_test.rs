//! The stress test that writes cells into a notebook: its arguments, and
//! what the notebook worker does with the server's answer to an operation.
use crate::fields::{
    has_key, insert_spec, key_index, lemma_insert_unique, lemma_key_index, lemma_remove_unique, lookup,
    remove_spec, unique_keys,
};
use crate::text::{chars_eq, chars_of};
use vstd::prelude::*;

verus! {

/// Where the stress test connects and which notebook it writes to.
#[derive(Clone)]
pub struct ExecuteArguments {
    pub base_url: String,
    pub config: Option<String>,
    pub notebook_id: String,
}

impl ExecuteArguments {
    /// Arguments with the given fields.
    pub fn new(base_url: String, config: Option<String>, notebook_id: String) -> (a: Self)
        ensures
            a.base_url@ == base_url@,
            a.config == config,
            a.notebook_id@ == notebook_id@,
    {
        ExecuteArguments { base_url, config, notebook_id }
    }
}

/// How many times the worker sends an operation before giving up.
pub const SEND_ATTEMPTS: u32 = 3;

/// What the worker does once the server answered a sent operation.
#[derive(Debug, Clone, Copy, PartialEq, Eq, Structural)]
pub enum SendAction {
    /// Send the operation again, with the next revision and a new id.
    Resend,
    /// Hand the answer (or the error of the send) to the caller.
    Deliver,
    /// Fail: the operation was rejected on every attempt.
    GiveUp,
}

/// The action after the `attempt`-th send (counting from 1).
pub open spec fn send_action_spec(attempt: u32, rejected: bool) -> SendAction {
    if !rejected {
        SendAction::Deliver
    } else if attempt < SEND_ATTEMPTS {
        SendAction::Resend
    } else {
        SendAction::GiveUp
    }
}

/// Decides what the worker does after the `attempt`-th send of an
/// operation: an answer other than a rejection (an error of the send
/// included) goes to the caller; a rejection is retried, up to
/// `SEND_ATTEMPTS` sends in all, after which the worker gives up.
pub fn after_send(attempt: u32, rejected: bool) -> (a: SendAction)
    requires
        1 <= attempt <= SEND_ATTEMPTS,
    ensures
        a == send_action_spec(attempt, rejected),
{
    if !rejected {
        SendAction::Deliver
    } else if attempt < SEND_ATTEMPTS {
        SendAction::Resend
    } else {
        SendAction::GiveUp
    }
}

/// The number of sends when the server answers the successive sends with
/// `rejections` (whether each was a rejection), and how the worker ends.
pub open spec fn send_run(rejections: Seq<bool>, attempt: u32) -> (nat, SendAction)
    decreases SEND_ATTEMPTS - attempt,
{
    if attempt < 1 || attempt > SEND_ATTEMPTS || rejections.len() < attempt {
        (0, SendAction::Deliver)
    } else {
        match send_action_spec(attempt, rejections[attempt - 1]) {
            SendAction::Resend => {
                let (n, end) = send_run(rejections, (attempt + 1) as u32);
                (n + 1, end)
            },
            a => (1, a),
        }
    }
}

/// An operation is sent at most `SEND_ATTEMPTS` times, and the worker
/// gives up exactly when every one of those sends was rejected.
pub proof fn law_bounded_retries(rejections: Seq<bool>)
    requires
        rejections.len() >= SEND_ATTEMPTS,
    ensures
        send_run(rejections, 1).0 <= SEND_ATTEMPTS,
        send_run(rejections, 1).1 == SendAction::GiveUp <==> (forall|i: int|
            0 <= i < SEND_ATTEMPTS ==> #[trigger] rejections[i]),
{
    assert(send_run(rejections, 3) == (1nat, send_action_spec(3, rejections[2])));
    assert(send_run(rejections, 2).0 <= 2);
}

/// The message that opens a realtime session: it carries the operation id
/// `auth` and the bearer token.
pub struct AuthenticateMessage {
    pub op_id: String,
    pub token: String,
}

/// Why a realtime session cannot be opened.
#[derive(Debug, Clone, Copy, PartialEq, Eq, Structural)]
pub enum SessionError {
    /// The configuration holds no bearer token.
    MissingBearerToken,
}

/// The first message of a realtime session, authenticating with `bearer`;
/// an error without a token.
pub fn authenticate_message(bearer: Option<String>) -> (r: Result<AuthenticateMessage, SessionError>)
    ensures
        match bearer {
            Some(t) => r matches Ok(m) && m.op_id@ == "auth"@ && m.token@ == t@,
            None => r matches Err(SessionError::MissingBearerToken),
        },
{
    match bearer {
        Some(token) => Ok(AuthenticateMessage { op_id: String::from_str("auth"), token }),
        None => Err(SessionError::MissingBearerToken),
    }
}

/// Who waits for the server's reply to each operation sent, by operation
/// id: one waiter per id.
pub struct ReplyWaiters<W> {
    waiters: Vec<(String, W)>,
}

impl<W> View for ReplyWaiters<W> {
    type V = Seq<(Seq<char>, W)>;

    closed spec fn view(&self) -> Seq<(Seq<char>, W)> {
        self.waiters@.map_values(|e: (String, W)| (e.0@, e.1))
    }
}

impl<W> ReplyWaiters<W> {
    /// No id occurs twice.
    pub open spec fn wf(&self) -> bool {
        unique_keys(self@)
    }

    /// Nobody waits.
    pub fn new() -> (r: Self)
        ensures
            r.wf(),
            r@ == Seq::<(Seq<char>, W)>::empty(),
    {
        let r = ReplyWaiters { waiters: Vec::new() };
        assert(r@ =~= Seq::<(Seq<char>, W)>::empty());
        r
    }

    fn find(&self, op_id: &str) -> (r: Option<usize>)
        requires
            self.wf(),
        ensures
            match r {
                Some(i) => has_key(self@, op_id@) && key_index(self@, op_id@) == i && i < self@.len(),
                None => !has_key(self@, op_id@),
            },
    {
        let k = chars_of(op_id);
        let mut i: usize = 0;
        while i < self.waiters.len()
            invariant
                i <= self@.len(),
                self@.len() == self.waiters@.len(),
                k@ == op_id@,
                unique_keys(self@),
                forall|j: int| 0 <= j < i ==> self@[j].0 != op_id@,
            decreases self@.len() - i,
        {
            if chars_eq(&chars_of(self.waiters[i].0.as_str()), &k) {
                proof {
                    lemma_key_index(self@, op_id@, i as int);
                }
                return Some(i);
            }
            i = i + 1;
        }
        None
    }

    /// Registers `waiter` for the reply to the operation `op_id`, in place of
    /// any earlier waiter for that id.
    pub fn register(&mut self, op_id: String, waiter: W)
        requires
            old(self).wf(),
        ensures
            final(self).wf(),
            final(self)@ == insert_spec(old(self)@, op_id@, waiter),
    {
        proof {
            lemma_insert_unique(self@, op_id@, waiter);
        }
        let ghost k = op_id@;
        match self.find(op_id.as_str()) {
            Some(i) => {
                self.waiters.set(i, (op_id, waiter));
                assert(self@ =~= insert_spec(old(self)@, k, waiter));
            },
            None => {
                self.waiters.push((op_id, waiter));
                assert(self@ =~= insert_spec(old(self)@, k, waiter));
            },
        }
    }

    /// Takes out the waiter for the reply to `op_id`, if anybody waits for
    /// it: a reply goes to its waiter once.
    pub fn take(&mut self, op_id: &str) -> (r: Option<W>)
        requires
            old(self).wf(),
        ensures
            final(self).wf(),
            r == lookup(old(self)@, op_id@),
            final(self)@ == remove_spec(old(self)@, op_id@),
    {
        proof {
            lemma_remove_unique(self@, op_id@);
        }
        match self.find(op_id) {
            Some(i) => {
                let (_, w) = self.waiters.remove(i);
                assert(self@ =~= remove_spec(old(self)@, op_id@));
                Some(w)
            },
            None => None,
        }
    }
}

/// A reply goes to the waiter registered for its operation, and only once:
/// after registering `w` for `op_id`, taking `op_id` gives `w`, and taking
/// it again gives nothing.
pub proof fn law_reply_reaches_its_waiter<W>(waiters: Seq<(Seq<char>, W)>, op_id: Seq<char>, w: W)
    requires
        unique_keys(waiters),
    ensures
        lookup(insert_spec(waiters, op_id, w), op_id) == Some(w),
        lookup(remove_spec(insert_spec(waiters, op_id, w), op_id), op_id) is None,
{
    lemma_insert_unique(waiters, op_id, w);
    lemma_remove_unique(insert_spec(waiters, op_id, w), op_id);
}

} // verus!

//! Synchronisation of the parameter store with the device: whole-set pull and
//! push, each retried as a whole, and the activation of the telemetry stream
//! after a push. Each operation is a state machine: it says which request to
//! send next, and takes the reply that came back.
use vstd::prelude::*;
use vstd::string::StringExecFns;
use vstd::utf8::encode_utf8;
use crate::config::{is_first_index, position_of, texts, ConfigError, ConfigView, DeviceConfig};
use crate::session::SessionError;
use crate::text::{
    contains_bytes, contains_run, decimal_chars, decimal_text, parse_u8, parsed_u8, trim_blanks,
    trim_range,
};

verus! {

/// How many times a whole pull or push, and the stream activation, are tried.
pub const REQUEST_ATTEMPTS: u8 = 5;

/// How the device reports telemetry.
#[derive(Debug, Clone, Copy, PartialEq, Eq, Structural)]
pub enum StreamingMode {
    /// No reports.
    SilentMode,
    /// A report whenever the data change.
    OnChangeMode,
    /// A report at the period set on the device.
    PeriodicMode,
    /// A report when asked for.
    OnDemandMode,
}

impl StreamingMode {
    pub open spec fn spec_code(&self) -> u8 {
        match self {
            StreamingMode::SilentMode => 0,
            StreamingMode::OnChangeMode => 1,
            StreamingMode::PeriodicMode => 2,
            StreamingMode::OnDemandMode => 3,
        }
    }

    /// The number that selects the mode on the wire.
    #[verifier::when_used_as_spec(spec_code)]
    pub fn code(&self) -> (r: u8)
        ensures
            r == self.spec_code(),
    {
        match self {
            StreamingMode::SilentMode => 0,
            StreamingMode::OnChangeMode => 1,
            StreamingMode::PeriodicMode => 2,
            StreamingMode::OnDemandMode => 3,
        }
    }
}

/// Errors of the synchronisation.
#[derive(Debug, Clone, Copy, PartialEq, Eq, Structural)]
pub enum SyncError {
    Session(SessionError),
    Config(ConfigError),
    /// A reply is not of the form `<name>: <value>` for the name asked about.
    MalformedResponse,
    /// The value of a reply is not an 8-bit index.
    ConfigValueError,
    PullFailed,
    PushFailed,
    StreamStartFailed,
}

/// The index that a reply to `get <name>` carries: the reply holds exactly
/// one colon, the name before it, and a decimal 8-bit number after it, with
/// white space around the number.
pub open spec fn reply_value(name: Seq<u8>, reply: Seq<u8>) -> Result<u8, SyncError> {
    let p = position_of(reply, 0x3Au8);
    let rest = reply.subrange(p + 1, reply.len() as int);
    if p < 0 || position_of(rest, 0x3Au8) >= 0 || reply.subrange(0, p) != name {
        Err(SyncError::MalformedResponse)
    } else {
        match parsed_u8(trim_blanks(rest)) {
            Some(v) => Ok(v),
            None => Err(SyncError::ConfigValueError),
        }
    }
}

/// The first position of byte `b` in `s`.
fn find_byte(s: &[u8], b: u8) -> (r: Option<usize>)
    ensures
        match r {
            Some(i) => position_of(s@, b) == i as int,
            None => position_of(s@, b) == -1,
        },
{
    let mut i: usize = 0;
    while i < s.len()
        invariant
            i <= s@.len(),
            forall|j: int| 0 <= j < i ==> s@[j] != b,
        decreases s@.len() - i,
    {
        if s[i] == b {
            proof {
                crate::config::lemma_position_of(s@, b, i as int);
            }
            return Some(i);
        }
        i = i + 1;
    }
    None
}

/// Reads the index out of the reply to `get <parameter_name>`.
pub fn extract_parameter_value(parameter_name: &str, response_from_mcu: String) -> (r: Result<
    u8,
    SyncError,
>)
    ensures
        r == reply_value(encode_utf8(parameter_name@), encode_utf8(response_from_mcu@)),
{
    let reply = response_from_mcu.as_str().as_bytes();
    let name = parameter_name.as_bytes();
    let ghost rv = reply@;
    let p = match find_byte(reply, 0x3A) {
        Some(p) => p,
        None => {
            return Err(SyncError::MalformedResponse);
        },
    };
    assert(is_first_index(rv, 0x3Au8, p as int));
    let n = reply.len();
    assert(p < n);
    let rest = &reply[p + 1..n];
    assert(rest@ == rv.subrange(p + 1, rv.len() as int));
    if find_byte(rest, 0x3A).is_some() {
        return Err(SyncError::MalformedResponse);
    }
    let head = &reply[0..p];
    if !crate::session::bytes_equal(head, name) {
        return Err(SyncError::MalformedResponse);
    }
    let (a, b) = trim_range(rest);
    let value = &rest[a..b];
    match parse_u8(value) {
        Some(v) => Ok(v),
        None => Err(SyncError::ConfigValueError),
    }
}

/// `get <name>`
pub open spec fn pull_request_text(name: Seq<char>) -> Seq<char> {
    seq!['g', 'e', 't', ' '] + name
}

/// `set <name> <index>`
pub open spec fn push_request_text(name: Seq<char>, index: u8) -> Seq<char> {
    seq!['s', 'e', 't', ' '] + name + seq![' '] + decimal_chars(index as nat)
}

/// `<name>: <index>`, which the reply to a push must hold.
pub open spec fn push_confirmation(name: Seq<char>, index: u8) -> Seq<char> {
    name + seq![':', ' '] + decimal_chars(index as nat)
}

/// `set mode <code>`
pub open spec fn stream_request_text(code: u8) -> Seq<char> {
    seq!['s', 'e', 't', ' ', 'm', 'o', 'd', 'e', ' '] + decimal_chars(code as nat)
}

/// `mode: <code>`, which the reply to a stream activation must hold.
pub open spec fn stream_confirmation(code: u8) -> Seq<char> {
    seq!['m', 'o', 'd', 'e', ':', ' '] + decimal_chars(code as nat)
}

/// Whether the text of `reply` holds the text `expected`.
pub open spec fn confirms(reply: Seq<char>, expected: Seq<char>) -> bool {
    contains_run(encode_utf8(reply), encode_utf8(expected))
}

pub fn pull_request(name: &str) -> (r: String)
    ensures
        r@ == pull_request_text(name@),
{
    proof {
        reveal_strlit("get ");
    }
    let mut r = String::from_str("get ");
    r.append(name);
    assert(r@ =~= pull_request_text(name@));
    r
}

pub fn push_request(name: &str, index: u8) -> (r: String)
    ensures
        r@ == push_request_text(name@, index),
{
    proof {
        reveal_strlit("set ");
        reveal_strlit(" ");
    }
    let mut r = String::from_str("set ");
    r.append(name);
    r.append(" ");
    let digits = decimal_text(index);
    r.append(digits.as_str());
    assert(r@ =~= push_request_text(name@, index));
    r
}

pub fn push_confirmation_text(name: &str, index: u8) -> (r: String)
    ensures
        r@ == push_confirmation(name@, index),
{
    proof {
        reveal_strlit(": ");
    }
    let mut r = String::from_str(name);
    r.append(": ");
    let digits = decimal_text(index);
    r.append(digits.as_str());
    assert(r@ =~= push_confirmation(name@, index));
    r
}

pub fn stream_request(code: u8) -> (r: String)
    ensures
        r@ == stream_request_text(code),
{
    proof {
        reveal_strlit("set mode ");
    }
    let mut r = String::from_str("set mode ");
    let digits = decimal_text(code);
    r.append(digits.as_str());
    assert(r@ =~= stream_request_text(code));
    r
}

pub fn stream_confirmation_text(code: u8) -> (r: String)
    ensures
        r@ == stream_confirmation(code),
{
    proof {
        reveal_strlit("mode: ");
    }
    let mut r = String::from_str("mode: ");
    let digits = decimal_text(code);
    r.append(digits.as_str());
    assert(r@ =~= stream_confirmation(code));
    r
}

/// Whether the text `reply` holds the text `expected`.
pub fn reply_confirms(reply: &str, expected: &str) -> (r: bool)
    ensures
        r == confirms(reply@, expected@),
{
    contains_bytes(reply.as_bytes(), expected.as_bytes())
}

/// Where an operation stands.
#[derive(Debug, Clone, Copy, PartialEq, Eq, Structural)]
pub enum Phase {
    /// Exchanging requests about the parameters.
    Exchange,
    /// Every parameter was pulled: the store is to be saved.
    Persist,
    /// Every parameter was pushed: the telemetry stream is to be started.
    Stream,
    Finished,
    Failed,
}

/// What the driver of an operation is to do next.
#[derive(Debug)]
pub enum SyncAction {
    /// Send this request and hand back the reply.
    Send(String),
    /// Save the store and say whether that worked.
    Persist,
    /// The operation succeeded.
    Finished,
    /// The operation gave up.
    Failed(SyncError),
}

/// The text of a reply, where there is one.
pub open spec fn reply_text(reply: Result<String, SessionError>) -> Option<Seq<char>> {
    match reply {
        Ok(s) => Some(s@),
        Err(_) => None,
    }
}

/// The store after the reply to `get <name>`, or `None` where the reply does
/// not carry an index of one of the parameter's legal values.
pub open spec fn pull_update(store: ConfigView, name: Seq<char>, reply: Seq<char>) -> Option<ConfigView> {
    match reply_value(encode_utf8(name), encode_utf8(reply)) {
        Ok(v) => if store.index_in_range(name, v as int) {
            Some(store.set_by_index(name, v as int))
        } else {
            None
        },
        Err(_) => None,
    }
}

/// The store after a whole pull attempt in which the request about `names[i]`
/// got the reply `replies[i]`; `None` where one of them fails.
pub open spec fn pull_all(store: ConfigView, names: Seq<Seq<char>>, replies: Seq<Seq<char>>) -> Option<ConfigView>
    decreases names.len(),
{
    if names.len() == 0 {
        Some(store)
    } else if replies.len() == 0 {
        None
    } else {
        match pull_update(store, names[0], replies[0]) {
            Some(next) => pull_all(next, names.drop_first(), replies.drop_first()),
            None => None,
        }
    }
}

/// Stores with the same names whose parameters differ at most in their
/// current values.
pub open spec fn same_shape(a: ConfigView, b: ConfigView) -> bool {
    &&& a.names == b.names
    &&& a.params.len() == b.params.len()
    &&& forall|i: int|
        0 <= i < a.params.len() ==> #[trigger] a.params[i].description == b.params[i].description
            && a.params[i].possible_values == b.params[i].possible_values
}

/// Some name of `names` stands at position `i` of `store`.
pub open spec fn touched(store: ConfigView, names: Seq<Seq<char>>, i: int) -> bool {
    exists|j: int| 0 <= j < names.len() && #[trigger] store.slot(names[j]) == i
}

proof fn lemma_pull_overwrites(
    s: ConfigView,
    t: ConfigView,
    names: Seq<Seq<char>>,
    replies: Seq<Seq<char>>,
)
    requires
        s.wf(),
        same_shape(s, t),
        pull_all(s, names, replies) is Some,
    ensures
        pull_all(t, names, replies) is Some,
        same_shape(s, pull_all(s, names, replies)->Some_0),
        pull_all(t, names, replies)->Some_0.names == t.names,
        pull_all(t, names, replies)->Some_0.params.len() == t.params.len(),
        forall|i: int|
            0 <= i < s.params.len() ==> {
                let s1 = pull_all(s, names, replies)->Some_0;
                let t1 = pull_all(t, names, replies)->Some_0;
                &&& (#[trigger] touched(s, names, i) ==> t1.params[i] == s1.params[i])
                &&& (!touched(s, names, i) ==> t1.params[i] == t.params[i] && s1.params[i]
                    == s.params[i])
            },
    decreases names.len(),
{
    if names.len() > 0 {
        let n0 = names[0];
        let v = reply_value(encode_utf8(n0), encode_utf8(replies[0]))->Ok_0;
        let k = s.slot(n0);
        assert(t.slot(n0) == k);
        let s2 = s.set_by_index(n0, v as int);
        let t2 = t.set_by_index(n0, v as int);
        assert(pull_update(s, n0, replies[0]) == Some(s2));
        assert(t.index_in_range(n0, v as int));
        assert(pull_update(t, n0, replies[0]) == Some(t2));
        let rest_n = names.drop_first();
        let rest_r = replies.drop_first();
        assert(same_shape(s2, t2));
        lemma_pull_overwrites(s2, t2, rest_n, rest_r);
        let s1 = pull_all(s, names, replies)->Some_0;
        let t1 = pull_all(t, names, replies)->Some_0;
        assert(s1 == pull_all(s2, rest_n, rest_r)->Some_0);
        assert(t1 == pull_all(t2, rest_n, rest_r)->Some_0);
        assert(same_shape(s, s2));
        assert forall|i: int| 0 <= i < s.params.len() implies #[trigger] s.params[i].description
            == s1.params[i].description && s.params[i].possible_values
            == s1.params[i].possible_values by {
            assert(s2.params[i].description == s1.params[i].description);
            assert(s.params[i].description == s2.params[i].description);
        }
        assert forall|i: int| 0 <= i < s.params.len() implies {
            &&& (#[trigger] touched(s, names, i) ==> t1.params[i] == s1.params[i])
            &&& (!touched(s, names, i) ==> t1.params[i] == t.params[i] && s1.params[i]
                == s.params[i])
        } by {
            if touched(s2, rest_n, i) {
                let j = choose|j: int| 0 <= j < rest_n.len() && #[trigger] s2.slot(rest_n[j]) == i;
                assert(s.slot(names[j + 1]) == i);
            } else if i == k {
                assert(s.slot(names[0]) == i);
            } else {
                if touched(s, names, i) {
                    let j = choose|j: int| 0 <= j < names.len() && #[trigger] s.slot(names[j]) == i;
                    assert(j != 0);
                    assert(s2.slot(rest_n[j - 1]) == i);
                }
            }
        }
    }
}

/// Idempotence: when a whole pull succeeds, pulling again against a device
/// that gives the same replies succeeds too and leaves the store as the first
/// pull left it.
pub proof fn lemma_pull_idempotent(
    store: ConfigView,
    names: Seq<Seq<char>>,
    replies: Seq<Seq<char>>,
)
    requires
        store.wf(),
        pull_all(store, names, replies) is Some,
    ensures
        pull_all(pull_all(store, names, replies)->Some_0, names, replies) == pull_all(
            store,
            names,
            replies,
        ),
{
    let s1 = pull_all(store, names, replies)->Some_0;
    lemma_pull_overwrites(store, store, names, replies);
    lemma_pull_overwrites(store, s1, names, replies);
    let t1 = pull_all(s1, names, replies)->Some_0;
    assert forall|i: int| 0 <= i < t1.params.len() implies t1.params[i] == s1.params[i] by {
        if touched(store, names, i) {
        }
    }
    assert(t1.params =~= s1.params);
}

/// Pull: asks the device for every parameter, sets each from the reply, and
/// has the store saved; any failure restarts the whole set, up to
/// `REQUEST_ATTEMPTS` attempts in all.
pub struct PullEngine {
    names: Vec<String>,
    attempt: u8,
    position: usize,
    phase: Phase,
}

impl PullEngine {
    pub closed spec fn names(&self) -> Seq<Seq<char>> {
        texts(self.names@)
    }

    /// The number of the attempt under way, from 1.
    pub closed spec fn attempt(&self) -> nat {
        self.attempt as nat
    }

    /// How many parameters of this attempt are done.
    pub closed spec fn position(&self) -> nat {
        self.position as nat
    }

    pub closed spec fn phase(&self) -> Phase {
        self.phase
    }

    pub open spec fn wf(&self) -> bool {
        &&& self.names().len() > 0
        &&& 1 <= self.attempt() <= REQUEST_ATTEMPTS
        &&& self.position() <= self.names().len()
        &&& (self.phase() == Phase::Exchange ==> self.position() < self.names().len())
        &&& self.phase() != Phase::Stream
    }

    /// What a failed attempt leads to: the next attempt from the first
    /// parameter, or failure after the last.
    pub open spec fn after_failure(&self, next: &Self) -> bool {
        &&& next.names() == self.names()
        &&& if self.attempt() >= REQUEST_ATTEMPTS {
            next.phase() == Phase::Failed && next.attempt() == self.attempt() && next.position()
                == self.position()
        } else {
            next.phase() == Phase::Exchange && next.attempt() == self.attempt() + 1
                && next.position() == 0
        }
    }

    /// A pull of every parameter of `store`, in its order.
    pub fn new(store: &DeviceConfig) -> (r: Result<PullEngine, SyncError>)
        ensures
            store@.names.len() == 0 ==> r == Err::<PullEngine, SyncError>(
                SyncError::Config(ConfigError::EmptyParameterList),
            ),
            store@.names.len() > 0 ==> r is Ok && r->Ok_0.wf() && r->Ok_0.names() == store@.names
                && r->Ok_0.attempt() == 1 && r->Ok_0.position() == 0 && r->Ok_0.phase()
                == Phase::Exchange,
    {
        match store.get_parameters_names() {
            Ok(names) => Ok(PullEngine { names, attempt: 1, position: 0, phase: Phase::Exchange }),
            Err(e) => Err(SyncError::Config(e)),
        }
    }

    pub fn next_action(&self) -> (r: SyncAction)
        requires
            self.wf(),
        ensures
            match self.phase() {
                Phase::Exchange => r is Send && r->Send_0@ == pull_request_text(
                    self.names()[self.position() as int],
                ),
                Phase::Persist => r is Persist,
                Phase::Finished => r is Finished,
                _ => r == SyncAction::Failed(SyncError::PullFailed),
            },
    {
        match self.phase {
            Phase::Exchange => SyncAction::Send(pull_request(self.names[self.position].as_str())),
            Phase::Persist => SyncAction::Persist,
            Phase::Finished => SyncAction::Finished,
            _ => SyncAction::Failed(SyncError::PullFailed),
        }
    }

    fn fail_attempt(&mut self)
        requires
            old(self).wf(),
        ensures
            old(self).after_failure(final(self)),
            final(self).wf(),
    {
        if self.attempt >= REQUEST_ATTEMPTS {
            self.phase = Phase::Failed;
        } else {
            self.attempt = self.attempt + 1;
            self.position = 0;
            self.phase = Phase::Exchange;
        }
    }

    /// Takes the reply to the current `get` request.
    pub fn on_reply(&mut self, store: &mut DeviceConfig, reply: Result<String, SessionError>)
        requires
            old(self).wf(),
            old(self).phase() == Phase::Exchange,
            old(store)@.wf(),
        ensures
            final(self).wf(),
            final(store)@.wf(),
            ({
                let name = old(self).names()[old(self).position() as int];
                let update = match reply_text(reply) {
                    Some(t) => pull_update(old(store)@, name, t),
                    None => None,
                };
                match update {
                    Some(s) => {
                        &&& final(store)@ == s
                        &&& final(self).names() == old(self).names()
                        &&& final(self).attempt() == old(self).attempt()
                        &&& final(self).position() == old(self).position() + 1
                        &&& final(self).phase() == if old(self).position() + 1 == old(
                            self,
                        ).names().len() {
                            Phase::Persist
                        } else {
                            Phase::Exchange
                        }
                    },
                    None => final(store)@ == old(store)@ && old(self).after_failure(final(self)),
                }
            }),
    {
        let ghost name = self.names()[self.position as int];
        let applied = match reply {
            Ok(text) => {
                let key = self.names[self.position].as_str();
                match extract_parameter_value(key, text) {
                    Ok(v) => store.set_parameter_value_using_index(key, v).is_ok(),
                    Err(_) => false,
                }
            },
            Err(_) => false,
        };
        if applied {
            let n = self.names.len();
            assert(self.position < n);
            self.position = self.position + 1;
            if self.position == self.names.len() {
                self.phase = Phase::Persist;
            }
        } else {
            self.fail_attempt();
        }
    }

    /// Takes the outcome of saving the store.
    pub fn on_persisted(&mut self, saved: bool)
        requires
            old(self).wf(),
            old(self).phase() == Phase::Persist,
        ensures
            final(self).wf(),
            saved ==> final(self).phase() == Phase::Finished && final(self).names() == old(
                self,
            ).names(),
            !saved ==> old(self).after_failure(final(self)),
    {
        if saved {
            self.phase = Phase::Finished;
        } else {
            self.fail_attempt();
        }
    }
}

/// Push: sends every parameter's current index and checks each echo; any
/// failure restarts the whole set, up to `REQUEST_ATTEMPTS` attempts in all.
/// Then the telemetry stream is started, with attempts of its own.
pub struct PushEngine {
    names: Vec<String>,
    mode: StreamingMode,
    attempt: u8,
    position: usize,
    pending: u8,
    stream_attempt: u8,
    phase: Phase,
    failure: SyncError,
}

impl PushEngine {
    pub closed spec fn names(&self) -> Seq<Seq<char>> {
        texts(self.names@)
    }

    /// The streaming mode started after the parameters.
    pub closed spec fn mode(&self) -> StreamingMode {
        self.mode
    }

    /// The number of the attempt under way at the parameters, from 1.
    pub closed spec fn attempt(&self) -> nat {
        self.attempt as nat
    }

    /// How many parameters of this attempt are done.
    pub closed spec fn position(&self) -> nat {
        self.position as nat
    }

    /// The index sent for the parameter under way.
    pub closed spec fn pending(&self) -> u8 {
        self.pending
    }

    /// The number of the attempt under way at starting the stream, from 1.
    pub closed spec fn stream_attempt(&self) -> nat {
        self.stream_attempt as nat
    }

    pub closed spec fn phase(&self) -> Phase {
        self.phase
    }

    /// Why the push gave up, once it has.
    pub closed spec fn failure(&self) -> SyncError {
        self.failure
    }

    pub open spec fn wf(&self) -> bool {
        &&& self.names().len() > 0
        &&& 1 <= self.attempt() <= REQUEST_ATTEMPTS
        &&& 1 <= self.stream_attempt() <= REQUEST_ATTEMPTS
        &&& self.position() <= self.names().len()
        &&& (self.phase() == Phase::Exchange ==> self.position() < self.names().len())
        &&& self.phase() != Phase::Persist
    }

    /// Everything but the parameter loop's counters stays.
    pub open spec fn same_setup(&self, next: &Self) -> bool {
        &&& next.names() == self.names()
        &&& next.mode() == self.mode()
    }

    /// A push of every parameter of `store`, in its order, then a start of the
    /// stream in `mode`.
    pub fn new(store: &DeviceConfig, mode: StreamingMode) -> (r: Result<PushEngine, SyncError>)
        ensures
            store@.names.len() == 0 ==> r == Err::<PushEngine, SyncError>(
                SyncError::Config(ConfigError::EmptyParameterList),
            ),
            store@.names.len() > 0 ==> r is Ok && r->Ok_0.wf() && r->Ok_0.names() == store@.names
                && r->Ok_0.mode() == mode && r->Ok_0.attempt() == 1 && r->Ok_0.position() == 0
                && r->Ok_0.stream_attempt() == 1 && r->Ok_0.phase() == Phase::Exchange,
    {
        match store.get_parameters_names() {
            Ok(names) => Ok(
                PushEngine {
                    names,
                    mode,
                    attempt: 1,
                    position: 0,
                    pending: 0,
                    stream_attempt: 1,
                    phase: Phase::Exchange,
                    failure: SyncError::PushFailed,
                },
            ),
            Err(e) => Err(SyncError::Config(e)),
        }
    }

    /// The next request, or the end of the push. A parameter whose current
    /// value is not among its legal values fails the attempt before anything is
    /// sent about it; the store does not change meanwhile, so where that
    /// happens at the first parameter every attempt left fails alike.
    pub fn next_action(&mut self, store: &DeviceConfig) -> (r: SyncAction)
        requires
            old(self).wf(),
            store@.wf(),
        ensures
            final(self).wf(),
            old(self).same_setup(final(self)),
            old(self).phase() == Phase::Exchange ==> ({
                let here = store@.value_index(old(self).names()[old(self).position() as int]);
                let first = store@.value_index(old(self).names()[0]);
                if here is Ok {
                    &&& r is Send
                    &&& r->Send_0@ == push_request_text(
                        old(self).names()[old(self).position() as int],
                        here->Ok_0,
                    )
                    &&& final(self).pending() == here->Ok_0
                    &&& final(self).phase() == Phase::Exchange
                    &&& final(self).position() == old(self).position()
                    &&& final(self).attempt() == old(self).attempt()
                } else if old(self).attempt() < REQUEST_ATTEMPTS && first is Ok {
                    &&& r is Send
                    &&& r->Send_0@ == push_request_text(old(self).names()[0], first->Ok_0)
                    &&& final(self).pending() == first->Ok_0
                    &&& final(self).phase() == Phase::Exchange
                    &&& final(self).position() == 0
                    &&& final(self).attempt() == old(self).attempt() + 1
                } else {
                    &&& r == SyncAction::Failed(SyncError::PushFailed)
                    &&& final(self).phase() == Phase::Failed
                    &&& final(self).failure() == SyncError::PushFailed
                }
            }),
            old(self).phase() == Phase::Stream ==> r is Send && r->Send_0@ == stream_request_text(
                old(self).mode().spec_code(),
            ) && *final(self) == *old(self),
            old(self).phase() == Phase::Finished ==> r is Finished && *final(self) == *old(self),
            old(self).phase() == Phase::Failed ==> r == SyncAction::Failed(old(self).failure())
                && *final(self) == *old(self),
    {
        match self.phase {
            Phase::Exchange => {
                match store.get_parameter_index_using_value(self.names[self.position].as_str()) {
                    Ok(index) => {
                        self.pending = index;
                        return SyncAction::Send(
                            push_request(self.names[self.position].as_str(), index),
                        );
                    },
                    Err(_) => {},
                }
                if self.attempt < REQUEST_ATTEMPTS {
                    match store.get_parameter_index_using_value(self.names[0].as_str()) {
                        Ok(index) => {
                            self.attempt = self.attempt + 1;
                            self.position = 0;
                            self.pending = index;
                            return SyncAction::Send(push_request(self.names[0].as_str(), index));
                        },
                        Err(_) => {},
                    }
                }
                self.attempt = REQUEST_ATTEMPTS;
                self.phase = Phase::Failed;
                self.failure = SyncError::PushFailed;
                SyncAction::Failed(SyncError::PushFailed)
            },
            Phase::Stream => SyncAction::Send(stream_request(self.mode.code())),
            Phase::Finished => SyncAction::Finished,
            _ => SyncAction::Failed(self.failure),
        }
    }

    /// Takes the reply to the request that `next_action` gave.
    pub fn on_reply(&mut self, reply: Result<String, SessionError>)
        requires
            old(self).wf(),
            old(self).phase() == Phase::Exchange || old(self).phase() == Phase::Stream,
        ensures
            final(self).wf(),
            old(self).same_setup(final(self)),
            old(self).phase() == Phase::Exchange ==> ({
                let name = old(self).names()[old(self).position() as int];
                let confirmed = match reply_text(reply) {
                    Some(t) => confirms(t, push_confirmation(name, old(self).pending())),
                    None => false,
                };
                if confirmed {
                    &&& final(self).attempt() == old(self).attempt()
                    &&& final(self).position() == old(self).position() + 1
                    &&& final(self).stream_attempt() == old(self).stream_attempt()
                    &&& final(self).phase() == if old(self).position() + 1 == old(
                        self,
                    ).names().len() {
                        Phase::Stream
                    } else {
                        Phase::Exchange
                    }
                } else if old(self).attempt() >= REQUEST_ATTEMPTS {
                    final(self).phase() == Phase::Failed && final(self).failure()
                        == SyncError::PushFailed
                } else {
                    &&& final(self).phase() == Phase::Exchange
                    &&& final(self).attempt() == old(self).attempt() + 1
                    &&& final(self).position() == 0
                    &&& final(self).stream_attempt() == old(self).stream_attempt()
                }
            }),
            old(self).phase() == Phase::Stream ==> ({
                let confirmed = match reply_text(reply) {
                    Some(t) => confirms(t, stream_confirmation(old(self).mode().spec_code())),
                    None => false,
                };
                if confirmed {
                    final(self).phase() == Phase::Finished
                } else if old(self).stream_attempt() >= REQUEST_ATTEMPTS {
                    final(self).phase() == Phase::Failed && final(self).failure()
                        == SyncError::StreamStartFailed
                } else {
                    final(self).phase() == Phase::Stream && final(self).stream_attempt() == old(
                        self,
                    ).stream_attempt() + 1
                }
            }),
    {
        if self.phase == Phase::Exchange {
            let confirmed = match &reply {
                Ok(text) => {
                    let expected = push_confirmation_text(
                        self.names[self.position].as_str(),
                        self.pending,
                    );
                    reply_confirms(text.as_str(), expected.as_str())
                },
                Err(_) => false,
            };
            if confirmed {
                let n = self.names.len();
                assert(self.position < n);
                self.position = self.position + 1;
                if self.position == n {
                    self.phase = Phase::Stream;
                }
            } else if self.attempt >= REQUEST_ATTEMPTS {
                self.phase = Phase::Failed;
                self.failure = SyncError::PushFailed;
            } else {
                self.attempt = self.attempt + 1;
                self.position = 0;
            }
        } else {
            let confirmed = match &reply {
                Ok(text) => {
                    let expected = stream_confirmation_text(self.mode.code());
                    reply_confirms(text.as_str(), expected.as_str())
                },
                Err(_) => false,
            };
            if confirmed {
                self.phase = Phase::Finished;
            } else if self.stream_attempt >= REQUEST_ATTEMPTS {
                self.phase = Phase::Failed;
                self.failure = SyncError::StreamStartFailed;
            } else {
                self.stream_attempt = self.stream_attempt + 1;
            }
        }
    }
}

} // verus!

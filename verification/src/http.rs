//! Requests to the registry: addresses, and what to do with a response.

use vstd::prelude::*;

use vstd::arithmetic::power2::{lemma2_to64, lemma_pow2_unfold, pow2};

use crate::error::{FreshnessError, FreshnessErrorView};
use crate::freshness::{is_name_char, valid_crate_name};
use crate::numeral::{decimal, decimal_text};
use crate::text::{contains_text, parts_are_contained};

verus! {

/// Max concurrent requests to crates.io (be respectful).
pub const MAX_CONCURRENT_REQUESTS: usize = 10;

/// Per-request timeout in seconds. Fail fast — a hanging API is as bad as a
/// down one.
pub const REQUEST_TIMEOUT_SECS: u64 = 30;

/// Connection timeout for the HTTP client, in seconds.
pub const CONNECT_TIMEOUT_SECS: u64 = 15;

/// Max retries after a response that may be a passing trouble.
pub const MAX_RETRIES: u32 = 5;

/// Initial backoff in seconds (doubles each retry).
pub const INITIAL_BACKOFF_SECS: u64 = 1;

/// Status code of a response that says that there were too many requests.
pub const TOO_MANY_REQUESTS: u16 = 429;

/// A status code of three digits.
#[derive(Debug, Clone, Copy)]
pub struct StatusCode {
    code: u16,
}

impl DeepView for StatusCode {
    type V = u16;

    closed spec fn deep_view(&self) -> u16 {
        self.code
    }
}

/// Status codes have three digits.
pub open spec fn is_status(code: u16) -> bool {
    100 <= code <= 999
}

/// The request was received and accepted.
pub open spec fn is_success(code: u16) -> bool {
    200 <= code < 300
}

/// The server failed.
pub open spec fn is_server_error(code: u16) -> bool {
    500 <= code < 600
}

/// Asking again later may help.
pub open spec fn is_retryable(code: u16) -> bool {
    code == TOO_MANY_REQUESTS || is_server_error(code)
}

/// How a status code is shown: the number and the phrase that goes with it.
pub uninterp spec fn status_text(code: u16) -> Seq<char>;

/// `<reqwest::StatusCode as Display>::fmt`, through `to_string`: the number, a
/// space and the phrase that goes with it. The phrase is named, not spelled
/// out.
#[verifier::external_body]
fn show_status(code: u16) -> (text: String)
    requires
        is_status(code),
    ensures
        text@ == status_text(code),
        (decimal(code as nat) + " "@).is_prefix_of(text@),
{
    reqwest::StatusCode::from_u16(code).unwrap().to_string()
}

impl StatusCode {
    #[verifier::type_invariant]
    closed spec fn has_three_digits(self) -> bool {
        is_status(self.code)
    }

    /// The status with the given code, if the code has three digits.
    pub fn new(code: u16) -> (status: Option<StatusCode>)
        ensures
            match status {
                Some(s) => is_status(code) && s.deep_view() == code,
                None => !is_status(code),
            },
    {
        if code < 100 || code > 999 {
            None
        } else {
            Some(StatusCode { code })
        }
    }

    /// The number.
    pub fn as_u16(&self) -> (code: u16)
        ensures
            code == self.deep_view(),
    {
        self.code
    }

    /// The number and the phrase that goes with it.
    pub fn to_string(&self) -> (text: String)
        ensures
            text@ == status_text(self.deep_view()),
            (decimal(self.deep_view() as nat) + " "@).is_prefix_of(text@),
    {
        proof {
            use_type_invariant(self);
        }
        show_status(self.code)
    }
}

/// How far a request has come: how often it was repeated, and how long to wait
/// before the next repetition.
#[derive(Debug, Clone, Copy)]
pub struct RetryState {
    attempt: u32,
    backoff_secs: u64,
}

/// Model of a [`RetryState`].
pub struct RetryStateView {
    pub attempt: nat,
    pub backoff_secs: nat,
}

impl DeepView for RetryState {
    type V = RetryStateView;

    closed spec fn deep_view(&self) -> RetryStateView {
        RetryStateView { attempt: self.attempt as nat, backoff_secs: self.backoff_secs as nat }
    }
}

/// The wait before the next repetition, after `attempt` of them.
pub open spec fn backoff_after(attempt: nat) -> nat
    decreases attempt,
{
    if attempt == 0 {
        INITIAL_BACKOFF_SECS as nat
    } else {
        2 * backoff_after((attempt - 1) as nat)
    }
}

/// The state of a request that was not sent yet.
pub open spec fn not_repeated() -> RetryStateView {
    RetryStateView { attempt: 0, backoff_secs: INITIAL_BACKOFF_SECS as nat }
}

/// The state after one more repetition.
pub open spec fn repeated(state: RetryStateView) -> RetryStateView {
    RetryStateView { attempt: state.attempt + 1, backoff_secs: 2 * state.backoff_secs }
}

/// What to do after a response.
pub enum FetchStep {
    /// The response is good: read its body.
    Read,
    /// Wait and send the request again.
    Retry { wait_secs: u64, next: RetryState },
    /// Give up.
    Fail(FreshnessError),
}

/// Whether a request is sent again after a response with the given status.
pub open spec fn retries(state: RetryStateView, code: u16) -> bool {
    !is_success(code) && is_retryable(code) && state.attempt < MAX_RETRIES
}

/// Model of a [`FetchStep`].
pub enum FetchStepView {
    Read,
    Retry { wait_secs: nat, next: RetryStateView },
    Fail(FreshnessErrorView),
}

impl DeepView for FetchStep {
    type V = FetchStepView;

    open spec fn deep_view(&self) -> FetchStepView {
        match *self {
            FetchStep::Read => FetchStepView::Read,
            FetchStep::Retry { wait_secs, next } => FetchStepView::Retry {
                wait_secs: wait_secs as nat,
                next: next.deep_view(),
            },
            FetchStep::Fail(error) => FetchStepView::Fail(error.deep_view()),
        }
    }
}

/// What follows a response with the given status.
pub open spec fn step_after(
    state: RetryStateView,
    crate_name: Seq<char>,
    code: u16,
) -> FetchStepView {
    if is_success(code) {
        FetchStepView::Read
    } else if retries(state, code) {
        FetchStepView::Retry { wait_secs: state.backoff_secs, next: repeated(state) }
    } else {
        FetchStepView::Fail(FreshnessErrorView::HttpStatus { crate_name, status: code })
    }
}

impl RetryState {
    #[verifier::type_invariant]
    closed spec fn backoff_doubles(self) -> bool {
        &&& self.attempt <= MAX_RETRIES
        &&& self.backoff_secs == backoff_after(self.attempt as nat)
    }

    /// The state of a request that was not sent yet.
    pub fn start() -> (state: RetryState)
        ensures
            state.deep_view() == not_repeated(),
    {
        RetryState { attempt: 0, backoff_secs: INITIAL_BACKOFF_SECS }
    }

    /// Decide what follows a response with the given status.
    ///
    /// Rate limits and server errors are retried with exponential backoff, as
    /// long as retries are left; every other failure is final.
    pub fn after_response(self, crate_name: &str, status: StatusCode) -> (step: FetchStep)
        ensures
            match step {
                FetchStep::Read => is_success(status.deep_view()),
                FetchStep::Retry { wait_secs, next } => {
                    &&& retries(self.deep_view(), status.deep_view())
                    &&& wait_secs == self.deep_view().backoff_secs
                    &&& next.deep_view() == repeated(self.deep_view())
                },
                FetchStep::Fail(error) => {
                    &&& !is_success(status.deep_view())
                    &&& !retries(self.deep_view(), status.deep_view())
                    &&& error.deep_view() == (FreshnessErrorView::HttpStatus {
                        crate_name: crate_name@,
                        status: status.deep_view(),
                    })
                },
            },
            step.deep_view() == step_after(self.deep_view(), crate_name@, status.deep_view()),
    {
        proof {
            use_type_invariant(&self);
        }
        let code: u16 = status.code;
        if 200 <= code && code < 300 {
            return FetchStep::Read;
        }
        let is_retryable = code == TOO_MANY_REQUESTS || (500 <= code && code < 600);
        if is_retryable && self.attempt < MAX_RETRIES {
            proof {
                backoff_is_bounded(self.attempt as nat);
            }
            let next = RetryState {
                attempt: self.attempt + 1,
                backoff_secs: 2 * self.backoff_secs,
            };
            return FetchStep::Retry { wait_secs: self.backoff_secs, next };
        }
        FetchStep::Fail(FreshnessError::HttpStatus { crate_name: crate_name.to_owned(), status })
    }

    /// What is told before a request is sent again.
    pub fn retry_message(&self, crate_name: &str, status: StatusCode) -> (message: String)
        ensures
            message@ == retrying(crate_name@, status.deep_view(), self.deep_view()),
    {
        proof {
            use_type_invariant(self);
        }
        let mut m = "HTTP ".to_owned();
        m.append(decimal_text(status.code as u128).as_str());
        m.append(" on `");
        m.append(crate_name);
        m.append("`, retrying in ");
        m.append(decimal_text(self.backoff_secs as u128).as_str());
        m.append("s (attempt ");
        m.append(decimal_text(self.attempt as u128 + 1).as_str());
        m.append("/");
        m.append(decimal_text(MAX_RETRIES as u128).as_str());
        m.append(")");
        m
    }
}

/// What is told before the request for a crate is sent again.
pub open spec fn retrying(crate_name: Seq<char>, code: u16, state: RetryStateView) -> Seq<char> {
    "HTTP "@ + decimal(code as nat) + " on `"@ + crate_name + "`, retrying in "@ + decimal(
        state.backoff_secs,
    ) + "s (attempt "@ + decimal(state.attempt + 1) + "/"@ + decimal(MAX_RETRIES as nat) + ")"@
}

/// The waits stay small.
proof fn backoff_is_bounded(attempt: nat)
    requires
        attempt <= MAX_RETRIES,
    ensures
        backoff_after(attempt) <= 32,
{
    reveal_with_fuel(backoff_after, 6);
}

/// The state of a request after responses with the given codes, where each of
/// them let it be sent again.
pub open spec fn state_after(codes: Seq<u16>) -> Option<RetryStateView>
    decreases codes.len(),
{
    if codes.len() == 0 {
        Some(not_repeated())
    } else {
        match state_after(codes.drop_last()) {
            Some(state) => if retries(state, codes.last()) {
                Some(repeated(state))
            } else {
                None
            },
            None => None,
        }
    }
}

/// A request is repeated at most `MAX_RETRIES` times, and each wait is twice as
/// long as the one before it.
pub proof fn repetitions_are_bounded(codes: Seq<u16>)
    ensures
        match state_after(codes) {
            Some(state) => {
                &&& codes.len() <= MAX_RETRIES
                &&& state.attempt == codes.len()
                &&& state.backoff_secs == backoff_after(codes.len())
            },
            None => true,
        },
    decreases codes.len(),
{
    if codes.len() > 0 {
        repetitions_are_bounded(codes.drop_last());
    }
}

/// A client error other than a rate limit is never retried; a rate limit and a
/// server error are, while retries are left.
pub proof fn which_failures_are_retried(state: RetryStateView, code: u16)
    ensures
        400 <= code < 500 && code != TOO_MANY_REQUESTS ==> !retries(state, code),
        (code == TOO_MANY_REQUESTS || 500 <= code < 600) && state.attempt < MAX_RETRIES ==> retries(
            state,
            code,
        ),
{
}

/// The address of the versions of a crate.
pub open spec fn versions_address(crate_name: Seq<char>) -> Seq<char> {
    "https://crates.io/api/v1/crates/"@ + crate_name + "/versions"@
}

/// The address that tells the versions of a crate.
pub fn versions_url(crate_name: &str) -> (url: String)
    ensures
        url@ == versions_address(crate_name@),
{
    let mut url = "https://crates.io/api/v1/crates/".to_owned();
    url.append(crate_name);
    url.append("/versions");
    url
}

/// How the program calls itself in requests.
pub open spec fn agent_name(version: Seq<char>) -> Seq<char> {
    "escudo/"@ + version
}

/// How the program of the given version calls itself in requests.
pub fn user_agent(version: &str) -> (agent: String)
    ensures
        agent@ == agent_name(version@),
{
    let mut agent = "escudo/".to_owned();
    agent.append(version);
    agent
}

/// The address of a crate with a valid name leads to that crate and nowhere
/// else: the name holds no character that ends a part of an address, or that
/// stands for another one.
pub proof fn addresses_lead_to_one_crate(name: Seq<char>, other: Seq<char>)
    requires
        valid_crate_name(name),
    ensures
        forall|i: int|
            0 <= i < name.len() ==> #[trigger] name[i] != '/' && name[i] != '?' && name[i] != '#'
                && name[i] != '%' && name[i] != '.',
        versions_address(name) == versions_address(other) ==> name == other,
{
    assert forall|i: int| 0 <= i < name.len() implies #[trigger] name[i] != '/' && name[i] != '?'
        && name[i] != '#' && name[i] != '%' && name[i] != '.' by {
        assert(is_name_char(name[i]));
    }
    let front = "https://crates.io/api/v1/crates/"@.len() as int;
    if versions_address(name) == versions_address(other) {
        assert(versions_address(name).len() == front + name.len() + "/versions"@.len());
        assert(versions_address(other).len() == front + other.len() + "/versions"@.len());
        assert(name =~= versions_address(name).subrange(front, front + name.len()));
        assert(other =~= versions_address(other).subrange(front, front + other.len()));
    }
}

/// What follows a response, by its code: one in the two hundreds is read; 429
/// and one in the five hundreds are answered by another request, five times at
/// most; and every other one is final.
pub proof fn what_follows_a_response(state: RetryStateView, code: u16)
    ensures
        is_success(code) <==> code / 100 == 2,
        retries(state, code) <==> (code == 429 || code / 100 == 5) && state.attempt < 5,
{
}

/// Which responses lead to another request after all: five of them at most,
/// each with 429 or a code in the five hundreds. The wait before the first
/// repetition is a second, and each later one is twice as long.
pub proof fn which_responses_are_sat_out(codes: Seq<u16>)
    ensures
        state_after(codes) is Some <==> {
            &&& codes.len() <= 5
            &&& forall|i: int|
                0 <= i < codes.len() ==> (#[trigger] codes[i]) == 429 || codes[i] / 100 == 5
        },
        state_after(codes) matches Some(state) ==> state.attempt == codes.len()
            && state.backoff_secs == pow2(codes.len()),
    decreases codes.len(),
{
    if codes.len() == 0 {
        lemma2_to64();
    } else {
        let shorter = codes.drop_last();
        which_responses_are_sat_out(shorter);
        lemma_pow2_unfold(codes.len());
        if state_after(codes) is Some {
            assert forall|i: int| 0 <= i < codes.len() implies (#[trigger] codes[i]) == 429
                || codes[i] / 100 == 5 by {
                if i < shorter.len() {
                    assert(shorter[i] == codes[i]);
                }
            }
        }
        if codes.len() <= 5 && forall|i: int|
            0 <= i < codes.len() ==> (#[trigger] codes[i]) == 429 || codes[i] / 100 == 5 {
            assert forall|i: int| 0 <= i < shorter.len() implies (#[trigger] shorter[i]) == 429
                || shorter[i] / 100 == 5 by {
                assert(shorter[i] == codes[i]);
            }
            assert(codes.last() == codes[codes.len() - 1]);
        }
    }
}

/// A hanging service cannot stall the audit for long: a connection is given up
/// after fifteen seconds and a request after thirty, and a crate is asked about
/// six times at most.
pub proof fn requests_are_bounded(codes: Seq<u16>)
    requires
        state_after(codes) is Some,
    ensures
        CONNECT_TIMEOUT_SECS == 15,
        REQUEST_TIMEOUT_SECS == 30,
        (codes.len() + 1) * REQUEST_TIMEOUT_SECS <= 180,
        0 < MAX_CONCURRENT_REQUESTS <= 10,
{
    which_responses_are_sat_out(codes);
}

/// An address is that of the crate's name and nothing else.
pub proof fn addresses_are_made_of_the_name(name: Seq<char>)
    ensures
        "https://crates.io/api/v1/crates/"@.is_prefix_of(versions_address(name)),
        versions_address(name).skip("https://crates.io/api/v1/crates/"@.len() as int) == name
            + "/versions"@,
{
    let front = "https://crates.io/api/v1/crates/"@;
    assert(versions_address(name).subrange(0, front.len() as int) =~= front);
    assert(versions_address(name).skip(front.len() as int) =~= name + "/versions"@);
}

/// What is told before a request is sent again holds the code, the crate, the
/// wait, and the number of the attempt.
pub proof fn retry_messages_tell(crate_name: Seq<char>, code: u16, state: RetryStateView)
    ensures
        contains_text(retrying(crate_name, code, state), decimal(code as nat)),
        contains_text(retrying(crate_name, code, state), crate_name),
        contains_text(retrying(crate_name, code, state), decimal(state.backoff_secs)),
        contains_text(retrying(crate_name, code, state), decimal(state.attempt + 1)),
{
    let message = retrying(crate_name, code, state);
    let w = decimal(code as nat);
    let y = decimal(state.backoff_secs);
    let z = decimal(state.attempt + 1);
    let max = decimal(MAX_RETRIES as nat);
    let a = "HTTP "@;
    let b = " on `"@;
    let c = "`, retrying in "@;
    let d = "s (attempt "@;
    let e = "/"@ + max + ")"@;
    parts_are_contained(a, w, b + crate_name + c + y + d + z + e);
    parts_are_contained(a + w + b, crate_name, c + y + d + z + e);
    parts_are_contained(a + w + b + crate_name + c, y, d + z + e);
    parts_are_contained(a + w + b + crate_name + c + y + d, z, e);
    assert(message =~= a + w + (b + crate_name + c + y + d + z + e));
    assert(message =~= a + w + b + crate_name + (c + y + d + z + e));
    assert(message =~= a + w + b + crate_name + c + y + (d + z + e));
    assert(message =~= a + w + b + crate_name + c + y + d + z + e);
}

/// In plain terms, what follows a response: one in the two hundreds is read;
/// 429 and one in the five hundreds are answered by another request, after the
/// wait that is due, which is then twice as long, five times at most; and every
/// other one fails, with the crate and the code.
pub proof fn steps_in_plain_terms(state: RetryStateView, crate_name: Seq<char>, code: u16)
    ensures
        code / 100 == 2 ==> step_after(state, crate_name, code) == FetchStepView::Read,
        (code == 429 || code / 100 == 5) && state.attempt < 5 ==> step_after(
            state,
            crate_name,
            code,
        ) == (FetchStepView::Retry {
            wait_secs: state.backoff_secs,
            next: RetryStateView {
                attempt: state.attempt + 1,
                backoff_secs: state.backoff_secs + state.backoff_secs,
            },
        }),
        code / 100 != 2 && !((code == 429 || code / 100 == 5) && state.attempt < 5) ==> step_after(
            state,
            crate_name,
            code,
        ) == FetchStepView::Fail(FreshnessErrorView::HttpStatus { crate_name, status: code }),
{
}

/// A request begins without repetitions, and with a wait of a second before the
/// first of them.
pub proof fn requests_begin_afresh()
    ensures
        not_repeated().attempt == 0,
        not_repeated().backoff_secs == 1,
{
}

/// The program calls itself by its name and the version it is given.
pub proof fn agents_are_called_by_their_version(version: Seq<char>)
    ensures
        "escudo/"@.is_prefix_of(agent_name(version)),
        agent_name(version).skip("escudo/"@.len() as int) == version,
{
    assert(agent_name(version).subrange(0, "escudo/"@.len() as int) =~= "escudo/"@);
    assert(agent_name(version).skip("escudo/"@.len() as int) =~= version);
}

/// What is told before a request is sent again is made by one pattern.
pub proof fn retry_messages_have_one_pattern() -> (p: Seq<Seq<char>>)
    ensures
        p.len() == 6,
        forall|crate_name: Seq<char>, code: u16, state: RetryStateView|
            #[trigger] retrying(crate_name, code, state) == p[0] + decimal(code as nat) + p[1]
            + crate_name + p[2] + decimal(state.backoff_secs) + p[3] + decimal(state.attempt
            + 1) + p[4] + decimal(MAX_RETRIES as nat) + p[5],
{
    let p = seq![
        "HTTP "@,
        " on `"@,
        "`, retrying in "@,
        "s (attempt "@,
        "/"@,
        ")"@,
    ];
    assert forall|crate_name: Seq<char>, code: u16, state: RetryStateView|
        #[trigger] retrying(crate_name, code, state) == p[0] + decimal(code as nat) + p[1]
        + crate_name + p[2] + decimal(state.backoff_secs) + p[3] + decimal(state.attempt + 1)
        + p[4] + decimal(MAX_RETRIES as nat) + p[5] by {
        assert(retrying(crate_name, code, state) =~= p[0] + decimal(code as nat) + p[1]
            + crate_name + p[2] + decimal(state.backoff_secs) + p[3] + decimal(state.attempt
            + 1) + p[4] + decimal(MAX_RETRIES as nat) + p[5]);
    }
    p
}

} // verus!

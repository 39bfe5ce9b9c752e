use vstd::prelude::*;
use vstd::string::StringExecFns;

use crate::model::{is_success, AuthResponse};

verus! {

/// The OAuth2 token endpoint.
pub const OAUTH_URL: &'static str = "https://auth.fit.cvut.cz/oauth/oauth/token";

/// A bearer token and the time (seconds) from which it is no longer valid.
pub struct Token {
    pub value: String,
    pub expires_at: u64,
}

/// The mathematical content of a [`Token`].
pub ghost struct TokenView {
    pub value: Seq<char>,
    pub expires_at: u64,
}

impl View for Token {
    type V = TokenView;

    open spec fn view(&self) -> TokenView {
        TokenView { value: self.value@, expires_at: self.expires_at }
    }
}

/// Client credentials and the token cached for them. A refresh is in flight
/// from the moment `get_token` asks for one until `finish_refresh` records
/// its outcome; while it is, no other refresh is asked for, and callers
/// that wait for it are handed its outcome.
pub struct Auth {
    client_id: String,
    client_secret: String,
    scope: String,
    token: Option<Token>,
    refreshing: bool,
    /// Number of refreshes finished so far, from 0 again after the largest
    /// `u64`.
    generation: u64,
    /// The error of the last finished refresh, `None` if it granted a token
    /// or none finished yet.
    last_error: Option<AuthError>,
}

/// The mathematical content of an [`Auth`].
pub ghost struct AuthView {
    pub client_id: Seq<char>,
    pub client_secret: Seq<char>,
    pub scope: Seq<char>,
    pub token: Option<TokenView>,
    pub refreshing: bool,
    pub generation: u64,
    pub last_error: Option<AuthError>,
}

impl View for Auth {
    type V = AuthView;

    closed spec fn view(&self) -> AuthView {
        AuthView {
            client_id: self.client_id@,
            client_secret: self.client_secret@,
            scope: self.scope@,
            token: match self.token {
                Some(t) => Some(t@),
                None => None,
            },
            refreshing: self.refreshing,
            generation: self.generation,
            last_error: self.last_error,
        }
    }
}

/// Whether the cache holds a token that is valid at `now`.
pub open spec fn valid_at(a: AuthView, now: int) -> bool {
    a.token is Some && now < a.token->0.expires_at
}

/// What a caller of `get_token` is told to do.
pub enum TokenStep {
    /// Use this token.
    Ready(String),
    /// Another caller's refresh is in flight: once it ended, ask again
    /// through `after_wait` with this ticket.
    Wait(u64),
    /// Send the refresh request, then hand its reply to `finish_refresh`.
    Refresh,
    /// The refresh waited for failed with this error.
    Failed(AuthError),
}

/// The content of a [`TokenStep`].
pub ghost enum StepView {
    Ready(Seq<char>),
    Wait(u64),
    Refresh,
    Failed(AuthError),
}

pub open spec fn step_view(s: TokenStep) -> StepView {
    match s {
        TokenStep::Ready(v) => StepView::Ready(v@),
        TokenStep::Wait(g) => StepView::Wait(g),
        TokenStep::Refresh => StepView::Refresh,
        TokenStep::Failed(e) => StepView::Failed(e),
    }
}

/// What `get_token` tells a caller at `now`.
pub open spec fn step_at(a: AuthView, now: int) -> StepView {
    if valid_at(a, now) {
        StepView::Ready(a.token->0.value)
    } else if a.refreshing {
        StepView::Wait(a.generation)
    } else {
        StepView::Refresh
    }
}

/// The cache after `get_token` at `now`: only a caller told to refresh
/// changes it, by marking a refresh in flight.
pub open spec fn after_step(a: AuthView, now: int) -> AuthView {
    if !valid_at(a, now) && !a.refreshing {
        AuthView { refreshing: true, ..a }
    } else {
        a
    }
}

/// Whether a refresh finished since a caller was handed `ticket`.
pub open spec fn refreshed_since(a: AuthView, ticket: u64) -> bool {
    a.generation != ticket
}

/// What `after_wait` tells a caller at `now` that waited with `ticket`: the
/// error of the refresh it waited for, if that failed; else what
/// `get_token` tells.
pub open spec fn step_after_wait(a: AuthView, now: int, ticket: u64) -> StepView {
    if refreshed_since(a, ticket) && a.last_error is Some {
        StepView::Failed(a.last_error->0)
    } else {
        step_at(a, now)
    }
}

/// The cache after `after_wait`.
pub open spec fn after_wait_state(a: AuthView, now: int, ticket: u64) -> AuthView {
    if refreshed_since(a, ticket) && a.last_error is Some {
        a
    } else {
        after_step(a, now)
    }
}

/// The generation after one more finished refresh.
pub open spec fn next_generation(g: u64) -> u64 {
    if g == u64::MAX {
        0
    } else {
        (g + 1) as u64
    }
}

/// What the token endpoint did with a refresh request.
pub enum RefreshReply {
    /// The request or its answer was lost on the way.
    Unreachable,
    /// The endpoint answered with `status`; `body` is the decoded body, if
    /// it had the expected shape.
    Answered { status: u16, body: Option<AuthResponse> },
}

/// Why no token came out of a refresh.
#[derive(Debug, PartialEq, Eq, Structural, Clone, Copy)]
pub enum AuthError {
    /// The endpoint could not be reached; a later call tries again.
    Transport,
    /// The endpoint answered with an unsuccessful status.
    Rejected(u16),
    /// The endpoint's body did not have the expected shape.
    Malformed,
}

/// The outcome of a refresh: the new token's value, or the error.
pub open spec fn reply_result(reply: RefreshReply) -> Result<Seq<char>, AuthError> {
    match reply {
        RefreshReply::Unreachable => Err(AuthError::Transport),
        RefreshReply::Answered { status, body } => if !is_success(status) {
            Err(AuthError::Rejected(status))
        } else {
            match body {
                Some(b) => Ok(b.access_token@),
                None => Err(AuthError::Malformed),
            }
        },
    }
}

/// `a + b`, or the largest `u64` where the sum goes beyond it.
pub open spec fn sat_add(a: u64, b: u64) -> u64 {
    if a + b > u64::MAX {
        u64::MAX
    } else {
        (a + b) as u64
    }
}

/// The cache after a refresh that ended at `now` with `reply`: the refresh
/// is no longer in flight; a granted token replaces the cached one whole,
/// with its expiry counted from `now`; on any error the cached token stays
/// as it was and the error is kept for the callers that waited.
pub open spec fn after_reply(a: AuthView, now: u64, reply: RefreshReply) -> AuthView {
    match reply_result(reply) {
        Ok(v) => AuthView {
            token: Some(
                TokenView {
                    value: v,
                    expires_at: sat_add(now, reply->Answered_body->0.expires_in),
                },
            ),
            refreshing: false,
            generation: next_generation(a.generation),
            last_error: None,
            ..a
        },
        Err(e) => AuthView {
            refreshing: false,
            generation: next_generation(a.generation),
            last_error: Some(e),
            ..a
        },
    }
}

/// The views of a list of form fields.
pub open spec fn form_view(f: Seq<(String, String)>) -> Seq<(Seq<char>, Seq<char>)> {
    f.map_values(|p: (String, String)| (p.0@, p.1@))
}

/// The fields of a client-credentials grant for the given credentials.
pub open spec fn grant_form(a: AuthView) -> Seq<(Seq<char>, Seq<char>)> {
    seq![
        ("grant_type"@, "client_credentials"@),
        ("client_id"@, a.client_id),
        ("client_secret"@, a.client_secret),
        ("scope"@, a.scope),
    ]
}

/// Copy of a string.
fn text(s: &str) -> (r: String)
    ensures
        r@ == s@,
{
    String::from_str(s)
}

impl Auth {
    /// A cache for the given credentials and scope, holding no token.
    pub fn new(client_id: String, client_secret: String, scope: String) -> (r: Auth)
        ensures
            r@ == (AuthView {
                client_id: client_id@,
                client_secret: client_secret@,
                scope: scope@,
                token: None,
                refreshing: false,
                generation: 0,
                last_error: None,
            }),
    {
        Auth {
            client_id,
            client_secret,
            scope,
            token: None,
            refreshing: false,
            generation: 0,
            last_error: None,
        }
    }

    /// Whether a refresh is in flight.
    pub fn is_refreshing(&self) -> (r: bool)
        ensures
            r == self@.refreshing,
    {
        self.refreshing
    }

    /// What a caller that needs a token at `now` must do. A valid cached
    /// token is handed out with no request. Otherwise exactly one caller is
    /// told to refresh; callers that come while that refresh is in flight
    /// are told to wait.
    pub fn get_token(&mut self, now: u64) -> (r: TokenStep)
        ensures
            step_view(r) == step_at(old(self)@, now as int),
            final(self)@ == after_step(old(self)@, now as int),
    {
        match &self.token {
            Some(t) => {
                if now < t.expires_at {
                    return TokenStep::Ready(t.value.clone());
                }
            },
            None => {},
        }
        if self.refreshing {
            TokenStep::Wait(self.generation)
        } else {
            self.refreshing = true;
            TokenStep::Refresh
        }
    }

    /// What a caller that was told to wait with `ticket` must do at `now`,
    /// once woken: the refresh it waited for hands it its error if it failed;
    /// otherwise it goes on as `get_token` says (a granted token is handed
    /// out while it is valid).
    pub fn after_wait(&mut self, now: u64, ticket: u64) -> (r: TokenStep)
        ensures
            step_view(r) == step_after_wait(old(self)@, now as int, ticket),
            final(self)@ == after_wait_state(old(self)@, now as int, ticket),
    {
        if self.generation != ticket {
            match self.last_error {
                Some(e) => {
                    return TokenStep::Failed(e);
                },
                None => {},
            }
        }
        self.get_token(now)
    }

    /// The form fields of the refresh request.
    pub fn refresh_form(&self) -> (r: Vec<(String, String)>)
        ensures
            form_view(r@) == grant_form(self@),
    {
        let mut r: Vec<(String, String)> = Vec::new();
        r.push((text("grant_type"), text("client_credentials")));
        r.push((text("client_id"), self.client_id.clone()));
        r.push((text("client_secret"), self.client_secret.clone()));
        r.push((text("scope"), self.scope.clone()));
        proof {
            reveal_strlit("grant_type");
            reveal_strlit("client_credentials");
            reveal_strlit("client_id");
            reveal_strlit("client_secret");
            reveal_strlit("scope");
            assert(form_view(r@) =~= grant_form(self@));
        }
        r
    }

    /// Records the reply to the refresh request, received at `now`, and
    /// returns the new token's value or the error.
    pub fn finish_refresh(&mut self, now: u64, reply: RefreshReply) -> (r: Result<String, AuthError>)
        ensures
            final(self)@ == after_reply(old(self)@, now, reply),
            match r {
                Ok(v) => reply_result(reply) == Ok::<Seq<char>, AuthError>(v@),
                Err(e) => reply_result(reply) == Err::<Seq<char>, AuthError>(e),
            },
    {
        self.refreshing = false;
        self.generation = if self.generation == u64::MAX {
            0
        } else {
            self.generation + 1
        };
        let r = match reply {
            RefreshReply::Unreachable => Err(AuthError::Transport),
            RefreshReply::Answered { status, body } => {
                if status < 200 || status > 299 {
                    Err(AuthError::Rejected(status))
                } else {
                    match body {
                        Some(b) => {
                            let expires_at = now.saturating_add(b.expires_in);
                            let value = b.access_token.clone();
                            self.token = Some(Token { value: b.access_token, expires_at });
                            Ok(value)
                        },
                        None => Err(AuthError::Malformed),
                    }
                }
            },
        };
        self.last_error = match &r {
            Ok(_) => None,
            Err(e) => Some(*e),
        };
        r
    }
}

/// A valid cached token is handed out as it is, with no request and no
/// change to the cache.
pub proof fn lemma_valid_token_no_request(a: AuthView, now: int)
    requires
        valid_at(a, now),
    ensures
        step_at(a, now) == StepView::Ready(a.token->0.value),
        after_step(a, now) == a,
{
}

/// Two callers that find no valid token cause at most one request between
/// them: with no refresh in flight the first is told to refresh and the
/// second to wait for it; with one in flight both wait for it.
pub proof fn lemma_single_flight(a: AuthView, first: int, second: int)
    requires
        !valid_at(a, first),
        first <= second,
    ensures
        !(step_at(a, first) == StepView::Refresh && step_at(after_step(a, first), second)
            == StepView::Refresh),
        !a.refreshing ==> step_at(a, first) == StepView::Refresh && step_at(
            after_step(a, first),
            second,
        ) == StepView::Wait(a.generation),
        a.refreshing ==> step_at(a, first) == StepView::Wait(a.generation) && step_at(
            after_step(a, first),
            second,
        ) == StepView::Wait(a.generation),
        after_step(after_step(a, first), second) == after_step(a, first),
{
}

/// Two callers that find no valid token share the outcome of one refresh:
/// the first refreshes and the second waits; when the reply comes, the
/// first gets its outcome from `finish_refresh`, and the second, asking
/// again with its ticket, gets the same token (while that token is valid,
/// since a token is never used past its expiry) or the same error, with no
/// further request.
pub proof fn lemma_callers_share_one_refresh(
    a: AuthView,
    first: int,
    second: int,
    at: u64,
    reply: RefreshReply,
    later: int,
)
    requires
        !valid_at(a, first),
        !a.refreshing,
        first <= second,
    ensures
        ({
            let s1 = after_step(a, first);
            let s2 = after_step(s1, second);
            let done = after_reply(s2, at, reply);
            &&& step_at(a, first) == StepView::Refresh
            &&& step_at(s1, second) == StepView::Wait(a.generation)
            &&& (reply_result(reply) is Err ==> step_after_wait(done, later, a.generation)
                == StepView::Failed(reply_result(reply)->Err_0) && after_wait_state(
                done,
                later,
                a.generation,
            ) == done)
            &&& (reply_result(reply) is Ok && later < sat_add(
                at,
                reply->Answered_body->0.expires_in,
            ) ==> step_after_wait(done, later, a.generation) == StepView::Ready(
                reply_result(reply)->Ok_0,
            ) && after_wait_state(done, later, a.generation) == done)
        }),
{
}

/// Once the refresh was granted, a caller that waited for it is handed the
/// very token that the refreshing caller got, while that token is valid.
pub proof fn lemma_waiter_gets_refreshed_token(a: AuthView, at: u64, reply: RefreshReply, now: int)
    requires
        reply_result(reply) is Ok,
        now < sat_add(at, reply->Answered_body->0.expires_in),
    ensures
        step_after_wait(after_reply(a, at, reply), now, a.generation) == StepView::Ready(
            reply_result(reply)->Ok_0,
        ),
{
}

/// Once the refresh failed, a caller that waited for it is handed the same
/// error and sends no request of its own.
pub proof fn lemma_waiter_gets_refresh_error(a: AuthView, at: u64, reply: RefreshReply, now: int)
    requires
        reply_result(reply) is Err,
    ensures
        step_after_wait(after_reply(a, at, reply), now, a.generation) == StepView::Failed(
            reply_result(reply)->Err_0,
        ),
        after_wait_state(after_reply(a, at, reply), now, a.generation) == after_reply(
            a,
            at,
            reply,
        ),
{
}

/// A refresh that fails leaves the cached token as it was and ends the
/// refresh in flight, so the next caller that finds no valid token sends a
/// new request.
pub proof fn lemma_failed_refresh_retries(a: AuthView, at: u64, reply: RefreshReply, now: int)
    requires
        reply_result(reply) is Err,
        !valid_at(a, now),
    ensures
        after_reply(a, at, reply).token == a.token,
        step_at(after_reply(a, at, reply), now) == StepView::Refresh,
{
}

} // verus!

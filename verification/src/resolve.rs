//! Asking the resolving service for the link of a file.
//!
//! Two endpoints are tried, each up to three times. A busy endpoint is left alone for twice as long
//! after each attempt, and after the third the other one is asked. An endpoint that cannot be
//! reached is tried again after a second, and one that refuses at once; where either happens on the
//! third attempt, the search is over. The resolver is driven from outside, like a download.
use crate::cipher::{
    base64_decoded, decrypted, key_bytes, utf8_error_text, xor_cycle, xor_decrypt,
};
use crate::download::is_success;
use crate::model::{ApiResponse, ApiResponseView};
use crate::text::{
    decimal, decimal_reads_back, joined_text, numeral_value, numerals_are_built_digit_by_digit,
    numerals_tell_numbers_apart, result_view, to_decimal,
};
use vstd::prelude::*;

verus! {

/// The browser that requests are made as.
pub const USER_AGENT: &'static str = "Mozilla/5.0 (Windows NT 10.0; Win64; x64) AppleWebKit/537.36 (KHTML, like Gecko) Chrome/133.0.0.0 Safari/537.36";

/// The origin that requests to the service name.
pub const API_ORIGIN: &'static str = "https://get.bunkrr.su";

/// The page that requests for a file itself name as their referrer.
pub const DOWNLOAD_REFERER: &'static str = "https://get.bunkrr.su/";

/// The endpoint that is asked first.
pub const PRIMARY_API: &'static str = "https://get.bunkrr.su/api/_001_v2";

/// The endpoint that is asked when the first one stays busy.
pub const FALLBACK_API: &'static str = "https://apidl.bunkr.ru/api/_001_v2";

/// How often each endpoint is tried.
pub const ATTEMPTS_PER_ENDPOINT: u8 = 3;

/// How often the service is asked at most: on two endpoints.
pub const MAX_ATTEMPTS: u8 = 6;

/// The endpoint that is asked when `used` attempts have been made.
pub open spec fn api_url(used: u8) -> Seq<char> {
    if used < ATTEMPTS_PER_ENDPOINT {
        PRIMARY_API@
    } else {
        FALLBACK_API@
    }
}

/// How long a busy endpoint is left alone after its attempt number `attempt`, counted from zero,
/// in seconds.
pub open spec fn backoff_secs(attempt: nat) -> nat
    decreases attempt,
{
    if attempt == 0 {
        2
    } else {
        2 * backoff_secs((attempt - 1) as nat)
    }
}

/// One request to the service: where it goes, the page it names as its referrer, and the id of the
/// file it asks for.
#[derive(Debug)]
pub struct ApiRequest {
    pub url: String,
    pub referer: String,
    pub id: String,
}

#[verifier::ext_equal]
pub struct ApiRequestView {
    pub url: Seq<char>,
    pub referer: Seq<char>,
    pub id: Seq<char>,
}

impl View for ApiRequest {
    type V = ApiRequestView;

    open spec fn view(&self) -> ApiRequestView {
        ApiRequestView { url: self.url@, referer: self.referer@, id: self.id@ }
    }
}

/// What a resolver is waiting for.
#[derive(Debug, Clone, Copy, PartialEq, Eq, Structural)]
pub enum ResolvePhase {
    /// The answer to a request.
    Posting,
    /// The end of a pause between attempts.
    Waiting,
    /// The body of a successful answer.
    Reading,
    /// Nothing any more.
    Finished,
}

/// What happened to a request.
#[derive(Debug)]
pub enum ResolveEvent {
    /// The service answered with a status code and its text.
    Replied { code: u16, status: String },
    /// The service could not be reached.
    PostFailed(String),
    /// The pause is over.
    Woke,
    /// The body of the answer was read and understood, or not.
    Body(Result<ApiResponse, String>),
}

#[verifier::ext_equal]
pub enum ResolveEventView {
    Replied { code: u16, status: Seq<char> },
    PostFailed(Seq<char>),
    Woke,
    Body(Result<ApiResponseView, Seq<char>>),
}

impl View for ResolveEvent {
    type V = ResolveEventView;

    open spec fn view(&self) -> ResolveEventView {
        match *self {
            ResolveEvent::Replied { code, status } => ResolveEventView::Replied {
                code,
                status: status@,
            },
            ResolveEvent::PostFailed(e) => ResolveEventView::PostFailed(e@),
            ResolveEvent::Woke => ResolveEventView::Woke,
            ResolveEvent::Body(r) => ResolveEventView::Body(
                match r {
                    Ok(data) => Ok(data@),
                    Err(e) => Err(e@),
                },
            ),
        }
    }
}

/// What a resolver wants done next.
#[derive(Debug)]
pub enum ResolveAction {
    /// Send this request.
    Post(ApiRequest),
    /// Wait for so many seconds.
    Wait(u64),
    /// Read the body of the answer.
    ReadBody,
    /// Nothing: this is the link, or the reason why there is none.
    Return(Result<String, String>),
}

#[verifier::ext_equal]
pub enum ResolveActionView {
    Post(ApiRequestView),
    Wait(u64),
    ReadBody,
    Return(Result<Seq<char>, Seq<char>>),
}

impl View for ResolveAction {
    type V = ResolveActionView;

    open spec fn view(&self) -> ResolveActionView {
        match *self {
            ResolveAction::Post(request) => ResolveActionView::Post(request@),
            ResolveAction::Wait(secs) => ResolveActionView::Wait(secs),
            ResolveAction::ReadBody => ResolveActionView::ReadBody,
            ResolveAction::Return(r) => ResolveActionView::Return(result_view(r)),
        }
    }
}

/// The link in an answer of the service.
pub open spec fn link_of(body: Result<ApiResponseView, Seq<char>>) -> Result<Seq<char>, Seq<char>> {
    match body {
        Ok(data) => if data.encrypted {
            decrypted(base64_decoded(data.url), data.timestamp)
        } else {
            Err("API response not encrypted"@)
        },
        Err(e) => Err("API parse: "@ + e),
    }
}

/// The search for the link of one file, after `used` attempts that came to nothing.
#[derive(Debug, Clone, Copy, PartialEq, Eq, Structural)]
pub struct Resolver {
    pub file_id: u64,
    pub used: u8,
    pub phase: ResolvePhase,
}

impl Resolver {
    /// The request that is made next.
    pub open spec fn request(self) -> ApiRequestView {
        ApiRequestView {
            url: api_url(self.used),
            referer: "https://get.bunkrr.su/file/"@ + decimal(self.file_id as nat),
            id: decimal(self.file_id as nat),
        }
    }

    /// The resolver in another phase.
    pub open spec fn turned(self, phase: ResolvePhase) -> Resolver {
        Resolver { phase, ..self }
    }

    /// The resolver after one more attempt that came to nothing.
    pub open spec fn spent(self, phase: ResolvePhase) -> Resolver {
        Resolver { phase, used: (self.used + 1) as u8, ..self }
    }

    /// Whether the endpoint that is being asked has no attempt left after this one.
    pub open spec fn on_last_attempt(self) -> bool {
        self.used % ATTEMPTS_PER_ENDPOINT == ATTEMPTS_PER_ENDPOINT - 1
    }

    /// What the resolver does on an event: the resolver afterwards, and what it wants done. `None`
    /// where the event does not belong to its phase.
    pub open spec fn next(self, event: ResolveEventView) -> Option<(Resolver, ResolveActionView)> {
        match (self.phase, event) {
            (ResolvePhase::Posting, ResolveEventView::Replied { code, status }) =>
            if self.used >= MAX_ATTEMPTS {
                None
            } else if code == 429 {
                Some(
                    (
                        self.spent(ResolvePhase::Waiting),
                        ResolveActionView::Wait(
                            backoff_secs((self.used % ATTEMPTS_PER_ENDPOINT) as nat) as u64,
                        ),
                    ),
                )
            } else if is_success(code) {
                Some((self.turned(ResolvePhase::Reading), ResolveActionView::ReadBody))
            } else if self.on_last_attempt() {
                Some(
                    (
                        self.turned(ResolvePhase::Finished),
                        ResolveActionView::Return(Err("API HTTP "@ + status)),
                    ),
                )
            } else {
                let after = self.spent(ResolvePhase::Posting);
                Some((after, ResolveActionView::Post(after.request())))
            },
            (ResolvePhase::Posting, ResolveEventView::PostFailed(e)) =>
            if self.used >= MAX_ATTEMPTS {
                None
            } else if self.on_last_attempt() {
                Some(
                    (
                        self.turned(ResolvePhase::Finished),
                        ResolveActionView::Return(Err("API error: "@ + e)),
                    ),
                )
            } else {
                Some((self.spent(ResolvePhase::Waiting), ResolveActionView::Wait(1)))
            },
            (ResolvePhase::Waiting, ResolveEventView::Woke) => if self.used >= MAX_ATTEMPTS {
                Some(
                    (
                        self.turned(ResolvePhase::Finished),
                        ResolveActionView::Return(Err("All API endpoints failed"@)),
                    ),
                )
            } else {
                Some(
                    (
                        self.turned(ResolvePhase::Posting),
                        ResolveActionView::Post(self.request()),
                    ),
                )
            },
            (ResolvePhase::Reading, ResolveEventView::Body(body)) => Some(
                (
                    self.turned(ResolvePhase::Finished),
                    ResolveActionView::Return(link_of(body)),
                ),
            ),
            _ => None,
        }
    }

    fn next_request(&self) -> (request: ApiRequest)
        ensures
            request@ == self.request(),
    {
        let url = if self.used < ATTEMPTS_PER_ENDPOINT {
            PRIMARY_API
        } else {
            FALLBACK_API
        };
        let id = to_decimal(self.file_id);
        ApiRequest {
            url: url.to_owned(),
            referer: joined_text("https://get.bunkrr.su/file/", id.as_str()),
            id,
        }
    }

    /// Begins the search for the link of a file. The request is the first thing to do.
    pub fn begin(file_id: u64) -> (r: (Resolver, ApiRequest))
        ensures
            r.0 == (Resolver { file_id, used: 0, phase: ResolvePhase::Posting }),
            r.1@ == r.0.request(),
    {
        let resolver = Resolver { file_id, used: 0, phase: ResolvePhase::Posting };
        let request = resolver.next_request();
        (resolver, request)
    }

    /// Tells the resolver what happened. An event that does not belong to its phase is refused and
    /// leaves the resolver as it is.
    pub fn step(&mut self, event: ResolveEvent) -> (action: Option<ResolveAction>)
        ensures
            match old(self).next(event@) {
                Some((after, todo)) => {
                    &&& *final(self) == after
                    &&& action is Some
                    &&& action->0@ == todo
                },
                None => *final(self) == *old(self) && action is None,
            },
    {
        match event {
            ResolveEvent::Replied { code, status } => {
                if !matches!(self.phase, ResolvePhase::Posting) || self.used >= MAX_ATTEMPTS {
                    return None;
                }
                if code == 429 {
                    let attempt: u8 = self.used % ATTEMPTS_PER_ENDPOINT;
                    proof {
                        reveal_with_fuel(backoff_secs, 3);
                    }
                    let secs: u64 = match attempt {
                        0 => 2,
                        1 => 4,
                        _ => 8,
                    };
                    self.used = self.used + 1;
                    self.phase = ResolvePhase::Waiting;
                    Some(ResolveAction::Wait(secs))
                } else if 200 <= code && code <= 299 {
                    self.phase = ResolvePhase::Reading;
                    Some(ResolveAction::ReadBody)
                } else if self.used % ATTEMPTS_PER_ENDPOINT == ATTEMPTS_PER_ENDPOINT - 1 {
                    self.phase = ResolvePhase::Finished;
                    Some(ResolveAction::Return(Err(joined_text("API HTTP ", status.as_str()))))
                } else {
                    self.used = self.used + 1;
                    Some(ResolveAction::Post(self.next_request()))
                }
            },
            ResolveEvent::PostFailed(e) => {
                if !matches!(self.phase, ResolvePhase::Posting) || self.used >= MAX_ATTEMPTS {
                    return None;
                }
                if self.used % ATTEMPTS_PER_ENDPOINT == ATTEMPTS_PER_ENDPOINT - 1 {
                    self.phase = ResolvePhase::Finished;
                    Some(ResolveAction::Return(Err(joined_text("API error: ", e.as_str()))))
                } else {
                    self.used = self.used + 1;
                    self.phase = ResolvePhase::Waiting;
                    Some(ResolveAction::Wait(1))
                }
            },
            ResolveEvent::Woke => {
                if !matches!(self.phase, ResolvePhase::Waiting) {
                    return None;
                }
                if self.used >= MAX_ATTEMPTS {
                    self.phase = ResolvePhase::Finished;
                    Some(ResolveAction::Return(Err("All API endpoints failed".to_owned())))
                } else {
                    self.phase = ResolvePhase::Posting;
                    Some(ResolveAction::Post(self.next_request()))
                }
            },
            ResolveEvent::Body(body) => {
                if !matches!(self.phase, ResolvePhase::Reading) {
                    return None;
                }
                self.phase = ResolvePhase::Finished;
                let answer = match body {
                    Ok(data) => if data.encrypted {
                        xor_decrypt(data.url.as_str(), data.timestamp)
                    } else {
                        Err("API response not encrypted".to_owned())
                    },
                    Err(e) => Err(joined_text("API parse: ", e.as_str())),
                };
                Some(ResolveAction::Return(answer))
            },
        }
    }
}

/// A search that was fed a whole run of events: where it stands, how many requests it has made,
/// how many seconds it has asked to wait, and what it has returned.
pub struct ResolveRun {
    pub resolver: Resolver,
    pub posts: nat,
    pub waited: nat,
    pub answer: Option<Result<Seq<char>, Seq<char>>>,
}

/// The run of a search over a sequence of events, from its first request on. `None` where it
/// refuses one of them.
pub open spec fn run(file_id: u64, events: Seq<ResolveEventView>) -> Option<ResolveRun>
    decreases events.len(),
{
    if events.len() == 0 {
        Some(
            ResolveRun {
                resolver: Resolver { file_id, used: 0, phase: ResolvePhase::Posting },
                posts: 1,
                waited: 0,
                answer: None,
            },
        )
    } else {
        match run(file_id, events.drop_last()) {
            Some(before) => match before.resolver.next(events.last()) {
                Some((resolver, action)) => Some(
                    match action {
                        ResolveActionView::Post(_) => ResolveRun {
                            resolver,
                            posts: before.posts + 1,
                            ..before
                        },
                        ResolveActionView::Wait(secs) => ResolveRun {
                            resolver,
                            waited: before.waited + secs as nat,
                            ..before
                        },
                        ResolveActionView::ReadBody => ResolveRun { resolver, ..before },
                        ResolveActionView::Return(answer) => ResolveRun {
                            resolver,
                            answer: Some(answer),
                            ..before
                        },
                    },
                ),
                None => None,
            },
            None => None,
        }
    }
}

/// The longest that a search can have waited after `used` attempts, in seconds.
pub open spec fn longest_wait(used: nat) -> nat
    decreases used,
{
    if used == 0 {
        0
    } else {
        longest_wait((used - 1) as nat) + backoff_secs(((used - 1) % 3) as nat)
    }
}

/// Whatever the service does, a search makes at most six requests and waits for at most 28 seconds
/// in all. It has an answer exactly when it is over.
pub proof fn search_is_bounded(file_id: u64, events: Seq<ResolveEventView>)
    requires
        run(file_id, events) is Some,
    ensures
        ({
            let end = run(file_id, events)->0;
            &&& end.resolver.file_id == file_id
            &&& end.resolver.used <= MAX_ATTEMPTS
            &&& end.posts <= MAX_ATTEMPTS
            &&& end.waited <= 28
            &&& end.answer is Some <==> end.resolver.phase is Finished
        }),
    decreases events.len(),
{
    search_is_counted(file_id, events);
    assert(backoff_secs(0) == 2 && backoff_secs(1) == 4 && backoff_secs(2) == 8) by {
        reveal_with_fuel(backoff_secs, 3);
    }
    assert(longest_wait(0) == 0);
    assert(longest_wait(1) == 2);
    assert(longest_wait(2) == 6);
    assert(longest_wait(3) == 14);
    assert(longest_wait(4) == 16);
    assert(longest_wait(5) == 20);
    assert(longest_wait(6) == 28);
}

proof fn search_is_counted(file_id: u64, events: Seq<ResolveEventView>)
    requires
        run(file_id, events) is Some,
    ensures
        ({
            let end = run(file_id, events)->0;
            &&& end.resolver.file_id == file_id
            &&& end.resolver.used <= MAX_ATTEMPTS
            &&& (end.resolver.phase is Posting || end.resolver.phase is Reading)
                ==> end.resolver.used < MAX_ATTEMPTS && end.posts == end.resolver.used + 1
            &&& end.resolver.phase is Waiting ==> end.posts == end.resolver.used
            &&& end.posts <= MAX_ATTEMPTS
            &&& end.waited <= longest_wait(end.resolver.used as nat)
            &&& end.answer is Some <==> end.resolver.phase is Finished
        }),
    decreases events.len(),
{
    if events.len() > 0 {
        search_is_counted(file_id, events.drop_last());
        reveal_with_fuel(backoff_secs, 3);
    }
}

/// A link comes out of a search only as the last answer of the service: an encrypted one, which
/// decrypts to that link.
pub proof fn link_comes_from_the_service(
    file_id: u64,
    events: Seq<ResolveEventView>,
    link: Seq<char>,
)
    requires
        run(file_id, events) is Some,
        run(file_id, events)->0.answer == Some(Ok::<Seq<char>, Seq<char>>(link)),
    ensures
        events.len() > 0,
        events.last() matches ResolveEventView::Body(Ok(data)) && data.encrypted && decrypted(
            base64_decoded(data.url),
            data.timestamp,
        ) == Ok::<Seq<char>, Seq<char>>(link),
{
    search_is_counted(file_id, events.drop_last());
}

/// A finished search takes no more events.
pub proof fn finished_search_is_over(resolver: Resolver, event: ResolveEventView)
    requires
        resolver.phase is Finished,
    ensures
        resolver.next(event) is None,
{
}

/// The other endpoint is asked only after the first one was busy on its last attempt: from there,
/// anything but a busy or a successful answer ends the search with an error.
pub proof fn fallback_needs_a_busy_endpoint(resolver: Resolver, event: ResolveEventView)
    requires
        resolver.phase is Posting,
        resolver.on_last_attempt(),
        resolver.next(event) is Some,
        !(event matches ResolveEventView::Replied { code, status } && (code == 429 || is_success(
            code,
        ))),
    ensures
        ({
            let (after, action) = resolver.next(event)->0;
            &&& after == resolver.turned(ResolvePhase::Finished)
            &&& action matches ResolveActionView::Return(Err(_))
        }),
{
}

/// Whether an event says how a request went: it was answered, or it could not be made.
pub open spec fn is_outcome(event: ResolveEventView) -> bool {
    event is Replied || event is PostFailed
}

/// How the requests of a search went, in order.
pub open spec fn outcomes(events: Seq<ResolveEventView>) -> Seq<ResolveEventView> {
    events.filter(|e: ResolveEventView| is_outcome(e))
}

/// Whether the service said that it is busy.
pub open spec fn is_busy_reply(event: ResolveEventView) -> bool {
    event matches ResolveEventView::Replied { code, status } && code == 429
}

/// Whether the service answered with success.
pub open spec fn is_good_reply(event: ResolveEventView) -> bool {
    event matches ResolveEventView::Replied { code, status } && is_success(code)
}

/// Whether six requests were made, none with success, and the last one to each endpoint found it
/// busy.
pub open spec fn exhausted(outcomes: Seq<ResolveEventView>) -> bool {
    &&& outcomes.len() == MAX_ATTEMPTS
    &&& is_busy_reply(outcomes[2])
    &&& is_busy_reply(outcomes[5])
    &&& forall|k: int| 0 <= k < outcomes.len() ==> !is_good_reply(#[trigger] outcomes[k])
}

/// What the requests so far say about where a search stands.
spec fn stands_as(end: ResolveRun, seen: Seq<ResolveEventView>) -> bool {
    let used = end.resolver.used;
    let no_good = forall|k: int| 0 <= k < seen.len() ==> !is_good_reply(#[trigger] seen[k]);
    match end.resolver.phase {
        ResolvePhase::Posting => {
            &&& seen.len() == used
            &&& used < MAX_ATTEMPTS
            &&& no_good
            &&& used >= 3 ==> is_busy_reply(seen[2])
        },
        ResolvePhase::Waiting => {
            &&& seen.len() == used
            &&& used <= MAX_ATTEMPTS
            &&& no_good
            &&& used >= 3 ==> is_busy_reply(seen[2])
            &&& used >= MAX_ATTEMPTS ==> is_busy_reply(seen[5])
        },
        ResolvePhase::Reading => seen.len() > 0 && is_good_reply(seen.last()),
        ResolvePhase::Finished => {
            &&& end.answer is Some
            &&& end.answer->0 == Err::<Seq<char>, Seq<char>>("All API endpoints failed"@)
                <==> exhausted(seen)
        },
    }
}

proof fn errors_begin_differently(reason: Seq<char>)
    ensures
        "API HTTP "@ + reason != "All API endpoints failed"@,
        "API error: "@ + reason != "All API endpoints failed"@,
        "API parse: "@ + reason != "All API endpoints failed"@,
        "base64 error: "@ + reason != "All API endpoints failed"@,
        "utf8 error: "@ + reason != "All API endpoints failed"@,
        "API response not encrypted"@ != "All API endpoints failed"@,
{
    reveal_strlit("All API endpoints failed");
    reveal_strlit("API HTTP ");
    reveal_strlit("API error: ");
    reveal_strlit("API parse: ");
    reveal_strlit("base64 error: ");
    reveal_strlit("utf8 error: ");
    reveal_strlit("API response not encrypted");
    let all = "All API endpoints failed"@;
    assert(all[0] == 'A' && all[1] == 'l');
    assert(("API HTTP "@ + reason)[1] == 'P');
    assert(("API error: "@ + reason)[1] == 'P');
    assert(("API parse: "@ + reason)[1] == 'P');
    assert(("base64 error: "@ + reason)[0] == 'b');
    assert(("utf8 error: "@ + reason)[0] == 'u');
    assert("API response not encrypted"@[1] == 'P');
}

proof fn search_stands_as(file_id: u64, events: Seq<ResolveEventView>)
    requires
        run(file_id, events) is Some,
    ensures
        stands_as(run(file_id, events)->0, outcomes(events)),
    decreases events.len(),
{
    let keep = |e: ResolveEventView| is_outcome(e);
    if events.len() == 0 {
        reveal(Seq::filter);
    } else {
        let earlier = events.drop_last();
        let event = events.last();
        search_stands_as(file_id, earlier);
        earlier.lemma_filter_push(event, keep);
        assert(earlier.push(event) =~= events);
        let before = run(file_id, earlier)->0;
        let end = run(file_id, events)->0;
        let (old_seen, seen) = (outcomes(earlier), outcomes(events));
        match event {
            ResolveEventView::Replied { code, status } => {
                errors_begin_differently(status);
                assert(seen == old_seen.push(event));
                assert(seen[seen.len() - 1] == event);
            },
            ResolveEventView::PostFailed(e) => {
                errors_begin_differently(e);
                assert(seen == old_seen.push(event));
                assert(seen[seen.len() - 1] == event);
            },
            ResolveEventView::Woke => {
                assert(seen == old_seen);
            },
            ResolveEventView::Body(body) => {
                assert(seen == old_seen);
                assert(is_good_reply(seen[seen.len() - 1]));
                link_errors_differ(body);
            },
        }
    }
}

proof fn link_errors_differ(body: Result<ApiResponseView, Seq<char>>)
    ensures
        link_of(body) != Err::<Seq<char>, Seq<char>>("All API endpoints failed"@),
{
    errors_begin_differently(Seq::empty());
    match body {
        Ok(data) => {
            match base64_decoded(data.url) {
                Ok(bytes) => {
                    let plain = xor_cycle(bytes, key_bytes(data.timestamp));
                    errors_begin_differently(utf8_error_text(plain));
                },
                Err(e) => {
                    errors_begin_differently(e);
                },
            }
        },
        Err(e) => {
            errors_begin_differently(e);
        },
    }
}

/// A search that is over says that all endpoints failed exactly when no request had success and
/// both the third and the sixth found the service busy.
pub proof fn all_endpoints_failed_when_both_stayed_busy(
    file_id: u64,
    events: Seq<ResolveEventView>,
)
    requires
        run(file_id, events) is Some,
        run(file_id, events)->0.resolver.phase is Finished,
    ensures
        run(file_id, events)->0.answer == Some(
            Err::<Seq<char>, Seq<char>>("All API endpoints failed"@),
        ) <==> exhausted(outcomes(events)),
{
    search_stands_as(file_id, events);
}

/// The requests that a search makes over a run of events, in order.
pub open spec fn requests(file_id: u64, events: Seq<ResolveEventView>) -> Seq<ApiRequestView>
    decreases events.len(),
{
    if events.len() == 0 {
        seq![Resolver { file_id, used: 0, phase: ResolvePhase::Posting }.request()]
    } else {
        let before = requests(file_id, events.drop_last());
        match run(file_id, events.drop_last()) {
            Some(end) => match end.resolver.next(events.last()) {
                Some((_, ResolveActionView::Post(request))) => before.push(request),
                _ => before,
            },
            None => before,
        }
    }
}

/// Every request of a search asks for the file that it was begun for: its id, read as a numeral, is
/// the number of the file, and the page it names is that of the file. The first three requests go to
/// one endpoint, the others to the other, and there are six at most.
pub proof fn every_request_asks_for_the_file(
    file_id: u64,
    events: Seq<ResolveEventView>,
    k: int,
)
    requires
        run(file_id, events) is Some,
        0 <= k < requests(file_id, events).len(),
    ensures
        ({
            let request = requests(file_id, events)[k];
            &&& requests(file_id, events).len() <= 6
            &&& numeral_value(request.id) == file_id
            &&& forall|i: int| 0 <= i < request.id.len() ==> '0' <= #[trigger] request.id[i] <= '9'
            &&& file_id > 0 ==> request.id[0] != '0'
            &&& request.referer == "https://get.bunkrr.su/file/"@ + request.id
            &&& k < 3 ==> request.url == "https://get.bunkrr.su/api/_001_v2"@
            &&& k >= 3 ==> request.url == "https://apidl.bunkr.ru/api/_001_v2"@
        }),
{
    requests_are_counted(file_id, events);
    decimal_reads_back(file_id as nat);
    numerals_are_built_digit_by_digit(file_id as nat, 0);
}

proof fn requests_are_counted(file_id: u64, events: Seq<ResolveEventView>)
    requires
        run(file_id, events) is Some,
    ensures
        ({
            let made = requests(file_id, events);
            &&& made.len() == run(file_id, events)->0.posts
            &&& 0 < made.len() <= MAX_ATTEMPTS
            &&& forall|k: int|
                0 <= k < made.len() ==> #[trigger] made[k] == (Resolver {
                    file_id,
                    used: k as u8,
                    phase: ResolvePhase::Posting,
                }).request()
        }),
    decreases events.len(),
{
    search_is_counted(file_id, events);
    if events.len() > 0 {
        requests_are_counted(file_id, events.drop_last());
        search_is_counted(file_id, events.drop_last());
    }
}

/// Searches for different files make different requests.
pub proof fn requests_tell_files_apart(a: Resolver, b: Resolver)
    ensures
        a.request().id == b.request().id <==> a.file_id == b.file_id,
        a.file_id != b.file_id ==> a.request().referer != b.request().referer,
{
    numerals_tell_numbers_apart(a.file_id as nat, b.file_id as nat);
    let page = "https://get.bunkrr.su/file/"@;
    if a.request().referer == b.request().referer {
        assert(a.request().referer.skip(page.len() as int) =~= decimal(a.file_id as nat));
        assert(b.request().referer.skip(page.len() as int) =~= decimal(b.file_id as nat));
    }
}

/// What comes of a request, where `n` others have come to nothing before it. A busy service is left
/// alone for two seconds after the first of three attempts, four after the second and eight after
/// the third; a good answer is read; and where the service refuses or cannot be reached, the third
/// attempt ends the search with the reason, and any other is repeated, at once or after a second.
pub proof fn outcome_decides_how_a_search_goes_on(
    file_id: u64,
    events: Seq<ResolveEventView>,
    event: ResolveEventView,
)
    requires
        run(file_id, events) is Some,
        run(file_id, events)->0.resolver.phase is Posting,
        event is Replied || event is PostFailed,
    ensures
        ({
            let n = outcomes(events).len();
            let resolver = run(file_id, events)->0.resolver;
            &&& n < 6
            &&& resolver.next(event) matches Some((after, action)) && match event {
                ResolveEventView::Replied { code, status } => {
                    if code == 429 {
                        action == ResolveActionView::Wait(
                            if n % 3 == 0 {
                                2
                            } else if n % 3 == 1 {
                                4
                            } else {
                                8
                            },
                        )
                    } else if 200 <= code && code < 300 {
                        action is ReadBody
                    } else if n % 3 == 2 {
                        action == ResolveActionView::Return(Err("API HTTP "@ + status))
                    } else {
                        action is Post
                    }
                },
                ResolveEventView::PostFailed(e) => action == if n % 3 == 2 {
                    ResolveActionView::Return(Err("API error: "@ + e))
                } else {
                    ResolveActionView::Wait(1)
                },
                _ => true,
            }
        }),
{
    search_stands_as(file_id, events);
    reveal_with_fuel(backoff_secs, 3);
}

/// After a pause the service is asked again, unless it has been asked six times.
pub proof fn pause_ends_with_a_request(file_id: u64, events: Seq<ResolveEventView>)
    requires
        run(file_id, events) is Some,
        run(file_id, events)->0.resolver.phase is Waiting,
    ensures
        ({
            let resolver = run(file_id, events)->0.resolver;
            resolver.next(ResolveEventView::Woke) matches Some((after, action)) && {
                if outcomes(events).len() < 6 {
                    action is Post && after.phase is Posting
                } else {
                    action == ResolveActionView::Return(Err("All API endpoints failed"@))
                }
            }
        }),
{
    search_stands_as(file_id, events);
}

/// A body that was read ends the search: with the link in it, or with what is wrong with it.
pub proof fn body_ends_the_search(resolver: Resolver, data: ApiResponseView, reason: Seq<char>)
    requires
        resolver.phase is Reading,
    ensures
        resolver.next(ResolveEventView::Body(Err(reason))) == Some(
            (
                Resolver { phase: ResolvePhase::Finished, ..resolver },
                ResolveActionView::Return(Err("API parse: "@ + reason)),
            ),
        ),
        !data.encrypted ==> resolver.next(ResolveEventView::Body(Ok(data))) == Some(
            (
                Resolver { phase: ResolvePhase::Finished, ..resolver },
                ResolveActionView::Return(Err("API response not encrypted"@)),
            ),
        ),
        data.encrypted ==> resolver.next(ResolveEventView::Body(Ok(data))) == Some(
            (
                Resolver { phase: ResolvePhase::Finished, ..resolver },
                ResolveActionView::Return(decrypted(base64_decoded(data.url), data.timestamp)),
            ),
        ),
{
}

/// What a resolver waits for is what it asked to be done, and it takes nothing else. The file that
/// it searches for never changes.
pub proof fn resolver_waits_for_what_it_asked_for(resolver: Resolver, event: ResolveEventView)
    requires
        resolver.used < 6 || resolver.phase is Waiting || resolver.phase is Reading,
    ensures
        resolver.next(event) is Some <==> match event {
            ResolveEventView::Replied { code, status } => resolver.phase is Posting,
            ResolveEventView::PostFailed(_) => resolver.phase is Posting,
            ResolveEventView::Woke => resolver.phase is Waiting,
            ResolveEventView::Body(_) => resolver.phase is Reading,
        },
        resolver.next(event) matches Some((after, action)) ==> {
            &&& after.file_id == resolver.file_id
            &&& after.phase is Posting <==> action is Post
            &&& after.phase is Waiting <==> action is Wait
            &&& after.phase is Reading <==> action is ReadBody
            &&& after.phase is Finished <==> action is Return
        },
{
}

/// The addresses of the service belong together: the page of a file lies under the page that
/// downloads name as their referrer, and that page, the origin and the first endpoint are on one
/// host.
pub proof fn addresses_of_the_service_belong_together(resolver: Resolver)
    ensures
        DOWNLOAD_REFERER@ == API_ORIGIN@ + "/"@,
        PRIMARY_API@ == API_ORIGIN@ + "/api/_001_v2"@,
        (DOWNLOAD_REFERER@ + "file/"@).is_prefix_of(resolver.request().referer),
        API_ORIGIN@ == "https://get.bunkrr.su"@,
{
    reveal_strlit("https://get.bunkrr.su");
    reveal_strlit("https://get.bunkrr.su/");
    reveal_strlit("/");
    reveal_strlit("https://get.bunkrr.su/api/_001_v2");
    reveal_strlit("/api/_001_v2");
    reveal_strlit("file/");
    reveal_strlit("https://get.bunkrr.su/file/");
    assert("https://get.bunkrr.su/"@ =~= "https://get.bunkrr.su"@ + "/"@);
    assert("https://get.bunkrr.su/api/_001_v2"@ =~= "https://get.bunkrr.su"@ + "/api/_001_v2"@);
    assert("https://get.bunkrr.su/file/"@ =~= "https://get.bunkrr.su/"@ + "file/"@);
    let referer = resolver.request().referer;
    assert("https://get.bunkrr.su/file/"@ =~= referer.subrange(
        0,
        "https://get.bunkrr.su/file/"@.len() as int,
    ));
}

/// The views of requests, of what happens to them and of what is wanted done show every part of them
/// as it is.
pub proof fn views_of_searches_show_every_part(
    request: ApiRequest,
    event: ResolveEvent,
    action: ResolveAction,
)
    ensures
        request@.url == request.url@ && request@.referer == request.referer@ && request@.id
            == request.id@,
        match event {
            ResolveEvent::Replied { code, status } => event@ == ResolveEventView::Replied {
                code,
                status: status@,
            },
            ResolveEvent::PostFailed(e) => event@ == ResolveEventView::PostFailed(e@),
            ResolveEvent::Woke => event@ is Woke,
            ResolveEvent::Body(Ok(data)) => event@ == ResolveEventView::Body(Ok(data@)),
            ResolveEvent::Body(Err(e)) => event@ == ResolveEventView::Body(Err(e@)),
        },
        match action {
            ResolveAction::Post(r) => action@ == ResolveActionView::Post(r@),
            ResolveAction::Wait(secs) => action@ == ResolveActionView::Wait(secs),
            ResolveAction::ReadBody => action@ is ReadBody,
            ResolveAction::Return(Ok(link)) => action@ == ResolveActionView::Return(Ok(link@)),
            ResolveAction::Return(Err(e)) => action@ == ResolveActionView::Return(Err(e@)),
        },
{
}

} // verus!

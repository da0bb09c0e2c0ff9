use base64::Engine;
use bunkr_dl::model::ApiResponse;
use bunkr_dl::resolve::{
    ApiRequest, ResolveAction, ResolveEvent, ResolvePhase, Resolver, FALLBACK_API, PRIMARY_API,
};

fn reply(code: u16, status: &str) -> ResolveEvent {
    ResolveEvent::Replied { code, status: status.to_string() }
}

fn answer(encrypted: bool, url: &str) -> ResolveEvent {
    ResolveEvent::Body(Ok(ApiResponse { encrypted, timestamp: 0, url: url.to_string() }))
}

fn posted(action: Option<ResolveAction>) -> ApiRequest {
    match action {
        Some(ResolveAction::Post(request)) => request,
        other => panic!("{:?}", other),
    }
}

fn waited(action: Option<ResolveAction>) -> u64 {
    match action {
        Some(ResolveAction::Wait(secs)) => secs,
        other => panic!("{:?}", other),
    }
}

fn returned(action: Option<ResolveAction>) -> Result<String, String> {
    match action {
        Some(ResolveAction::Return(answer)) => answer,
        other => panic!("{:?}", other),
    }
}

#[test]
fn first_request_names_the_file() {
    let (resolver, request) = Resolver::begin(42);
    assert_eq!(resolver.phase, ResolvePhase::Posting);
    assert_eq!(request.url, "https://get.bunkrr.su/api/_001_v2");
    assert_eq!(request.referer, "https://get.bunkrr.su/file/42");
    assert_eq!(request.id, "42");
}

#[test]
fn encrypted_answer_gives_the_link() {
    let (mut resolver, _) = Resolver::begin(1);
    assert!(matches!(resolver.step(reply(200, "200 OK")), Some(ResolveAction::ReadBody)));
    let text = base64::engine::general_purpose::STANDARD.encode([b'h' ^ b'S', b'i' ^ b'E']);
    assert_eq!(returned(resolver.step(answer(true, &text))), Ok("hi".to_string()));
    assert_eq!(resolver.phase, ResolvePhase::Finished);
}

#[test]
fn other_bodies_are_errors() {
    let (mut resolver, _) = Resolver::begin(1);
    resolver.step(reply(299, "299"));
    assert_eq!(
        returned(resolver.step(answer(false, "https://x"))),
        Err("API response not encrypted".to_string())
    );
    let (mut resolver, _) = Resolver::begin(1);
    resolver.step(reply(204, "204 No Content"));
    assert_eq!(
        returned(resolver.step(ResolveEvent::Body(Err("eof".to_string())))),
        Err("API parse: eof".to_string())
    );
}

#[test]
fn busy_endpoints_are_left_alone_longer_and_longer() {
    let (mut resolver, first) = Resolver::begin(9);
    assert_eq!(first.url, PRIMARY_API);
    let mut total = 0;
    let mut posts = 1;
    for (secs, next) in [
        (2, Some(PRIMARY_API)),
        (4, Some(PRIMARY_API)),
        (8, Some(FALLBACK_API)),
        (2, Some(FALLBACK_API)),
        (4, Some(FALLBACK_API)),
        (8, None),
    ] {
        let wait = waited(resolver.step(reply(429, "429 Too Many Requests")));
        assert_eq!(wait, secs);
        total += wait;
        let action = resolver.step(ResolveEvent::Woke);
        match next {
            Some(url) => {
                assert_eq!(posted(action).url, url);
                posts += 1;
            }
            None => assert_eq!(returned(action), Err("All API endpoints failed".to_string())),
        }
    }
    assert_eq!(total, 28);
    assert_eq!(posts, 6);
}

#[test]
fn refusals_are_tried_again_at_once() {
    let (mut resolver, _) = Resolver::begin(9);
    assert_eq!(posted(resolver.step(reply(500, "500"))).url, PRIMARY_API);
    assert_eq!(posted(resolver.step(reply(404, "404 Not Found"))).url, PRIMARY_API);
    assert_eq!(
        returned(resolver.step(reply(404, "404 Not Found"))),
        Err("API HTTP 404 Not Found".to_string())
    );
}

#[test]
fn unreachable_endpoint_is_tried_again_after_a_second() {
    let (mut resolver, _) = Resolver::begin(9);
    let failed = || ResolveEvent::PostFailed("timeout".to_string());
    assert_eq!(waited(resolver.step(failed())), 1);
    posted(resolver.step(ResolveEvent::Woke));
    assert_eq!(waited(resolver.step(failed())), 1);
    posted(resolver.step(ResolveEvent::Woke));
    assert_eq!(returned(resolver.step(failed())), Err("API error: timeout".to_string()));
}

#[test]
fn refusal_by_the_fallback_ends_the_search() {
    let (mut resolver, _) = Resolver::begin(9);
    for _ in 0..3 {
        waited(resolver.step(reply(429, "429")));
        posted(resolver.step(ResolveEvent::Woke));
    }
    assert_eq!(posted(resolver.step(reply(503, "503"))).url, FALLBACK_API);
    assert_eq!(posted(resolver.step(reply(503, "503"))).url, FALLBACK_API);
    assert_eq!(returned(resolver.step(reply(503, "503"))), Err("API HTTP 503".to_string()));
}

#[test]
fn misplaced_events_are_refused() {
    let (mut resolver, _) = Resolver::begin(9);
    let start = resolver;
    assert!(resolver.step(ResolveEvent::Woke).is_none());
    assert!(resolver.step(answer(true, "")).is_none());
    assert_eq!(resolver, start);
    resolver.step(reply(200, "200 OK"));
    assert!(resolver.step(reply(200, "200 OK")).is_none());
    resolver.step(answer(false, ""));
    assert!(resolver.step(ResolveEvent::Woke).is_none());
    assert!(resolver.step(ResolveEvent::PostFailed(String::new())).is_none());
    assert!(resolver.step(answer(true, "")).is_none());
    assert_eq!(resolver.phase, ResolvePhase::Finished);
}

/// Feeds a search the outcome of each request, a status code or 0 for one that could not be made,
/// and gives its answer.
fn search(outcomes: &[u16]) -> Result<String, String> {
    let (mut resolver, _) = Resolver::begin(1);
    for code in outcomes {
        let mut action = if *code == 0 {
            resolver.step(ResolveEvent::PostFailed("down".to_string()))
        } else {
            resolver.step(reply(*code, "said"))
        };
        if matches!(action, Some(ResolveAction::Wait(_))) {
            action = resolver.step(ResolveEvent::Woke);
        }
        match action {
            Some(ResolveAction::Post(_)) => {}
            Some(ResolveAction::ReadBody) => return returned(resolver.step(answer(false, ""))),
            other => return returned(other),
        }
    }
    panic!("the search goes on");
}

#[test]
fn all_endpoints_failed_when_both_stayed_busy() {
    let all = Err("All API endpoints failed".to_string());
    assert_eq!(search(&[429, 429, 429, 429, 429, 429]), all);
    assert_eq!(search(&[500, 0, 429, 0, 404, 429]), all);
    for third in [0u16, 200, 429, 500] {
        for sixth in [0u16, 200, 429, 500] {
            let answer = search(&[0, 500, third, 500, 429, sixth]);
            assert_eq!(answer == all, third == 429 && sixth == 429);
        }
    }
    assert_eq!(search(&[429, 429, 429, 429, 429, 500]), Err("API HTTP said".to_string()));
    assert_eq!(search(&[429, 429, 0]), Err("API error: down".to_string()));
    assert_eq!(search(&[429, 204]), Err("API response not encrypted".to_string()));
}

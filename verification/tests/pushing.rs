use pypi_index::publish_rabbit::{next_delay, ready_event, FIRST_DELAY, PYPI_PUBLISH_EXCHANGE};
use pypi_index::push_consumer::{
    backoff_secs, check_present, event_filename, filename_or_error, next_step, plan_push, settle, EventError, NextStep,
    PushError, Settlement, BINDING_KEY, MAX_ATTEMPTS, QUEUE_NAME, RECONNECT_DELAY,
};

#[test]
fn names_on_the_broker() {
    assert_eq!(PYPI_PUBLISH_EXCHANGE, "pypi.publish");
    assert_eq!(QUEUE_NAME, "pypi.publish.push-to-pypi");
    assert_eq!(BINDING_KEY, "pypi.publish.#");
    assert_eq!(RECONNECT_DELAY, 5);
}

#[test]
fn events_are_json() {
    let e = ready_event("my/pkg", "a-1.whl");
    assert_eq!(e.routing_key, "pypi.publish.my.pkg");
    let value: serde_json::Value = serde_json::from_str(&e.body).unwrap();
    assert_eq!(value["event"], "pypi_package_published");
    assert_eq!(value["project"], "my/pkg");
    assert_eq!(value["filename"], "a-1.whl");
    assert_eq!(value.as_object().unwrap().len(), 3);
}

#[test]
fn events_read_back() {
    for name in ["a-1.whl", "", "quote\"d \\ \n\u{1}ü\u{10000}"] {
        let e = ready_event("p", name);
        assert_eq!(event_filename(e.body.as_bytes()).ok().as_deref(), Some(name));
    }
}

#[test]
fn messages_without_a_file() {
    assert!(matches!(event_filename(b"not json"), Err(EventError::Malformed(_))));
    assert!(matches!(event_filename(&[0xff]), Err(EventError::Malformed(_))));
    assert!(!event_filename(b"{").unwrap_err().message().is_empty());
    for body in ["{}", "[]", "\"x\"", "{\"filename\": 1}", "{\"name\": \"x\"}", "null"] {
        let e = event_filename(body.as_bytes()).unwrap_err();
        assert!(matches!(e, EventError::NoFilename));
        assert_eq!(e.message(), "event missing 'filename'");
    }
    assert_eq!(event_filename(b" {\"filename\": \"a\", \"x\": [1]} ").ok().as_deref(), Some("a"));
    assert!(filename_or_error(None).is_err());
}

#[test]
fn attempts_and_waits() {
    let mut attempt: u32 = 1;
    let mut waits: Vec<u64> = Vec::new();
    loop {
        match next_step(attempt, false) {
            NextStep::Retry { after_secs, attempt: next } => {
                waits.push(after_secs);
                attempt = next;
            }
            step => {
                assert_eq!(step, NextStep::GiveUp);
                break;
            }
        }
    }
    assert_eq!(attempt, MAX_ATTEMPTS);
    assert_eq!(waits, [2, 4, 8, 16]);
    assert_eq!(next_step(1, true), NextStep::Finish);
    assert_eq!(next_step(5, true), NextStep::Finish);
    assert_eq!(next_step(u32::MAX, false), NextStep::GiveUp);
}

#[test]
fn one_success_in_five_is_enough() {
    for success in 1..=6u32 {
        let mut attempt: u32 = 1;
        let pushed = loop {
            match next_step(attempt, attempt == success) {
                NextStep::Finish => break true,
                NextStep::GiveUp => break false,
                NextStep::Retry { attempt: next, .. } => attempt = next,
            }
        };
        assert_eq!(pushed, success <= 5);
        assert_eq!(attempt, success.min(5));
    }
}

#[test]
fn backoff_doubles_up_to_five_times() {
    let got: Vec<u64> = (0..8).map(backoff_secs).collect();
    assert_eq!(got, [1, 2, 4, 8, 16, 32, 32, 32]);
}

#[test]
fn waits_for_the_broker() {
    let mut delay = FIRST_DELAY;
    let mut got: Vec<u64> = vec![delay];
    for _ in 0..7 {
        delay = next_delay(delay);
        got.push(delay);
    }
    assert_eq!(got, [1, 2, 4, 8, 16, 30, 30, 30]);
    assert_eq!(next_delay(u64::MAX), 30);
}

#[test]
fn messages_are_never_put_back() {
    assert_eq!(settle(true), Settlement::Ack);
    assert_eq!(settle(false), Settlement::Nack { requeue: false });
}

#[test]
fn plans() {
    let p = plan_push("a-1.whl", "/data/packages", None, None, Some("pw".to_string())).unwrap();
    assert_eq!(p.path, "/data/packages/a-1.whl");
    assert_eq!(p.repository_url, "https://upload.pypi.org/legacy/");
    assert_eq!(p.username, "__token__");
    assert_eq!(p.password, "pw");
    let p = plan_push("a", "d/", Some("u".to_string()), Some("n".to_string()), Some(String::new())).unwrap();
    assert_eq!((p.path.as_str(), p.repository_url.as_str(), p.username.as_str()), ("d/a", "u", "n"));
}

#[test]
fn files_that_are_not_pushed() {
    let e = plan_push("a/b", "/d", None, None, None).unwrap_err();
    assert!(matches!(e, PushError::NoPassword));
    assert_eq!(e.message(), "TWINE_PASSWORD not set, cannot push to public index");
    for name in ["a/b", "a\\b"] {
        let e = plan_push(name, "/d", None, None, Some("pw".to_string())).unwrap_err();
        assert!(matches!(e, PushError::Separator(_)));
        assert_eq!(e.message(), format!("refusing to push filename containing a path separator: {}", name));
    }
    let e = check_present("a", false).unwrap_err();
    assert!(matches!(e, PushError::Missing(_)));
    assert_eq!(e.message(), "distribution file 'a' missing on disk");
    assert!(check_present("a", true).is_ok());
}

use guest_cache::history;
use guest_cache::mediator::{ask, get_or_fetch, resume, Action, Event, Phase, Policy, Session};
use guest_cache::ttl;

const FILE: &str = "./data.json";
const URL: &str = "http://localhost:8888/config.json";

fn chat(phase: Phase) -> Session {
    Session {
        file_path: String::from(FILE),
        policy: Policy::History { model: String::from("mistral"), prompt: String::from("hi") },
        phase,
    }
}

fn web(now: u64, phase: Phase) -> Session {
    Session {
        file_path: String::from(FILE),
        policy: Policy::Expiry { key: String::from(URL), current_time: now },
        phase,
    }
}

fn log(entries: &[(&str, &str, &str, Vec<u64>)]) -> String {
    let mut cache = history::FileCache::new(FILE);
    for (model, prompt, response, context) in entries {
        cache.add_response(model, prompt, response, context);
    }
    cache.save_cache().unwrap()
}

fn bodies(entries: &[(&str, &str, Option<u64>)]) -> String {
    let mut cache = ttl::FileCache::new(FILE);
    for (key, body, expiry) in entries {
        cache.add_response(key, body, *expiry, None, None);
    }
    cache.save_cache().unwrap()
}

fn assert_closed_without_answer(step: (Session, Action)) {
    assert!(matches!(step.0.phase, Phase::Finished));
    assert!(matches!(step.1, Action::Return(None)));
}

#[test]
fn asking_begins_with_reading_the_file() {
    let (session, action) = ask(String::from(FILE), String::from("mistral"), String::from("hi"));
    assert_eq!(session.file_path, FILE);
    assert!(matches!(session.phase, Phase::Looking));
    match session.policy {
        Policy::History { model, prompt } => {
            assert_eq!(model, "mistral");
            assert_eq!(prompt, "hi");
        },
        _ => panic!("a prompt is answered from the log"),
    }
    match action {
        Action::ReadFromFile { file_name } => assert_eq!(file_name, FILE),
        _ => panic!("the file is read first"),
    }
}

#[test]
fn fetching_begins_with_reading_the_file() {
    let (session, action) = get_or_fetch(String::from(FILE), String::from(URL), 1000);
    assert_eq!(session.file_path, FILE);
    assert!(matches!(session.phase, Phase::Looking));
    match session.policy {
        Policy::Expiry { key, current_time } => {
            assert_eq!(key, URL);
            assert_eq!(current_time, 1000);
        },
        _ => panic!("a key is answered by its entry"),
    }
    match action {
        Action::ReadFromFile { file_name } => assert_eq!(file_name, FILE),
        _ => panic!("the file is read first"),
    }
}

#[test]
fn cached_answer_is_returned_without_asking() {
    let contents = log(&[("Mistral", "oh hi there", "hello!", vec![1])]);
    let (session, action) = resume(chat(Phase::Looking), Event::Contents(contents));
    assert!(matches!(session.phase, Phase::Finished));
    match action {
        Action::Return(answer) => assert_eq!(answer, Some(String::from("hello!"))),
        _ => panic!("the cached answer is returned"),
    }
}

#[test]
fn miss_asks_the_model_with_its_latest_context() {
    let contents = log(&[
        ("mistral", "first", "1", vec![1, 2]),
        ("llama", "hi", "wrong model", vec![9]),
        ("MISTRAL", "second", "2", vec![3, 4]),
        ("llama", "third", "3", vec![5]),
    ]);
    let (session, action) = resume(chat(Phase::Looking), Event::Contents(contents));
    assert!(matches!(session.phase, Phase::Fetching));
    assert_eq!(session.file_path, FILE);
    match action {
        Action::AskModel { model, prompt, context } => {
            assert_eq!(model, "mistral");
            assert_eq!(prompt, "hi");
            assert_eq!(context, vec![3, 4]);
        },
        _ => panic!("the model is asked"),
    }
}

#[test]
fn miss_on_an_unreadable_file_asks_with_empty_context() {
    for contents in ["", "garbage", "{\"entries\":3}"] {
        let (session, action) = resume(chat(Phase::Looking), Event::Contents(String::from(contents)));
        assert!(matches!(session.phase, Phase::Fetching));
        match action {
            Action::AskModel { model, prompt, context } => {
                assert_eq!(model, "mistral");
                assert_eq!(prompt, "hi");
                assert!(context.is_empty());
            },
            _ => panic!("the model is asked"),
        }
    }
}

#[test]
fn failed_asking_returns_nothing() {
    assert_closed_without_answer(resume(chat(Phase::Fetching), Event::Fetched(None)));
}

#[test]
fn stream_is_decoded_before_the_file_is_read_again() {
    let raw = String::from("{\"response\":\"Hel\"}\n{\"response\":\"lo\"}\n{\"done\":true,\"context\":[1,2,3]}\n");
    let (session, action) = resume(chat(Phase::Fetching), Event::Fetched(Some(raw)));
    match session.phase {
        Phase::Recording { answer, context } => {
            assert_eq!(answer, "Hello");
            assert_eq!(context, vec![1, 2, 3]);
        },
        _ => panic!("the answer is to be recorded"),
    }
    match action {
        Action::ReadFromFile { file_name } => assert_eq!(file_name, FILE),
        _ => panic!("the file is read again"),
    }
}

#[test]
fn decoded_answer_is_appended_and_written() {
    let contents = log(&[("llama", "old", "kept", vec![7])]);
    let phase = Phase::Recording { answer: String::from("Hello"), context: vec![1, 2, 3] };
    let (session, action) = resume(chat(phase), Event::Contents(contents));
    match session.phase {
        Phase::Writing { answer } => assert_eq!(answer, "Hello"),
        _ => panic!("the file is to be written"),
    }
    match action {
        Action::WriteToFile { data, file_name } => {
            assert_eq!(file_name, FILE);
            assert_eq!(
                data,
                log(&[("llama", "old", "kept", vec![7]), ("mistral", "hi", "Hello", vec![1, 2, 3])])
            );
        },
        _ => panic!("the file is written"),
    }
}

#[test]
fn answer_is_returned_after_the_write() {
    let phase = Phase::Writing { answer: String::from("Hello") };
    let (session, action) = resume(chat(phase), Event::Written);
    assert!(matches!(session.phase, Phase::Finished));
    match action {
        Action::Return(answer) => assert_eq!(answer, Some(String::from("Hello"))),
        _ => panic!("the answer is returned"),
    }
}

#[test]
fn fresh_body_is_returned_without_fetching() {
    let contents = bodies(&[(URL, "{}", Some(1000))]);
    let (session, action) = resume(web(1000, Phase::Looking), Event::Contents(contents));
    assert!(matches!(session.phase, Phase::Finished));
    match action {
        Action::Return(body) => assert_eq!(body, Some(String::from("{}"))),
        _ => panic!("the cached body is returned"),
    }
}

#[test]
fn stale_body_is_fetched_again() {
    let contents = bodies(&[(URL, "{}", Some(1000))]);
    let (session, action) = resume(web(1001, Phase::Looking), Event::Contents(contents));
    assert!(matches!(session.phase, Phase::Fetching));
    match action {
        Action::ManualGet { url } => assert_eq!(url, URL),
        _ => panic!("the body is fetched"),
    }
}

#[test]
fn missing_key_is_fetched() {
    for contents in [bodies(&[("http://other", "x", None)]), String::new(), String::from("][")] {
        let (session, action) = resume(web(0, Phase::Looking), Event::Contents(contents));
        assert!(matches!(session.phase, Phase::Fetching));
        match action {
            Action::ManualGet { url } => assert_eq!(url, URL),
            _ => panic!("the body is fetched"),
        }
    }
}

#[test]
fn failed_fetch_returns_nothing() {
    assert_closed_without_answer(resume(web(0, Phase::Fetching), Event::Fetched(None)));
}

#[test]
fn fetched_body_is_kept_as_it_is() {
    let sent = String::from("{\"response\":\"not decoded\"}\n");
    let (session, action) = resume(web(0, Phase::Fetching), Event::Fetched(Some(sent.clone())));
    match session.phase {
        Phase::Recording { answer, context } => {
            assert_eq!(answer, sent);
            assert!(context.is_empty());
        },
        _ => panic!("the body is to be stored"),
    }
    match action {
        Action::ReadFromFile { file_name } => assert_eq!(file_name, FILE),
        _ => panic!("the file is read again"),
    }
}

#[test]
fn fetched_body_is_stored_without_expiry_and_written() {
    let contents = bodies(&[("http://other", "x", Some(5)), (URL, "old", Some(1))]);
    let phase = Phase::Recording { answer: String::from("new"), context: vec![] };
    let (session, action) = resume(web(1000, phase), Event::Contents(contents));
    match session.phase {
        Phase::Writing { answer } => assert_eq!(answer, "new"),
        _ => panic!("the file is to be written"),
    }
    match action {
        Action::WriteToFile { data, file_name } => {
            assert_eq!(file_name, FILE);
            let mut cache = ttl::FileCache::new(FILE);
            cache.load_cache(&data);
            assert_eq!(cache.get_response(URL, u64::MAX), Some(String::from("new")));
            assert_eq!(cache.get_response("http://other", 5), Some(String::from("x")));
            assert_eq!(cache.get_response("http://other", 6), None);
            assert_eq!(data, bodies(&[("http://other", "x", Some(5)), (URL, "new", None)]));
        },
        _ => panic!("the file is written"),
    }
}

#[test]
fn body_is_returned_after_the_write() {
    let phase = Phase::Writing { answer: String::from("new") };
    let (session, action) = resume(web(0, phase), Event::Written);
    assert!(matches!(session.phase, Phase::Finished));
    match action {
        Action::Return(body) => assert_eq!(body, Some(String::from("new"))),
        _ => panic!("the body is returned"),
    }
}

#[test]
fn unexpected_event_closes_the_request() {
    assert_closed_without_answer(resume(chat(Phase::Looking), Event::Written));
    assert_closed_without_answer(resume(chat(Phase::Looking), Event::Fetched(Some(String::from("x")))));
    assert_closed_without_answer(resume(chat(Phase::Fetching), Event::Contents(String::new())));
    assert_closed_without_answer(resume(web(0, Phase::Fetching), Event::Written));
    assert_closed_without_answer(resume(
        web(0, Phase::Recording { answer: String::from("a"), context: vec![] }),
        Event::Written,
    ));
    assert_closed_without_answer(resume(
        web(0, Phase::Writing { answer: String::from("a") }),
        Event::Contents(String::new()),
    ));
    assert_closed_without_answer(resume(chat(Phase::Finished), Event::Fetched(Some(String::from("x")))));
    assert_closed_without_answer(resume(web(0, Phase::Finished), Event::Contents(String::new())));
}

#[test]
fn whole_question_against_a_file_held_in_memory() {
    let mut file = String::new();
    let mut asked = 0;
    for _ in 0..2 {
        let (mut session, mut action) = ask(String::from(FILE), String::from("mistral"), String::from("hi"));
        let answer = loop {
            let event = match action {
                Action::ReadFromFile { .. } => Event::Contents(file.clone()),
                Action::AskModel { context, .. } => {
                    asked += 1;
                    assert!(context.is_empty());
                    Event::Fetched(Some(String::from("{\"response\":\"yo\"}\n{\"done\":true,\"context\":[4]}\n")))
                },
                Action::ManualGet { .. } => panic!("a prompt is not fetched by address"),
                Action::WriteToFile { data, .. } => {
                    file = data;
                    Event::Written
                },
                Action::Return(answer) => break answer,
            };
            let next = resume(session, event);
            session = next.0;
            action = next.1;
        };
        assert_eq!(answer, Some(String::from("yo")));
    }
    assert_eq!(asked, 1);
    let mut cache = history::FileCache::new(FILE);
    cache.load_cache(&file);
    assert_eq!(cache.get_latest_context("mistral"), Some(vec![4]));
}

#[test]
fn whole_fetch_against_a_file_held_in_memory() {
    let mut file = String::from("corrupt");
    let mut fetched = 0;
    for _ in 0..3 {
        let (mut session, mut action) = get_or_fetch(String::from(FILE), String::from(URL), 1000);
        let body = loop {
            let event = match action {
                Action::ReadFromFile { .. } => Event::Contents(file.clone()),
                Action::ManualGet { url } => {
                    fetched += 1;
                    Event::Fetched(Some(format!("body of {}", url)))
                },
                Action::AskModel { .. } => panic!("a key is not asked of a model"),
                Action::WriteToFile { data, .. } => {
                    file = data;
                    Event::Written
                },
                Action::Return(body) => break body,
            };
            let next = resume(session, event);
            session = next.0;
            action = next.1;
        };
        assert_eq!(body, Some(format!("body of {}", URL)));
    }
    assert_eq!(fetched, 1);
}

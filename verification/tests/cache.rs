use openml::cache::{cache_path, url_to_file};
use openml::fetch::{Fetch, Operation, Outcome};

#[test]
fn it_works() {
    assert_eq!(2 + 2, 4);
}

#[test]
fn file_name_replaces_slashes_and_drops_colons() {
    assert_eq!(
        url_to_file("https://www.openml.org/api/v1/json/task/166850"),
        "https__www.openml.org_api_v1_json_task_166850"
    );
}

#[test]
fn file_name_of_plain_text_is_the_text() {
    assert_eq!(url_to_file("abc"), "abc");
    assert_eq!(url_to_file(""), "");
}

#[test]
fn file_name_of_separators_only() {
    assert_eq!(url_to_file("::"), "");
    assert_eq!(url_to_file("//"), "__");
    assert_eq!(url_to_file("a:/b"), "a_b");
}

#[test]
fn file_name_holds_no_separator() {
    let name = url_to_file("http://host:8080/a/b:c");
    assert!(!name.contains('/'));
    assert!(!name.contains(':'));
    assert_eq!(name, "http__host8080_a_bc");
}

#[test]
fn cache_path_is_below_the_root() {
    assert_eq!(cache_path("cache/", "https://x/y"), "cache/https__x_y");
}

#[test]
fn fetch_reads_a_file_that_is_there() {
    let f = Fetch::new();
    assert_eq!(f.operation(), Some(Operation::Open));
    let f = f.step(Outcome::Succeeded);
    assert_eq!(f.operation(), Some(Operation::LockShared));
    let f = f.step(Outcome::Succeeded);
    assert_eq!(f.operation(), Some(Operation::Read));
    let f = f.step(Outcome::Data("body".to_string()));
    assert_eq!(f.operation(), None);
    assert!(matches!(f, Fetch::Done(ref text) if text == "body"));
    assert_eq!(f.document().map(|s| s.as_str()), Some("body"));
}

#[test]
fn fetch_downloads_what_is_not_there() {
    let f = Fetch::new().step(Outcome::Failed);
    assert_eq!(f.operation(), Some(Operation::Create));
    let f = f.step(Outcome::Succeeded);
    assert_eq!(f.operation(), Some(Operation::LockExclusive));
    let f = f.step(Outcome::Succeeded);
    assert_eq!(f.operation(), Some(Operation::Download));
    let f = f.step(Outcome::Data("fresh".to_string()));
    assert_eq!(f.operation(), Some(Operation::Write));
    assert_eq!(f.document().map(|s| s.as_str()), Some("fresh"));
    let f = f.step(Outcome::Succeeded);
    assert!(matches!(f, Fetch::Done(ref text) if text == "fresh"));
}

#[test]
fn fetch_opens_again_when_another_writer_was_first() {
    let f = Fetch::new().step(Outcome::Failed).step(Outcome::Exists);
    assert!(matches!(f, Fetch::Opening));
    let f = f.step(Outcome::Succeeded).step(Outcome::Succeeded);
    let f = f.step(Outcome::Data("theirs".to_string()));
    assert!(matches!(f, Fetch::Done(ref text) if text == "theirs"));
}

#[test]
fn fetch_fails_at_the_operation_that_failed() {
    let f = Fetch::new().step(Outcome::Succeeded).step(Outcome::Failed);
    assert!(matches!(f, Fetch::Failed(Operation::LockShared)));
    let f = Fetch::new().step(Outcome::Succeeded).step(Outcome::Succeeded).step(Outcome::Failed);
    assert!(matches!(f, Fetch::Failed(Operation::Read)));
    let f = Fetch::new().step(Outcome::Failed).step(Outcome::Failed);
    assert!(matches!(f, Fetch::Failed(Operation::Create)));
    let created = || Fetch::new().step(Outcome::Failed).step(Outcome::Succeeded);
    assert!(matches!(created().step(Outcome::Failed), Fetch::Failed(Operation::LockExclusive)));
    let locked = || created().step(Outcome::Succeeded);
    assert!(matches!(locked().step(Outcome::Failed), Fetch::Failed(Operation::Download)));
    let got = || locked().step(Outcome::Data("x".to_string()));
    assert!(matches!(got().step(Outcome::Failed), Fetch::Failed(Operation::Write)));
}

#[test]
fn fetch_fails_on_an_outcome_of_another_kind() {
    assert!(matches!(Fetch::new().step(Outcome::Exists), Fetch::Failed(Operation::Open)));
    assert!(matches!(
        Fetch::new().step(Outcome::Data("x".to_string())),
        Fetch::Failed(Operation::Open)
    ));
    let reading = Fetch::new().step(Outcome::Succeeded).step(Outcome::Succeeded);
    assert!(matches!(reading.step(Outcome::Succeeded), Fetch::Failed(Operation::Read)));
}

#[test]
fn fetch_that_has_ended_stays() {
    let done = Fetch::Done("d".to_string()).step(Outcome::Failed);
    assert!(matches!(done, Fetch::Done(ref text) if text == "d"));
    let failed = Fetch::Failed(Operation::Write).step(Outcome::Succeeded);
    assert!(matches!(failed, Fetch::Failed(Operation::Write)));
    assert_eq!(failed.document(), None);
}

/// Runs one fetch to its end on `files`, with nobody beside it; says what it
/// ended with and how often it downloaded.
fn lone_fetch(
    files: &mut std::collections::HashMap<String, String>,
    url: &str,
    body: Option<&str>,
) -> (Fetch, usize) {
    let path = cache_path("cache/", url);
    let mut state = Fetch::new();
    let mut downloads = 0;
    while let Some(operation) = state.operation() {
        let outcome = match operation {
            Operation::Open if files.contains_key(&path) => Outcome::Succeeded,
            Operation::Open => Outcome::Failed,
            Operation::Read => Outcome::Data(files[&path].clone()),
            Operation::Create if files.contains_key(&path) => Outcome::Exists,
            Operation::Create => {
                files.insert(path.clone(), String::new());
                Outcome::Succeeded
            }
            Operation::Download => {
                downloads += 1;
                match body {
                    Some(text) => Outcome::Data(text.to_string()),
                    None => Outcome::Failed,
                }
            }
            Operation::Write => {
                files.insert(path.clone(), state.document().unwrap().clone());
                Outcome::Succeeded
            }
            Operation::LockShared | Operation::LockExclusive => Outcome::Succeeded,
        };
        state = state.step(outcome);
    }
    (state, downloads)
}

#[test]
fn second_fetch_reads_what_the_first_wrote() {
    let mut files = std::collections::HashMap::new();
    let (first, downloads) = lone_fetch(&mut files, "https://x/doc", Some("document"));
    assert!(matches!(first, Fetch::Done(ref text) if text == "document"));
    assert_eq!(downloads, 1);
    let (second, downloads) = lone_fetch(&mut files, "https://x/doc", None);
    assert!(matches!(second, Fetch::Done(ref text) if text == "document"));
    assert_eq!(downloads, 0);
    assert_eq!(files.len(), 1);
    assert_eq!(files["cache/https__x_doc"], "document");
}

#[test]
fn failed_download_leaves_an_empty_file() {
    let mut files = std::collections::HashMap::new();
    let (first, downloads) = lone_fetch(&mut files, "u", None);
    assert!(matches!(first, Fetch::Failed(Operation::Download)));
    assert_eq!(downloads, 1);
    let (second, downloads) = lone_fetch(&mut files, "u", Some("late"));
    assert!(matches!(second, Fetch::Done(ref text) if text.is_empty()));
    assert_eq!(downloads, 0);
}

#[test]
fn fetches_side_by_side_download_once() {
    let n = 5;
    let mut exists = false;
    let mut content = String::new();
    let mut fetches: Vec<Option<Fetch>> = (0..n).map(|_| Some(Fetch::new())).collect();
    let mut downloads = 0;
    let mut turn = 0;
    while fetches.iter().any(|f| f.as_ref().unwrap().operation().is_some()) {
        let who = (turn * 3 + turn / 2) % n;
        turn += 1;
        let state = fetches[who].take().unwrap();
        let outcome = match state.operation() {
            None => Outcome::Failed,
            Some(Operation::Open) if exists => Outcome::Succeeded,
            Some(Operation::Open) => Outcome::Failed,
            Some(Operation::Create) if exists => Outcome::Exists,
            Some(Operation::Create) => {
                exists = true;
                Outcome::Succeeded
            }
            Some(Operation::Read) => Outcome::Data(content.clone()),
            Some(Operation::Download) => {
                downloads += 1;
                Outcome::Data("document".to_string())
            }
            Some(Operation::Write) => {
                content = state.document().unwrap().clone();
                Outcome::Succeeded
            }
            Some(Operation::LockShared) | Some(Operation::LockExclusive) => Outcome::Succeeded,
        };
        fetches[who] = Some(state.step(outcome));
    }
    assert_eq!(downloads, 1);
    assert!(fetches.iter().all(|f| matches!(f, Some(Fetch::Done(_)))));
}

use blobstore_factory::read::resolve_answers;
use blobstore_factory::read::resolve_presence;
use blobstore_factory::read::ReadState;

type Answer = Result<Option<Vec<u8>>, String>;

fn found(bytes: &[u8]) -> Answer {
    Ok(Some(bytes.to_vec()))
}

fn failed(message: &str) -> Answer {
    Err(message.to_string())
}

fn missing() -> Answer {
    Ok(None)
}

#[test]
fn first_holder_wins() {
    assert_eq!(resolve_answers(vec![found(b"a"), found(b"b")]), found(b"a"));
    assert_eq!(resolve_answers(vec![missing(), found(b"b"), found(b"c")]), found(b"b"));
    assert_eq!(resolve_answers(vec![failed("x"), missing(), found(b"c")]), found(b"c"));
    assert_eq!(resolve_answers(vec![found(b"a"), failed("x")]), found(b"a"));
}

#[test]
fn missing_only_if_all_say_so() {
    assert_eq!(resolve_answers(vec![missing(), missing()]), missing());
    assert_eq!(resolve_answers(Vec::<Answer>::new()), missing());
    assert_eq!(resolve_answers(vec![missing(), failed("x")]), failed("x"));
    assert_eq!(resolve_answers(vec![failed("x"), missing()]), failed("x"));
}

#[test]
fn last_error_stands() {
    assert_eq!(resolve_answers(vec![failed("x"), failed("y")]), failed("y"));
    assert_eq!(resolve_answers(vec![failed("x"), failed("y"), missing()]), failed("y"));
}

#[test]
fn presence_any_and_all() {
    type Present = Result<bool, String>;
    assert_eq!(resolve_presence::<String>(vec![Ok(false), Ok(true)]), Ok(true));
    assert_eq!(resolve_presence(vec![Err("x".to_string()), Ok(true)]), Ok(true));
    assert_eq!(resolve_presence::<String>(vec![Ok(true), Ok(false)]), Ok(true));
    assert_eq!(resolve_presence::<String>(vec![Ok(false), Ok(false)]), Ok(false));
    assert_eq!(resolve_presence(Vec::<Present>::new()), Ok(false));
    assert_eq!(
        resolve_presence(vec![Ok(false), Err("x".to_string())]),
        Err("x".to_string())
    );
    assert_eq!(
        resolve_presence(vec![Err("x".to_string()), Err("y".to_string()), Ok(false)]),
        Err("y".to_string())
    );
}

#[test]
fn read_asks_in_order_and_stops_at_the_holder() {
    let state: ReadState<Vec<u8>, String> = ReadState::begin(3);
    assert_eq!(state, ReadState::Asking { index: 0, count: 3, last_error: None });
    let state = state.answer(missing());
    assert_eq!(state, ReadState::Asking { index: 1, count: 3, last_error: None });
    let state = state.answer(found(b"v"));
    assert_eq!(state, ReadState::Done(found(b"v")));
    let state = state.answer(failed("late"));
    assert_eq!(state, ReadState::Done(found(b"v")));
}

#[test]
fn read_keeps_the_last_error() {
    let state: ReadState<Vec<u8>, String> = ReadState::begin(3);
    let state = state.answer(failed("x"));
    assert_eq!(state, ReadState::Asking { index: 1, count: 3, last_error: Some("x".to_string()) });
    let state = state.answer(failed("y"));
    assert_eq!(state, ReadState::Asking { index: 2, count: 3, last_error: Some("y".to_string()) });
    let state = state.answer(missing());
    assert_eq!(state, ReadState::Done(failed("y")));
}

#[test]
fn read_of_a_store_without_normal_replicas() {
    let state: ReadState<Vec<u8>, String> = ReadState::begin(0);
    assert_eq!(state, ReadState::Done(missing()));
}

#[test]
fn read_in_order_agrees_with_read_of_all() {
    let cases: Vec<Vec<Answer>> = vec![
        vec![],
        vec![missing()],
        vec![found(b"a")],
        vec![failed("x")],
        vec![missing(), failed("x"), missing()],
        vec![failed("x"), found(b"b"), failed("y")],
        vec![missing(), missing(), found(b"c")],
        vec![failed("x"), failed("y"), failed("z")],
    ];
    for answers in cases {
        let mut state: ReadState<Vec<u8>, String> = ReadState::begin(answers.len());
        for answer in answers.clone() {
            state = state.answer(answer);
        }
        assert_eq!(state, ReadState::Done(resolve_answers(answers)));
    }
}

#[test]
fn read_with_a_cursor_past_the_end_is_done() {
    let state: ReadState<Vec<u8>, String> =
        ReadState::Asking { index: usize::MAX, count: 2, last_error: None };
    assert_eq!(state.answer(missing()), ReadState::Done(missing()));
}

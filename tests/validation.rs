use word_validator::chain::{
    begin, status_outcome, suggestion_outcome, Outcome, Provider, RequestError, Source, Step,
    ValidationResult,
};
use word_validator::normalize::normalize;
use word_validator::word_list::WordList;

/// Runs a validation to its end, answering provider `i` with `answers[i]`;
/// returns the verdict and the providers asked, in order.
fn drive(step: Step, answers: [Outcome; 3]) -> (ValidationResult, Vec<Provider>) {
    let mut asked = Vec::new();
    let mut step = step;
    loop {
        match step {
            Step::Ask(lookup) => {
                let p = lookup.provider();
                asked.push(p);
                let i = asked.len() - 1;
                step = lookup.advance(answers[i]);
            }
            Step::Done(v) => return (v, asked),
        }
    }
}

fn list_of(text: &str) -> WordList {
    WordList::from_text(text)
}

#[test]
fn normalize_lowercases_and_strips() {
    assert_eq!(normalize("HELLO"), "hello");
    assert_eq!(normalize("Cat!"), "cat");
    assert_eq!(normalize("a-b c_d"), "abcd");
    assert_eq!(normalize("R2-D2"), "r2d2");
    assert_eq!(normalize(""), "");
    assert_eq!(normalize("?!, ."), "");
}

#[test]
fn normalize_keeps_unicode_letters() {
    assert_eq!(normalize("Café"), "café");
    assert_eq!(normalize("ÅNGSTRÖM"), "ångström");
}

#[test]
fn normalize_is_case_and_punctuation_insensitive() {
    assert_eq!(normalize("Cat!"), normalize("cat"));
    assert_eq!(normalize("DoG..."), normalize("dog"));
}

#[test]
fn normalize_is_idempotent_on_examples() {
    for x in ["Hello, World!", "R2-D2", "Café", "", "!!!", "MiXeD123"] {
        let once = normalize(x);
        assert_eq!(normalize(&once), once);
    }
}

#[test]
fn word_list_reads_one_entry_per_line() {
    let list = list_of("hello\nWorld!\n\n--\ncan't\r\nlast");
    assert!(list.contains("hello"));
    assert!(list.contains("world"));
    assert!(list.contains("cant"));
    assert!(list.contains("last"));
    assert!(!list.contains("World!"));
    assert!(!list.contains(""));
    assert_eq!(list.len(), 4);
}

#[test]
fn word_list_holds_each_word_once() {
    let list = list_of("cat\nCat!\n");
    assert_eq!(list.len(), 1);
    assert!(list.contains("cat"));
    let list = list_of("dog\ncat\ndog\nDOG\n\ncat");
    assert_eq!(list.len(), 2);
    assert!(list.contains("dog"));
    assert!(list.contains("cat"));
}

#[test]
fn word_list_rewritten_once_per_word_keeps_its_size() {
    let text = "Apple\napple!\nBanana\n--\nbanana\ncherry";
    let list = list_of(text);
    let mut rewritten = String::new();
    for w in ["apple", "banana", "cherry"] {
        assert!(list.contains(w));
        rewritten.push_str(&normalize(w));
        rewritten.push('\n');
    }
    let again = list_of(&rewritten);
    assert_eq!(list.len(), 3);
    assert_eq!(again.len(), list.len());
    for w in ["apple", "banana", "cherry"] {
        assert!(again.contains(w));
    }
}

#[test]
fn word_list_empty_text() {
    let list = list_of("");
    assert_eq!(list.len(), 0);
    assert!(!list.contains("a"));
    assert_eq!(WordList::new().len(), 0);
}

#[test]
fn word_list_line_with_spaces_is_one_entry() {
    let list = list_of("ice cream\n");
    assert!(list.contains("icecream"));
    assert!(!list.contains("ice"));
    assert_eq!(list.len(), 1);
}

#[test]
fn local_word_is_found_locally() {
    let list = list_of("hello\nworld\n");
    let step = begin(Some("HELLO"), &list).unwrap();
    let (v, asked) = drive(step, [Outcome::Confirmed; 3]);
    assert_eq!(v.word, "hello");
    assert!(v.found);
    assert_eq!(v.source, Source::Local);
    assert_eq!(v.source.as_str(), "local");
    assert!(asked.is_empty());
}

#[test]
fn local_word_asks_no_provider() {
    let list = list_of("cat\n");
    let step = begin(Some("Cat!"), &list).unwrap();
    assert!(matches!(step, Step::Done(_)));
    let (v, asked) = drive(step, [Outcome::NotConfirmed; 3]);
    assert_eq!(v.source, Source::Local);
    assert_eq!(asked.len(), 0);
}

#[test]
fn first_provider_confirmation_stops_chain() {
    let list = list_of("hello\n");
    let step = begin(Some("Serendipity"), &list).unwrap();
    let (v, asked) = drive(
        step,
        [Outcome::Confirmed, Outcome::Confirmed, Outcome::Confirmed],
    );
    assert_eq!(v.word, "serendipity");
    assert!(v.found);
    assert_eq!(v.source, Source::External);
    assert_eq!(v.source.as_str(), "external");
    assert_eq!(asked, vec![Provider::Definition]);
}

#[test]
fn suggestion_provider_confirms_after_failure() {
    let list = list_of("hello\n");
    let step = begin(Some("xyzzy123"), &list).unwrap();
    let lookup = match step {
        Step::Ask(l) => l,
        Step::Done(_) => panic!("the word is not in the list"),
    };
    assert_eq!(lookup.provider(), Provider::Definition);
    assert_eq!(lookup.word(), "xyzzy123");
    let step = lookup.advance(Outcome::Unreachable);
    let lookup = match step {
        Step::Ask(l) => l,
        Step::Done(_) => panic!("two providers are left"),
    };
    assert_eq!(lookup.provider(), Provider::Suggestion);
    let suggestions = vec!["xyzzy123".to_string()];
    let o = suggestion_outcome(lookup.word(), &suggestions);
    assert_eq!(o, Outcome::Confirmed);
    match lookup.advance(o) {
        Step::Done(v) => {
            assert_eq!(v.word, "xyzzy123");
            assert!(v.found);
            assert_eq!(v.source, Source::External);
        }
        Step::Ask(_) => panic!("the chain stops at a confirmation"),
    }
}

#[test]
fn no_confirmation_asks_every_provider_once() {
    let list = list_of("hello\n");
    let step = begin(Some("zzqv"), &list).unwrap();
    let (v, asked) = drive(
        step,
        [Outcome::Unreachable, Outcome::NotConfirmed, Outcome::Unreachable],
    );
    assert_eq!(v.word, "zzqv");
    assert!(!v.found);
    assert_eq!(v.source, Source::Nowhere);
    assert_eq!(v.source.as_str(), "none");
    assert_eq!(
        asked,
        vec![Provider::Definition, Provider::Suggestion, Provider::Entry]
    );
}

#[test]
fn last_provider_can_confirm() {
    let list = WordList::new();
    let step = begin(Some("quux"), &list).unwrap();
    let (v, asked) = drive(
        step,
        [Outcome::NotConfirmed, Outcome::Unreachable, Outcome::Confirmed],
    );
    assert!(v.found);
    assert_eq!(v.source, Source::External);
    assert_eq!(asked.len(), 3);
}

#[test]
fn missing_word_is_a_bad_request() {
    let list = list_of("hello\n");
    match begin(None, &list) {
        Err(e) => {
            assert_eq!(e, RequestError::MissingWord);
            assert_eq!(e.status_code(), 400);
            assert_eq!(e.message(), "Missing 'word' query parameter");
        }
        Ok(_) => panic!("a request without a word is refused"),
    }
}

#[test]
fn word_that_normalizes_to_nothing_is_not_found_without_providers() {
    let list = list_of("hello\n");
    let step = begin(Some("?!"), &list).unwrap();
    let (v, asked) = drive(step, [Outcome::Confirmed; 3]);
    assert_eq!(v.word, "");
    assert!(!v.found);
    assert_eq!(v.source, Source::Nowhere);
    assert!(asked.is_empty());
}

#[test]
fn status_outcome_reads_success_range() {
    assert_eq!(status_outcome(200), Outcome::Confirmed);
    assert_eq!(status_outcome(204), Outcome::Confirmed);
    assert_eq!(status_outcome(299), Outcome::Confirmed);
    assert_eq!(status_outcome(199), Outcome::NotConfirmed);
    assert_eq!(status_outcome(300), Outcome::NotConfirmed);
    assert_eq!(status_outcome(404), Outcome::NotConfirmed);
    assert_eq!(status_outcome(500), Outcome::NotConfirmed);
}

#[test]
fn suggestion_outcome_reads_first_suggestion() {
    let none: Vec<String> = Vec::new();
    assert_eq!(suggestion_outcome("cat", &none), Outcome::NotConfirmed);
    let first = vec!["Cat".to_string(), "cab".to_string()];
    assert_eq!(suggestion_outcome("cat", &first), Outcome::Confirmed);
    let second = vec!["cab".to_string(), "cat".to_string()];
    assert_eq!(suggestion_outcome("cat", &second), Outcome::NotConfirmed);
}

#[test]
fn provider_urls() {
    assert_eq!(
        Provider::Definition.url("cat"),
        "https://api.dictionaryapi.dev/api/v2/entries/en/cat"
    );
    assert_eq!(
        Provider::Suggestion.url("cat"),
        "https://api.datamuse.com/words?sp=cat&max=1"
    );
    assert_eq!(
        Provider::Entry.url("cat"),
        "https://api.wordnik.com/v4/word.json/cat/definitions?api_key=test"
    );
    assert!(Provider::Definition.judged_by_status());
    assert!(!Provider::Suggestion.judged_by_status());
    assert!(Provider::Entry.judged_by_status());
}

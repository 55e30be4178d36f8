//! The validation decision: the local word list first, then the outside
//! providers strictly in order, stopping at the first that confirms.
//!
//! The decisions are a state machine: `begin` takes the request's word and
//! the word list, and each `Lookup::advance` takes what one provider answered.
//! The caller performs the provider calls that a `Step::Ask` names.
use vstd::prelude::*;

use crate::normalize::{normalize, normalized};
use crate::word_list::WordList;

verus! {

/// The number of outside providers in the chain.
pub const PROVIDER_COUNT: usize = 3;

/// An outside word source, in the order in which the chain consults them.
#[derive(Clone, Copy, Debug, PartialEq, Eq, Structural)]
pub enum Provider {
    /// A definition lookup; a success status confirms the word.
    Definition,
    /// A spelling-suggestion lookup; it confirms when its first suggestion,
    /// normalized, is the word.
    Suggestion,
    /// A dictionary-entry lookup; a success status confirms the word.
    Entry,
}

/// What one provider call came to.
#[derive(Clone, Copy, Debug, PartialEq, Eq, Structural)]
pub enum Outcome {
    Confirmed,
    NotConfirmed,
    /// A network failure, a timeout or an unreadable reply.
    Unreachable,
}

/// Which stage confirmed the word.
#[derive(Clone, Copy, Debug, PartialEq, Eq, Structural)]
pub enum Source {
    Local,
    External,
    /// No stage confirmed it.
    Nowhere,
}

/// The answer to one validation request.
#[derive(Debug)]
pub struct ValidationResult {
    pub word: String,
    pub found: bool,
    pub source: Source,
}

/// A request that carried no word.
#[derive(Clone, Copy, Debug, PartialEq, Eq, Structural)]
pub enum RequestError {
    MissingWord,
}

/// A validation that waits for the answer of one provider.
#[derive(Debug)]
pub struct Lookup {
    word: String,
    next: usize,
}

/// What the caller does next: ask a provider, or answer the request.
#[derive(Debug)]
pub enum Step {
    Ask(Lookup),
    Done(ValidationResult),
}

/// The state of a validation, as a value.
pub ghost enum Stage {
    /// Provider number `next` is to be asked about `word`.
    Asking { word: Seq<char>, next: nat },
    Finished { word: Seq<char>, found: bool, source: Source },
}

/// The provider at position `i` of the chain.
pub open spec fn provider_at(i: nat) -> Provider {
    if i == 0 {
        Provider::Definition
    } else if i == 1 {
        Provider::Suggestion
    } else {
        Provider::Entry
    }
}

/// The address at which provider `p` is asked about the word `w`.
pub open spec fn url_of(p: Provider, w: Seq<char>) -> Seq<char> {
    match p {
        Provider::Definition => "https://api.dictionaryapi.dev/api/v2/entries/en/"@ + w,
        Provider::Suggestion => "https://api.datamuse.com/words?sp="@ + w + "&max=1"@,
        Provider::Entry => "https://api.wordnik.com/v4/word.json/"@ + w
            + "/definitions?api_key=test"@,
    }
}

/// Whether an HTTP status is a success status.
pub open spec fn is_success(status: u16) -> bool {
    200 <= status < 300
}

/// What a status reply of a provider comes to.
pub open spec fn status_result(status: u16) -> Outcome {
    if is_success(status) {
        Outcome::Confirmed
    } else {
        Outcome::NotConfirmed
    }
}

/// What a suggestion list comes to for the canonical word `w`: it confirms
/// when its first suggestion, normalized, is `w`.
pub open spec fn suggestion_result(w: Seq<char>, suggestions: Seq<Seq<char>>) -> Outcome {
    if suggestions.len() > 0 && normalized(suggestions[0]) == w {
        Outcome::Confirmed
    } else {
        Outcome::NotConfirmed
    }
}

impl Provider {
    /// Whether the provider is judged by its reply's status alone; the
    /// suggestion provider is judged by its suggestion list.
    pub fn judged_by_status(&self) -> (r: bool)
        ensures
            r == (*self != Provider::Suggestion),
    {
        !matches!(self, Provider::Suggestion)
    }

    /// The address at which to ask about `word`.
    pub fn url(&self, word: &str) -> (r: String)
        ensures
            r@ == url_of(*self, word@),
    {
        match self {
            Provider::Definition => {
                let mut u = "https://api.dictionaryapi.dev/api/v2/entries/en/".to_owned();
                u.append(word);
                u
            },
            Provider::Suggestion => {
                let mut u = "https://api.datamuse.com/words?sp=".to_owned();
                u.append(word);
                u.append("&max=1");
                u
            },
            Provider::Entry => {
                let mut u = "https://api.wordnik.com/v4/word.json/".to_owned();
                u.append(word);
                u.append("/definitions?api_key=test");
                u
            },
        }
    }
}

/// What a provider that is judged by status answered, given the status of
/// its reply.
pub fn status_outcome(status: u16) -> (r: Outcome)
    ensures
        r == status_result(status),
{
    if 200 <= status && status < 300 {
        Outcome::Confirmed
    } else {
        Outcome::NotConfirmed
    }
}

/// What the suggestion provider answered about the canonical `word`, given
/// its suggestions in rank order.
pub fn suggestion_outcome(word: &str, suggestions: &Vec<String>) -> (r: Outcome)
    ensures
        r == suggestion_result(word@, suggestions@.map_values(|s: String| s@)),
{
    if suggestions.len() == 0 {
        return Outcome::NotConfirmed;
    }
    let first = normalize(suggestions[0].as_str());
    if first == word.to_owned() {
        Outcome::Confirmed
    } else {
        Outcome::NotConfirmed
    }
}

impl Source {
    /// The tag under which the source is reported.
    pub fn as_str(&self) -> (r: &'static str)
        ensures
            r@ == match *self {
                Source::Local => "local"@,
                Source::External => "external"@,
                Source::Nowhere => "none"@,
            },
    {
        match self {
            Source::Local => "local",
            Source::External => "external",
            Source::Nowhere => "none",
        }
    }
}

impl RequestError {
    /// The HTTP status under which the error is reported.
    pub fn status_code(&self) -> (r: u16)
        ensures
            r == 400,
    {
        400
    }

    /// The message under which the error is reported.
    pub fn message(&self) -> (r: &'static str)
        ensures
            r@ == "Missing 'word' query parameter"@,
    {
        "Missing 'word' query parameter"
    }
}

/// Where a validation of the canonical word `w` starts.
pub open spec fn start_stage(w: Seq<char>, list: Seq<Seq<char>>) -> Stage {
    if list.contains(w) {
        Stage::Finished { word: w, found: true, source: Source::Local }
    } else if w.len() == 0 {
        Stage::Finished { word: w, found: false, source: Source::Nowhere }
    } else {
        Stage::Asking { word: w, next: 0 }
    }
}

/// Where a validation goes once provider `next` has answered `o`.
pub open spec fn next_stage(w: Seq<char>, next: nat, o: Outcome) -> Stage {
    if o == Outcome::Confirmed {
        Stage::Finished { word: w, found: true, source: Source::External }
    } else if next + 1 < PROVIDER_COUNT {
        Stage::Asking { word: w, next: next + 1 }
    } else {
        Stage::Finished { word: w, found: false, source: Source::Nowhere }
    }
}

/// How many provider calls a stage may still make.
pub open spec fn calls_left(s: Stage) -> nat {
    match s {
        Stage::Asking { next, .. } => if next < PROVIDER_COUNT {
            (PROVIDER_COUNT - next) as nat
        } else {
            0
        },
        Stage::Finished { .. } => 0,
    }
}

/// A validation carried to its end from stage `s`, where `answers[i]` is
/// what provider `i` answers when asked: the providers asked, in order, and
/// the final stage.
pub open spec fn run(s: Stage, answers: Seq<Outcome>) -> (Seq<Provider>, Stage)
    decreases calls_left(s),
{
    match s {
        Stage::Asking { word, next } => if next < PROVIDER_COUNT {
            let rest = run(next_stage(word, next, answers[next as int]), answers);
            (seq![provider_at(next)] + rest.0, rest.1)
        } else {
            (Seq::empty(), s)
        },
        Stage::Finished { .. } => (Seq::empty(), s),
    }
}

impl ValidationResult {
    pub open spec fn stage(&self) -> Stage {
        Stage::Finished { word: self.word@, found: self.found, source: self.source }
    }
}

impl Lookup {
    pub closed spec fn word_spec(&self) -> Seq<char> {
        self.word@
    }

    pub closed spec fn next_spec(&self) -> nat {
        self.next as nat
    }

    /// A lookup names one of the providers.
    pub closed spec fn wf(&self) -> bool {
        self.next < PROVIDER_COUNT
    }

    pub open spec fn stage(&self) -> Stage {
        Stage::Asking { word: self.word_spec(), next: self.next_spec() }
    }

    /// The provider to ask.
    pub fn provider(&self) -> (r: Provider)
        ensures
            r == provider_at(self.next_spec()),
    {
        if self.next == 0 {
            Provider::Definition
        } else if self.next == 1 {
            Provider::Suggestion
        } else {
            Provider::Entry
        }
    }

    /// The canonical word to ask about.
    pub fn word(&self) -> (r: &str)
        ensures
            r@ == self.word_spec(),
    {
        self.word.as_str()
    }

    /// Takes the answer of the provider that `provider` names.
    pub fn advance(self, o: Outcome) -> (r: Step)
        requires
            self.wf(),
        ensures
            r.stage() == next_stage(self.word_spec(), self.next_spec(), o),
            r.wf(),
    {
        if o == Outcome::Confirmed {
            Step::Done(ValidationResult { word: self.word, found: true, source: Source::External })
        } else if self.next + 1 < PROVIDER_COUNT {
            Step::Ask(Lookup { word: self.word, next: self.next + 1 })
        } else {
            Step::Done(ValidationResult { word: self.word, found: false, source: Source::Nowhere })
        }
    }
}

impl Step {
    pub open spec fn stage(&self) -> Stage {
        match self {
            Step::Ask(l) => l.stage(),
            Step::Done(v) => v.stage(),
        }
    }

    pub open spec fn wf(&self) -> bool {
        match self {
            Step::Ask(l) => l.wf(),
            Step::Done(_) => true,
        }
    }
}

/// Starts the validation of the request's `word` parameter, `None` where the
/// request carried none. A word that normalizes to nothing is not found, and
/// no provider is asked about it.
pub fn begin(raw: Option<&str>, list: &WordList) -> (r: Result<Step, RequestError>)
    ensures
        raw is None ==> r == Err::<Step, RequestError>(RequestError::MissingWord),
        raw matches Some(s) ==> r matches Ok(step) && step.wf() && step.stage() == start_stage(
            normalized(s@),
            list@,
        ),
{
    match raw {
        None => Err(RequestError::MissingWord),
        Some(s) => {
            let w = normalize(s);
            if list.contains(w.as_str()) {
                Ok(Step::Done(ValidationResult { word: w, found: true, source: Source::Local }))
            } else if w.as_str().is_empty() {
                Ok(Step::Done(ValidationResult { word: w, found: false, source: Source::Nowhere }))
            } else {
                Ok(Step::Ask(Lookup { word: w, next: 0 }))
            }
        },
    }
}

/// A word that the list holds is answered from the list, found, and no
/// provider is asked, whatever the providers would answer.
pub proof fn law_local_word_asks_no_provider(
    raw: Seq<char>,
    list: Seq<Seq<char>>,
    answers: Seq<Outcome>,
)
    requires
        list.contains(normalized(raw)),
    ensures
        run(start_stage(normalized(raw), list), answers) == (
        Seq::<Provider>::empty(),
        Stage::Finished { word: normalized(raw), found: true, source: Source::Local },
        ),
{
}

/// A nonempty word that the list lacks and that the first provider confirms is
/// found outside; the first provider alone is asked.
pub proof fn law_first_confirmation_stops_chain(
    raw: Seq<char>,
    list: Seq<Seq<char>>,
    answers: Seq<Outcome>,
)
    requires
        !list.contains(normalized(raw)),
        normalized(raw).len() > 0,
        answers.len() == PROVIDER_COUNT,
        answers[0] == Outcome::Confirmed,
    ensures
        run(start_stage(normalized(raw), list), answers) == (
        seq![Provider::Definition],
        Stage::Finished { word: normalized(raw), found: true, source: Source::External },
        ),
{
    let w = normalized(raw);
    let s1 = next_stage(w, 0, answers[0]);
    assert(run(s1, answers) == (Seq::<Provider>::empty(), s1));
    assert(seq![Provider::Definition] + Seq::<Provider>::empty() == seq![Provider::Definition]);
}

/// A nonempty word that the list lacks and that no provider confirms is not
/// found; each provider is asked exactly once, in order.
pub proof fn law_no_confirmation_asks_every_provider(
    raw: Seq<char>,
    list: Seq<Seq<char>>,
    answers: Seq<Outcome>,
)
    requires
        !list.contains(normalized(raw)),
        normalized(raw).len() > 0,
        answers.len() == PROVIDER_COUNT,
        forall|i: int| 0 <= i < PROVIDER_COUNT ==> answers[i] != Outcome::Confirmed,
    ensures
        run(start_stage(normalized(raw), list), answers) == (
        seq![Provider::Definition, Provider::Suggestion, Provider::Entry],
        Stage::Finished { word: normalized(raw), found: false, source: Source::Nowhere },
        ),
{
    let w = normalized(raw);
    let fin = Stage::Finished { word: w, found: false, source: Source::Nowhere };
    assert(answers[0] != Outcome::Confirmed);
    assert(answers[1] != Outcome::Confirmed);
    assert(answers[2] != Outcome::Confirmed);
    let s1 = Stage::Asking { word: w, next: 1 };
    let s2 = Stage::Asking { word: w, next: 2 };
    assert(run(fin, answers) == (Seq::<Provider>::empty(), fin));
    assert(run(s2, answers) == (seq![Provider::Entry] + Seq::<Provider>::empty(), fin));
    assert(run(s1, answers) == (seq![Provider::Suggestion] + (seq![Provider::Entry]
        + Seq::<Provider>::empty()), fin));
    assert(seq![Provider::Definition] + (seq![Provider::Suggestion] + (seq![Provider::Entry]
        + Seq::<Provider>::empty())) == seq![
        Provider::Definition,
        Provider::Suggestion,
        Provider::Entry,
    ]);
}

/// What a run from provider `next` onward comes to: the providers asked
/// follow the chain order, every one before the last declined, and the word
/// is found exactly when the last one asked confirmed it.
proof fn lemma_run_from(w: Seq<char>, next: nat, answers: Seq<Outcome>)
    requires
        next < PROVIDER_COUNT,
    ensures
        ({
            let (asked, fin) = run(Stage::Asking { word: w, next }, answers);
            &&& 1 <= asked.len() <= PROVIDER_COUNT - next
            &&& forall|k: int| 0 <= k < asked.len() ==> asked[k] == provider_at((next + k) as nat)
            &&& forall|j: int|
                next <= j < next + asked.len() - 1 ==> answers[j] != Outcome::Confirmed
            &&& fin matches Stage::Finished { word, found, source } && word == w && source
                != Source::Local && (found <==> source == Source::External) && (found
                <==> answers[next + asked.len() - 1] == Outcome::Confirmed) && (!found
                ==> next + asked.len() == PROVIDER_COUNT)
        }),
    decreases PROVIDER_COUNT - next,
{
    let s1 = next_stage(w, next, answers[next as int]);
    if answers[next as int] != Outcome::Confirmed && next + 1 < PROVIDER_COUNT {
        lemma_run_from(w, next + 1, answers);
        let rest = run(s1, answers).0;
        let asked = seq![provider_at(next)] + rest;
        assert forall|k: int| 0 <= k < asked.len() implies asked[k] == provider_at(
            (next + k) as nat,
        ) by {
            if k > 0 {
                assert(asked[k] == rest[k - 1]);
            }
        }
        assert forall|j: int| next <= j < next + asked.len() - 1 implies answers[j]
            != Outcome::Confirmed by {
            if j > next {
                assert(next + 1 <= j < next + 1 + rest.len() - 1);
            }
        }
    } else {
        assert(run(s1, answers).0 == Seq::<Provider>::empty());
        assert(seq![provider_at(next)] + Seq::<Provider>::empty() == seq![provider_at(next)]);
    }
}

/// Every validation ends with a result that tells the truth about its source:
/// `Local` means found and listed, with no provider asked; `External` means
/// found, with the providers asked in chain order up to the first that
/// confirmed, and no further; `Nowhere` means not found, and for a nonempty
/// word every provider was asked once and none confirmed.
pub proof fn law_result_matches_source(
    raw: Seq<char>,
    list: Seq<Seq<char>>,
    answers: Seq<Outcome>,
)
    ensures
        ({
            let w = normalized(raw);
            let (asked, fin) = run(start_stage(w, list), answers);
            &&& asked.len() <= PROVIDER_COUNT
            &&& forall|k: int| 0 <= k < asked.len() ==> asked[k] == provider_at(k as nat)
            &&& fin matches Stage::Finished { word, found, source } && word == w && (source
                == Source::Local ==> found && list.contains(w) && asked.len() == 0) && (source
                == Source::External ==> found && asked.len() > 0 && answers[asked.len() - 1]
                == Outcome::Confirmed && forall|k: int|
                0 <= k < asked.len() - 1 ==> answers[k] != Outcome::Confirmed) && (source
                == Source::Nowhere ==> !found && (w.len() > 0 ==> asked.len()
                == PROVIDER_COUNT && forall|k: int|
                0 <= k < PROVIDER_COUNT ==> answers[k] != Outcome::Confirmed))
        }),
{
    let w = normalized(raw);
    if !list.contains(w) && w.len() > 0 {
        lemma_run_from(w, 0, answers);
        let (asked, fin) = run(start_stage(w, list), answers);
        assert forall|k: int| 0 <= k < asked.len() implies asked[k] == provider_at(k as nat) by {
            assert(asked[k] == provider_at((0 + k) as nat));
        }
        if !fin->found {
            assert(answers[asked.len() - 1] != Outcome::Confirmed);
        }
    }
}

} // verus!

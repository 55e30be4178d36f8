//! The local word list: the set of canonical forms of the lines of a text,
//! one line per word, with lines that normalize to nothing left out and each
//! word held once.
use vstd::prelude::*;

use crate::normalize::normalized;

verus! {

/// The lines of `s`, split at each `'\n'`. A text with `k` line breaks has
/// `k + 1` lines; the last one may be empty.
pub open spec fn split_lines(s: Seq<char>) -> Seq<Seq<char>>
    decreases s.len(),
{
    if s.len() == 0 {
        seq![Seq::empty()]
    } else {
        let prev = split_lines(s.drop_last());
        if s.last() == '\n' {
            prev.push(Seq::empty())
        } else {
            prev.update(prev.len() - 1, prev.last().push(s.last()))
        }
    }
}

/// The entries that a sequence of lines gives: the canonical form of each
/// line, in order, without the empty ones.
pub open spec fn entries_of(lines: Seq<Seq<char>>) -> Seq<Seq<char>> {
    lines.map_values(|l: Seq<char>| normalized(l)).filter(|w: Seq<char>| w.len() > 0)
}

/// The entries of a word-list text.
pub open spec fn text_entries(text: Seq<char>) -> Seq<Seq<char>> {
    entries_of(split_lines(text))
}

/// A word list held in memory; it answers membership of canonical words.
/// Each word is nonempty and held once.
pub struct WordList {
    words: Vec<String>,
}

/// The views of a vector of strings.
pub open spec fn views(v: Seq<String>) -> Seq<Seq<char>> {
    v.map_values(|s: String| s@)
}

/// A sequence of nonempty words, each held once.
pub open spec fn unique_words(ws: Seq<Seq<char>>) -> bool {
    &&& ws.no_duplicates()
    &&& forall|i: int| 0 <= i < ws.len() ==> #[trigger] ws[i].len() > 0
}

impl View for WordList {
    type V = Seq<Seq<char>>;

    closed spec fn view(&self) -> Seq<Seq<char>> {
        views(self.words@)
    }
}

proof fn lemma_entries_push(lines: Seq<Seq<char>>, l: Seq<char>)
    ensures
        entries_of(lines.push(l)) == if normalized(l).len() > 0 {
            entries_of(lines).push(normalized(l))
        } else {
            entries_of(lines)
        },
{
    let f = |x: Seq<char>| normalized(x);
    assert(lines.push(l).map_values(f) == lines.map_values(f).push(normalized(l)));
    assert(lines.map_values(f).push(normalized(l)).drop_last() == lines.map_values(f));
    reveal(Seq::filter);
}

proof fn lemma_push_contains(ws: Seq<Seq<char>>, w: Seq<char>, x: Seq<char>)
    ensures
        ws.push(w).contains(x) <==> (ws.contains(x) || x == w),
{
    if ws.contains(x) {
        let i = choose|i: int| 0 <= i < ws.len() && ws[i] == x;
        assert(ws.push(w)[i] == x);
    }
    if x == w {
        assert(ws.push(w)[ws.len() as int] == x);
    }
    if ws.push(w).contains(x) {
        let i = choose|i: int| 0 <= i < ws.len() + 1 && ws.push(w)[i] == x;
        if i < ws.len() {
            assert(ws[i] == x);
        }
    }
}

/// Whether `key` is one of `words`.
fn holds(words: &Vec<String>, key: &String) -> (r: bool)
    ensures
        r == views(words@).contains(key@),
{
    let mut i: usize = 0;
    while i < words.len()
        invariant
            i <= words.len(),
            forall|k: int| 0 <= k < i ==> words[k]@ != key@,
        decreases words.len() - i,
    {
        if words[i] == *key {
            assert(views(words@)[i as int] == key@);
            return true;
        }
        i += 1;
    }
    assert forall|k: int| 0 <= k < views(words@).len() implies views(words@)[k] != key@ by {
        assert(views(words@)[k] == words[k]@);
    }
    false
}

/// Adds the nonempty word `w` to `words` unless it is there already.
fn add_word(words: &mut Vec<String>, w: String)
    requires
        unique_words(views(old(words)@)),
        w@.len() > 0,
    ensures
        unique_words(views(final(words)@)),
        views(final(words)@) == if views(old(words)@).contains(w@) {
            views(old(words)@)
        } else {
            views(old(words)@).push(w@)
        },
{
    if !holds(words, &w) {
        let ghost before = views(words@);
        let ghost wv = w@;
        words.push(w);
        proof {
            assert(views(words@) == before.push(wv));
            let after = before.push(wv);
            assert forall|i: int, j: int|
                0 <= i < after.len() && 0 <= j < after.len() && i != j implies after[i]
                != after[j] by {
                if i == before.len() {
                    assert(after[j] == before[j]);
                } else if j == before.len() {
                    assert(after[i] == before[i]);
                }
            }
        }
    }
}

impl WordList {
    #[verifier::type_invariant]
    spec fn inv(&self) -> bool {
        unique_words(views(self.words@))
    }

    /// A list with no entries.
    pub fn new() -> (r: WordList)
        ensures
            r@ == Seq::<Seq<char>>::empty(),
    {
        let r = WordList { words: Vec::new() };
        assert(r@ == Seq::<Seq<char>>::empty());
        r
    }

    /// The list of the lines of `text`: each line is normalized, lines that
    /// normalize to the empty word are skipped, and a word that appears on
    /// several lines is held once.
    pub fn from_text(text: &str) -> (r: WordList)
        ensures
            r@.no_duplicates(),
            r@.to_set() == text_entries(text@).to_set(),
            r@.len() == text_entries(text@).to_set().len(),
            forall|i: int| 0 <= i < r@.len() ==> #[trigger] r@[i].len() > 0,
    {
        let mut words: Vec<String> = Vec::new();
        let mut cur = String::new();
        let ghost mut n: int = 0;
        let ghost mut done: Seq<Seq<char>> = Seq::empty();
        let ghost mut line: Seq<char> = Seq::empty();
        proof {
            assert(views(words@) == Seq::<Seq<char>>::empty());
        }
        for c in it: text.chars()
            invariant
                it.seq() == text@,
                n == it.index(),
                0 <= n <= text@.len(),
                split_lines(text@.subrange(0, n)) == done.push(line),
                cur@ == normalized(line),
                unique_words(views(words@)),
                forall|x: Seq<char>| views(words@).contains(x) <==> entries_of(done).contains(x),
        {
            let ghost pre = text@.subrange(0, n);
            proof {
                assert(text@.subrange(0, n + 1).drop_last() == pre);
                assert(text@.subrange(0, n + 1).last() == c);
                lemma_entries_push(done, line);
            }
            if c == '\n' {
                let ghost old_words = views(words@);
                if !cur.as_str().is_empty() {
                    let ghost w = cur@;
                    add_word(&mut words, cur);
                    proof {
                        assert forall|x: Seq<char>| views(words@).contains(x) <==> entries_of(
                            done,
                        ).push(w).contains(x) by {
                            lemma_push_contains(entries_of(done), w, x);
                            lemma_push_contains(old_words, w, x);
                        }
                    }
                }
                cur = String::new();
                proof {
                    done = done.push(line);
                    line = Seq::empty();
                }
            } else {
                crate::normalize::push_normalized(&mut cur, c);
                proof {
                    let prev = done.push(line);
                    assert(prev.update(prev.len() - 1, line.push(c)) == done.push(line.push(c)));
                    assert(line.push(c).drop_last() == line);
                    assert(line.push(c).last() == c);
                    line = line.push(c);
                }
            }
            proof {
                n = n + 1;
            }
        }
        proof {
            assert(text@.subrange(0, n) == text@);
            lemma_entries_push(done, line);
        }
        let ghost old_words = views(words@);
        if !cur.as_str().is_empty() {
            let ghost w = cur@;
            add_word(&mut words, cur);
            proof {
                assert forall|x: Seq<char>| views(words@).contains(x) <==> entries_of(done).push(
                    w,
                ).contains(x) by {
                    lemma_push_contains(entries_of(done), w, x);
                    lemma_push_contains(old_words, w, x);
                }
            }
        }
        let r = WordList { words };
        proof {
            assert(r@ == views(r.words@));
            assert(r@.to_set() =~= text_entries(text@).to_set());
            r@.unique_seq_to_set();
        }
        r
    }

    /// Whether `word` is one of the entries.
    pub fn contains(&self, word: &str) -> (r: bool)
        ensures
            r == self@.contains(word@),
    {
        holds(&self.words, &word.to_owned())
    }

    /// The number of distinct words.
    pub fn len(&self) -> (r: usize)
        ensures
            r == self@.len(),
            r == self@.to_set().len(),
    {
        proof {
            use_type_invariant(self);
            self@.unique_seq_to_set();
        }
        self.words.len()
    }
}

} // verus!

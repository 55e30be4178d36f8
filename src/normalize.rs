//! Canonical form of a word: lower-cased, with every character that is not
//! alphanumeric removed.
use vstd::prelude::*;

verus! {

/// What `char::is_alphanumeric` answers for a character.
pub uninterp spec fn alnum(c: char) -> bool;

/// What `char::to_lowercase` yields for a character.
pub uninterp spec fn lower_of(c: char) -> Seq<char>;

/// The characters that one input character contributes to the canonical form:
/// its lowercase mapping, without the characters that are not alphanumeric.
pub open spec fn norm_char(c: char) -> Seq<char> {
    lower_of(c).filter(|d: char| alnum(d))
}

/// The canonical form of a character sequence.
pub open spec fn normalized(s: Seq<char>) -> Seq<char>
    decreases s.len(),
{
    if s.len() == 0 {
        Seq::empty()
    } else {
        normalized(s.drop_last()) + norm_char(s.last())
    }
}

/// Relies on `char::is_alphanumeric`: whether `c` is alphabetic or numeric.
#[verifier::external_body]
fn is_alnum(c: char) -> (r: bool)
    ensures
        r == alnum(c),
{
    c.is_alphanumeric()
}

/// Relies on `char::to_lowercase`: the lowercase mapping of `c`.
#[verifier::external_body]
fn lowercase_char(c: char) -> (r: Vec<char>)
    ensures
        r@ == lower_of(c),
{
    c.to_lowercase().collect()
}

/// Relies on `String::push`: appends one character.
#[verifier::external_body]
pub(crate) fn push_char(s: &mut String, c: char)
    ensures
        final(s)@ == old(s)@.push(c),
{
    s.push(c)
}

/// Appends the contribution of `c` to the canonical form onto `out`.
pub(crate) fn push_normalized(out: &mut String, c: char)
    ensures
        final(out)@ == old(out)@ + norm_char(c),
{
    let low = lowercase_char(c);
    let ghost start = out@;
    let mut i: usize = 0;
    while i < low.len()
        invariant
            i <= low.len(),
            low@ == lower_of(c),
            out@ == start + low@.subrange(0, i as int).filter(|d: char| alnum(d)),
        decreases low.len() - i,
    {
        let d = low[i];
        proof {
            let pre = low@.subrange(0, i as int);
            assert(low@.subrange(0, i as int + 1) == pre.push(d));
            assert(pre.push(d).drop_last() == pre);
            reveal(Seq::filter);
        }
        if is_alnum(d) {
            push_char(out, d);
        }
        i += 1;
    }
    assert(low@.subrange(0, low.len() as int) == low@);
}

/// The canonical form of `raw`.
pub fn normalize(raw: &str) -> (r: String)
    ensures
        r@ == normalized(raw@),
{
    let mut out = String::new();
    let ghost mut n: int = 0;
    for c in it: raw.chars()
        invariant
            it.seq() == raw@,
            n == it.index(),
            out@ == normalized(raw@.subrange(0, n)),
    {
        let ghost before = it.seq().subrange(0, it.index() as int);
        push_normalized(&mut out, c);
        proof {
            let after = it.seq().subrange(0, it.index() as int + 1);
            assert(after.drop_last() == before);
            n = n + 1;
        }
    }
    assert(raw@.subrange(0, n) == raw@);
    out
}

proof fn lemma_normalized_concat(a: Seq<char>, b: Seq<char>)
    ensures
        normalized(a + b) == normalized(a) + normalized(b),
    decreases b.len(),
{
    if b.len() == 0 {
        assert(a + b == a);
    } else {
        lemma_normalized_concat(a, b.drop_last());
        assert((a + b).drop_last() == a + b.drop_last());
        assert((a + b).last() == b.last());
    }
}

proof fn lemma_normalized_alnum(x: Seq<char>)
    ensures
        forall|i: int| 0 <= i < normalized(x).len() ==> alnum(#[trigger] normalized(x)[i]),
    decreases x.len(),
{
    if x.len() > 0 {
        lemma_normalized_alnum(x.drop_last());
        let head = normalized(x.drop_last());
        let tail = norm_char(x.last());
        assert forall|i: int| 0 <= i < normalized(x).len() implies alnum(
            #[trigger] normalized(x)[i],
        ) by {
            if i >= head.len() {
                lower_of(x.last()).lemma_filter_pred(|d: char| alnum(d), i - head.len());
            } else {
                assert(normalized(x)[i] == head[i]);
            }
        }
    }
}

proof fn lemma_normalized_fixed(y: Seq<char>)
    requires
        forall|i: int| 0 <= i < y.len() ==> alnum(#[trigger] y[i]),
        forall|i: int| 0 <= i < y.len() ==> lower_of(#[trigger] y[i]) == seq![y[i]],
    ensures
        normalized(y) == y,
    decreases y.len(),
{
    if y.len() > 0 {
        let c = y.last();
        assert(alnum(y[y.len() - 1]));
        assert(lower_of(y[y.len() - 1]) == seq![c]);
        lemma_normalized_fixed(y.drop_last());
        reveal_with_fuel(Seq::filter, 2);
        assert(seq![c].drop_last() == Seq::<char>::empty());
        assert(norm_char(c) == seq![c]);
        assert(y.drop_last().push(c) == y);
    }
}

/// Normalizing a canonical form again leaves it as it is, wherever each of its
/// characters is its own lowercase mapping (as lowercase letters and digits
/// are).
pub proof fn law_normalize_idempotent(x: Seq<char>)
    requires
        forall|i: int|
            0 <= i < normalized(x).len() ==> lower_of(#[trigger] normalized(x)[i]) == seq![
                normalized(x)[i],
            ],
    ensures
        normalized(normalized(x)) == normalized(x),
{
    lemma_normalized_alnum(x);
    lemma_normalized_fixed(normalized(x));
}

/// A character that contributes nothing to the canonical form (such as a
/// punctuation mark) can be added anywhere without changing it.
pub proof fn law_normalize_ignores_punctuation(a: Seq<char>, b: Seq<char>, c: char)
    requires
        norm_char(c).len() == 0,
    ensures
        normalized(a.push(c) + b) == normalized(a + b),
{
    lemma_normalized_concat(a.push(c), b);
    lemma_normalized_concat(a, b);
    assert(a.push(c).drop_last() == a);
}

/// Two characters with the same lowercase mapping (the two cases of a letter)
/// give the same canonical form.
pub proof fn law_normalize_ignores_case(a: Seq<char>, b: Seq<char>, c: char, d: char)
    requires
        lower_of(c) == lower_of(d),
    ensures
        normalized(a.push(c) + b) == normalized(a.push(d) + b),
{
    lemma_normalized_concat(a.push(c), b);
    lemma_normalized_concat(a.push(d), b);
    assert(a.push(c).drop_last() == a);
    assert(a.push(d).drop_last() == a);
}

} // verus!

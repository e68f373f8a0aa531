//! Canonical naming: turns an arbitrary wire-format identifier into
//! deterministic multi-case forms (snake, pascal, camel, kebab, upper).
//!
//! A new word starts at a `-`, `_` or whitespace separator (the separator is
//! consumed) and at a transition from a lowercase letter or digit to an
//! ASCII uppercase letter.  A run of consecutive uppercase letters stays one
//! word, so `HTTPClient` collapses to the single word `httpclient`.  Leading
//! digits are kept verbatim.

use vstd::prelude::*;

use crate::strutil::{
    is_lower_or_digit_char, is_upper_char, lower_char, push_char, spec_is_digit, spec_is_lower,
    spec_is_upper, spec_lower_char, spec_upper_char, upper_char,
};

verus! {

/// Word separator: hyphen, underscore or whitespace.
pub open spec fn spec_is_sep(c: char) -> bool {
    c == '-' || c == '_' || c == ' ' || c == '\t' || c == '\n' || c == '\r'
}

/// One step-by-step pass over the input: `cur` is the word being collected,
/// `acc` the words already finished.
pub open spec fn split_words(s: Seq<char>, cur: Seq<char>, acc: Seq<Seq<char>>) -> Seq<
    Seq<char>,
>
    decreases s.len(),
{
    if s.len() == 0 {
        if cur.len() > 0 {
            acc.push(cur)
        } else {
            acc
        }
    } else {
        let c = s[0];
        if spec_is_sep(c) {
            split_words(
                s.drop_first(),
                Seq::empty(),
                if cur.len() > 0 {
                    acc.push(cur)
                } else {
                    acc
                },
            )
        } else if cur.len() > 0 && (spec_is_lower(cur.last()) || spec_is_digit(cur.last()))
            && spec_is_upper(c) {
            split_words(s.drop_first(), seq![c], acc.push(cur))
        } else {
            split_words(s.drop_first(), cur.push(c), acc)
        }
    }
}

/// The words of an identifier, in order; never contains an empty word.
pub open spec fn spec_words(s: Seq<char>) -> Seq<Seq<char>> {
    split_words(s, Seq::empty(), Seq::empty())
}

/// A word with every ASCII letter lowercased.
pub open spec fn word_lower(w: Seq<char>) -> Seq<char> {
    w.map_values(|c: char| spec_lower_char(c))
}

/// A word with every ASCII letter uppercased.
pub open spec fn word_upper(w: Seq<char>) -> Seq<char> {
    w.map_values(|c: char| spec_upper_char(c))
}

/// A word lowercased, then with its first character capitalized.
pub open spec fn word_cap(w: Seq<char>) -> Seq<char> {
    if w.len() == 0 {
        w
    } else {
        seq![spec_upper_char(spec_lower_char(w[0]))] + word_lower(w.drop_first())
    }
}

/// The first `i` words, lowercased and joined with `sep`.
pub open spec fn join_sep(ws: Seq<Seq<char>>, i: int, sep: char) -> Seq<char>
    decreases i,
{
    if i <= 0 {
        Seq::empty()
    } else if i == 1 {
        word_lower(ws[0])
    } else {
        join_sep(ws, i - 1, sep).push(sep) + word_lower(ws[i - 1])
    }
}

/// The first `i` words, uppercased and joined with `_`.
pub open spec fn join_upper(ws: Seq<Seq<char>>, i: int) -> Seq<char>
    decreases i,
{
    if i <= 0 {
        Seq::empty()
    } else if i == 1 {
        word_upper(ws[0])
    } else {
        join_upper(ws, i - 1).push('_') + word_upper(ws[i - 1])
    }
}

/// The first `i` words, each capitalized, concatenated.
pub open spec fn join_pascal(ws: Seq<Seq<char>>, i: int) -> Seq<char>
    decreases i,
{
    if i <= 0 {
        Seq::empty()
    } else {
        join_pascal(ws, i - 1) + word_cap(ws[i - 1])
    }
}

/// Like `join_pascal`, but the first word is all lowercase.
pub open spec fn join_camel(ws: Seq<Seq<char>>, i: int) -> Seq<char>
    decreases i,
{
    if i <= 0 {
        Seq::empty()
    } else if i == 1 {
        word_lower(ws[0])
    } else {
        join_camel(ws, i - 1) + word_cap(ws[i - 1])
    }
}

pub open spec fn spec_snake(s: Seq<char>) -> Seq<char> {
    join_sep(spec_words(s), spec_words(s).len() as int, '_')
}

pub open spec fn spec_kebab(s: Seq<char>) -> Seq<char> {
    join_sep(spec_words(s), spec_words(s).len() as int, '-')
}

pub open spec fn spec_upper_name(s: Seq<char>) -> Seq<char> {
    join_upper(spec_words(s), spec_words(s).len() as int)
}

pub open spec fn spec_pascal(s: Seq<char>) -> Seq<char> {
    join_pascal(spec_words(s), spec_words(s).len() as int)
}

pub open spec fn spec_camel(s: Seq<char>) -> Seq<char> {
    join_camel(spec_words(s), spec_words(s).len() as int)
}

/// A derived, read-only view of a source name in five case conventions plus
/// the original text.
#[derive(Debug)]
pub struct CanonicalName {
    pub canonical: String,
    pub snake: String,
    pub pascal: String,
    pub camel: String,
    pub kebab: String,
    pub upper: String,
}

impl Clone for CanonicalName {
    fn clone(&self) -> (r: Self)
        ensures
            r == *self,
    {
        CanonicalName {
            canonical: self.canonical.clone(),
            snake: self.snake.clone(),
            pascal: self.pascal.clone(),
            camel: self.camel.clone(),
            kebab: self.kebab.clone(),
            upper: self.upper.clone(),
        }
    }
}

/// All five forms agree with the canonical text.
pub open spec fn name_wf(n: CanonicalName) -> bool {
    &&& n.snake@ == spec_snake(n.canonical@)
    &&& n.pascal@ == spec_pascal(n.canonical@)
    &&& n.camel@ == spec_camel(n.canonical@)
    &&& n.kebab@ == spec_kebab(n.canonical@)
    &&& n.upper@ == spec_upper_name(n.canonical@)
}

fn split_into_words(input: &str) -> (words: Vec<Vec<char>>)
    ensures
        words.deep_view() == spec_words(input@),
{
    let n = input.unicode_len();
    let mut words: Vec<Vec<char>> = Vec::new();
    let mut cur: Vec<char> = Vec::new();
    let mut i: usize = 0;
    proof {
        assert(input@.skip(0) =~= input@);
        assert(words.deep_view() =~= Seq::<Seq<char>>::empty());
    }
    while i < n
        invariant
            i <= n,
            n == input@.len(),
            split_words(input@.skip(i as int), cur@, words.deep_view()) == spec_words(input@),
        decreases n - i,
    {
        let c = input.get_char(i);
        let ghost prev_words = words.deep_view();
        let ghost prev_cur = cur@;
        let ghost s_i = input@.skip(i as int);
        proof {
            assert(s_i.len() > 0);
            assert(s_i[0] == input@[i as int]);
            assert(s_i.drop_first() =~= input@.skip(i as int + 1));
            reveal_with_fuel(split_words, 2);
            if spec_is_sep(s_i[0]) {
                assert(split_words(s_i, prev_cur, prev_words) == split_words(
                    s_i.drop_first(),
                    Seq::empty(),
                    if prev_cur.len() > 0 {
                        prev_words.push(prev_cur)
                    } else {
                        prev_words
                    },
                ));
            } else if prev_cur.len() > 0 && (spec_is_lower(prev_cur.last()) || spec_is_digit(
                prev_cur.last(),
            )) && spec_is_upper(s_i[0]) {
                assert(split_words(s_i, prev_cur, prev_words) == split_words(
                    s_i.drop_first(),
                    seq![s_i[0]],
                    prev_words.push(prev_cur),
                ));
            } else {
                assert(split_words(s_i, prev_cur, prev_words) == split_words(
                    s_i.drop_first(),
                    prev_cur.push(s_i[0]),
                    prev_words,
                ));
            }
        }
        let is_sep = c == '-' || c == '_' || c == ' ' || c == '\t' || c == '\n' || c == '\r';
        if is_sep {
            if cur.len() > 0 {
                words.push(cur);
                proof {
                    assert(words.deep_view() =~~= prev_words.push(prev_cur));
                }
            }
            cur = Vec::new();
            proof {
                assert(cur@ =~= Seq::<char>::empty());
            }
        } else {
            let upper_start = if cur.len() > 0 {
                let last = cur[cur.len() - 1];
                is_lower_or_digit_char(last) && is_upper_char(c)
            } else {
                false
            };
            if upper_start {
                words.push(cur);
                proof {
                    assert(words.deep_view() =~~= prev_words.push(prev_cur));
                }
                cur = Vec::new();
                cur.push(c);
                proof {
                    assert(cur@ =~= seq![c]);
                }
            } else {
                cur.push(c);
                proof {
                    assert(cur@ =~= prev_cur.push(c));
                }
            }
        }
        i = i + 1;
    }
    proof {
        assert(input@.skip(n as int).len() == 0);
    }
    if cur.len() > 0 {
        let ghost prev_words = words.deep_view();
        let ghost prev_cur = cur@;
        words.push(cur);
        proof {
            assert(words.deep_view() =~~= prev_words.push(prev_cur));
        }
    }
    words
}

/// Appends the lowercased word.
fn push_word_lower(out: &mut String, w: &Vec<char>)
    ensures
        final(out)@ == old(out)@ + word_lower(w@),
{
    let n = w.len();
    let mut k: usize = 0;
    proof {
        assert(out@ =~= old(out)@ + word_lower(w@).take(0));
    }
    while k < n
        invariant
            k <= n,
            n == w@.len(),
            out@ == old(out)@ + word_lower(w@).take(k as int),
        decreases n - k,
    {
        let c = lower_char(w[k]);
        push_char(out, c);
        proof {
            assert(word_lower(w@).take(k as int + 1) =~= word_lower(w@).take(k as int).push(
                spec_lower_char(w@[k as int]),
            ));
            assert(out@ =~= old(out)@ + word_lower(w@).take(k as int + 1));
        }
        k = k + 1;
    }
    proof {
        assert(word_lower(w@).take(n as int) =~= word_lower(w@));
    }
}

/// Appends the uppercased word.
fn push_word_upper(out: &mut String, w: &Vec<char>)
    ensures
        final(out)@ == old(out)@ + word_upper(w@),
{
    let n = w.len();
    let mut k: usize = 0;
    proof {
        assert(out@ =~= old(out)@ + word_upper(w@).take(0));
    }
    while k < n
        invariant
            k <= n,
            n == w@.len(),
            out@ == old(out)@ + word_upper(w@).take(k as int),
        decreases n - k,
    {
        let c = upper_char(w[k]);
        push_char(out, c);
        proof {
            assert(word_upper(w@).take(k as int + 1) =~= word_upper(w@).take(k as int).push(
                spec_upper_char(w@[k as int]),
            ));
            assert(out@ =~= old(out)@ + word_upper(w@).take(k as int + 1));
        }
        k = k + 1;
    }
    proof {
        assert(word_upper(w@).take(n as int) =~= word_upper(w@));
    }
}

/// Appends the capitalized word.
fn push_word_cap(out: &mut String, w: &Vec<char>)
    ensures
        final(out)@ == old(out)@ + word_cap(w@),
{
    if w.len() == 0 {
        proof {
            assert(out@ =~= old(out)@ + word_cap(w@));
        }
        return ;
    }
    let first = upper_char(lower_char(w[0]));
    push_char(out, first);
    let n = w.len();
    let mut k: usize = 1;
    proof {
        assert(word_lower(w@.drop_first()).take(0) =~= Seq::<char>::empty());
        assert(out@ =~= old(out)@ + seq![spec_upper_char(spec_lower_char(w@[0]))] + word_lower(
            w@.drop_first(),
        ).take(0));
    }
    while k < n
        invariant
            1 <= k <= n,
            n == w@.len(),
            out@ == old(out)@ + seq![spec_upper_char(spec_lower_char(w@[0]))] + word_lower(
                w@.drop_first(),
            ).take(k - 1),
        decreases n - k,
    {
        let c = lower_char(w[k]);
        push_char(out, c);
        proof {
            assert(w@.drop_first()[k - 1] == w@[k as int]);
            assert(word_lower(w@.drop_first()).take(k as int) =~= word_lower(
                w@.drop_first(),
            ).take(k - 1).push(spec_lower_char(w@[k as int])));
            assert(out@ =~= old(out)@ + seq![spec_upper_char(spec_lower_char(w@[0]))]
                + word_lower(w@.drop_first()).take(k as int));
        }
        k = k + 1;
    }
    proof {
        assert(word_lower(w@.drop_first()).take(n - 1) =~= word_lower(w@.drop_first()));
        assert(out@ =~= old(out)@ + word_cap(w@));
    }
}

/// The lowercased words joined with `sep` (`_` for snake, `-` for kebab).
fn render_sep(words: &Vec<Vec<char>>, sep: char) -> (r: String)
    ensures
        r@ == join_sep(words.deep_view(), words.deep_view().len() as int, sep),
{
    let mut out = String::new();
    let n = words.len();
    let mut j: usize = 0;
    proof {
        assert(out@ =~= join_sep(words.deep_view(), 0, sep));
    }
    while j < n
        invariant
            j <= n,
            n == words@.len(),
            words.deep_view().len() == n,
            out@ == join_sep(words.deep_view(), j as int, sep),
        decreases n - j,
    {
        if j > 0 {
            push_char(&mut out, sep);
        }
        push_word_lower(&mut out, &words[j]);
        proof {
            assert(words.deep_view()[j as int] == words@[j as int]@);
            if j == 0 {
                assert(out@ =~= join_sep(words.deep_view(), 1, sep));
            } else {
                assert(out@ =~= join_sep(words.deep_view(), j as int + 1, sep));
            }
        }
        j = j + 1;
    }
    out
}

/// The uppercased words joined with `_`.
fn render_upper(words: &Vec<Vec<char>>) -> (r: String)
    ensures
        r@ == join_upper(words.deep_view(), words.deep_view().len() as int),
{
    let mut out = String::new();
    let n = words.len();
    let mut j: usize = 0;
    proof {
        assert(out@ =~= join_upper(words.deep_view(), 0));
    }
    while j < n
        invariant
            j <= n,
            n == words@.len(),
            words.deep_view().len() == n,
            out@ == join_upper(words.deep_view(), j as int),
        decreases n - j,
    {
        if j > 0 {
            push_char(&mut out, '_');
        }
        push_word_upper(&mut out, &words[j]);
        proof {
            assert(words.deep_view()[j as int] == words@[j as int]@);
            if j == 0 {
                assert(out@ =~= join_upper(words.deep_view(), 1));
            } else {
                assert(out@ =~= join_upper(words.deep_view(), j as int + 1));
            }
        }
        j = j + 1;
    }
    out
}

/// The capitalized words concatenated.
fn render_pascal(words: &Vec<Vec<char>>) -> (r: String)
    ensures
        r@ == join_pascal(words.deep_view(), words.deep_view().len() as int),
{
    let mut out = String::new();
    let n = words.len();
    let mut j: usize = 0;
    proof {
        assert(out@ =~= join_pascal(words.deep_view(), 0));
    }
    while j < n
        invariant
            j <= n,
            n == words@.len(),
            words.deep_view().len() == n,
            out@ == join_pascal(words.deep_view(), j as int),
        decreases n - j,
    {
        push_word_cap(&mut out, &words[j]);
        proof {
            assert(words.deep_view()[j as int] == words@[j as int]@);
            assert(out@ =~= join_pascal(words.deep_view(), j as int + 1));
        }
        j = j + 1;
    }
    out
}

/// Like pascal, with the first word all lowercase.
fn render_camel(words: &Vec<Vec<char>>) -> (r: String)
    ensures
        r@ == join_camel(words.deep_view(), words.deep_view().len() as int),
{
    let mut out = String::new();
    let n = words.len();
    let mut j: usize = 0;
    proof {
        assert(out@ =~= join_camel(words.deep_view(), 0));
    }
    while j < n
        invariant
            j <= n,
            n == words@.len(),
            words.deep_view().len() == n,
            out@ == join_camel(words.deep_view(), j as int),
        decreases n - j,
    {
        if j == 0 {
            push_word_lower(&mut out, &words[0]);
        } else {
            push_word_cap(&mut out, &words[j]);
        }
        proof {
            assert(words.deep_view()[j as int] == words@[j as int]@);
            if j == 0 {
                assert(out@ =~= join_camel(words.deep_view(), 1));
            } else {
                assert(out@ =~= join_camel(words.deep_view(), j as int + 1));
            }
        }
        j = j + 1;
    }
    out
}

impl CanonicalName {
    /// Derives all case forms from a source name.  Total and deterministic: a
    /// pure function of the input text.
    pub fn from_string(input: &str) -> (r: CanonicalName)
        ensures
            r.canonical@ == input@,
            r.snake@ == spec_snake(input@),
            r.pascal@ == spec_pascal(input@),
            r.camel@ == spec_camel(input@),
            r.kebab@ == spec_kebab(input@),
            r.upper@ == spec_upper_name(input@),
            name_wf(r),
    {
        let words = split_into_words(input);
        CanonicalName {
            canonical: input.to_owned(),
            snake: render_sep(&words, '_'),
            pascal: render_pascal(&words),
            camel: render_camel(&words),
            kebab: render_sep(&words, '-'),
            upper: render_upper(&words),
        }
    }
}

} // verus!

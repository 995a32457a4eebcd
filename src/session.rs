//! The batch size that a session runs for, and the round state machine that
//! walks the shuffled entries one answer at a time.
use vstd::prelude::*;

use crate::quiz::{
    answer_of, is_correct, question_of, question_text, trim_line, trimmed_of, verdict_of,
    verdict_text, Entry, Settings,
};

verus! {

/// Whether `c` is a decimal digit.
pub open spec fn is_digit(c: char) -> bool {
    '0' <= c && c <= '9'
}

/// The number that a string of decimal digits writes.
pub open spec fn digits_value(d: Seq<char>) -> nat
    decreases d.len(),
{
    if d.len() == 0 {
        0
    } else {
        digits_value(d.drop_last()) * 10 + ((d.last() as u32) - ('0' as u32)) as nat
    }
}

/// The digits of a typed number: the text after an optional leading `+`.
pub open spec fn number_digits(t: Seq<char>) -> Seq<char> {
    if t.len() > 0 && t[0] == '+' {
        t.subrange(1, t.len() as int)
    } else {
        t
    }
}

/// Whether `t` writes a number: an optional `+`, then one or more digits.
pub open spec fn is_number(t: Seq<char>) -> bool {
    let d = number_digits(t);
    d.len() > 0 && forall|i: int| 0 <= i < d.len() ==> is_digit(#[trigger] d[i])
}

/// The batch size that `t` selects among `n` entries: a number from `1` to
/// `n`; nothing for any other text.
pub open spec fn batch_size_of(t: Seq<char>, n: nat) -> Option<nat> {
    if is_number(t) && 1 <= digits_value(number_digits(t)) <= n {
        Some(digits_value(number_digits(t)))
    } else {
        None
    }
}

/// The batch size that the already trimmed text `text` selects among `n`
/// entries, or `None` where it writes no number from `1` to `n`.
pub fn parse_batch_size(text: &str, n: usize) -> (r: Option<usize>)
    ensures
        r is Some <==> batch_size_of(text@, n as nat) is Some,
        r is Some ==> r->0 as nat == batch_size_of(text@, n as nat)->0,
{
    let ghost t = text@;
    let len = text.unicode_len();
    let mut first: usize = 0;
    if len > 0 && text.get_char(0) == '+' {
        first = 1;
    }
    let ghost d = number_digits(t);
    assert(d =~= t.subrange(first as int, len as int));
    if first >= len {
        return None;
    }
    let mut i: usize = first;
    let mut acc: usize = 0;
    let mut over = false;
    while i < len
        invariant
            len == t.len(),
            d == t.subrange(first as int, len as int),
            d == number_digits(t),
            first <= i <= len,
            forall|k: int| 0 <= k < i - first ==> is_digit(#[trigger] d[k]),
            over == (digits_value(d.subrange(0, i - first)) > n),
            !over ==> acc == digits_value(d.subrange(0, i - first)),
            text@ == t,
        decreases len - i,
    {
        let c = text.get_char(i);
        if !('0' <= c && c <= '9') {
            assert(!is_digit(d[i - first]));
            return None;
        }
        let ghost prev = d.subrange(0, i - first);
        let ghost next = d.subrange(0, i + 1 - first);
        assert(next.drop_last() =~= prev);
        assert(next.last() == c);
        let digit = ((c as u32) - ('0' as u32)) as usize;
        if !over {
            let v: u128 = acc as u128 * 10 + digit as u128;
            if v > n as u128 {
                over = true;
            } else {
                acc = v as usize;
            }
        }
        i = i + 1;
    }
    assert(d.subrange(0, len - first) =~= d);
    if over || acc == 0 {
        None
    } else {
        Some(acc)
    }
}

/// The batch size that a typed line selects among `n` entries, once trimmed.
pub fn batch_size_from_line(line: &str, n: usize) -> (r: Option<usize>)
    ensures
        r is Some <==> batch_size_of(trimmed_of(line@), n as nat) is Some,
        r is Some ==> r->0 as nat == batch_size_of(trimmed_of(line@), n as nat)->0,
{
    parse_batch_size(trim_line(line), n)
}

/// The position after one answer: the next entry after a right answer, the
/// same entry after a wrong one.
pub open spec fn advanced(current: nat, correct: bool) -> nat {
    if correct {
        current + 1
    } else {
        current
    }
}

/// The position after a run of answers, right or wrong as `outcomes` says.
pub open spec fn position_after(current: nat, outcomes: Seq<bool>) -> nat
    decreases outcomes.len(),
{
    if outcomes.len() == 0 {
        current
    } else {
        advanced(position_after(current, outcomes.drop_last()), outcomes.last())
    }
}

/// Wrong answers never move on: after any number of them the same entry is
/// still asked, and the first right answer moves to the next one.
pub proof fn wrong_answers_keep_the_entry(current: nat, wrong: nat)
    ensures
        position_after(current, Seq::new(wrong, |k: int| false)) == current,
        position_after(current, Seq::new(wrong, |k: int| false).push(true)) == current + 1,
    decreases wrong,
{
    let w = Seq::new(wrong, |k: int| false);
    if wrong > 0 {
        wrong_answers_keep_the_entry(current, (wrong - 1) as nat);
        assert(w.drop_last() =~= Seq::new((wrong - 1) as nat, |k: int| false));
    }
    assert(w.push(true).drop_last() =~= w);
}

/// The state of a session as a model: the shuffled entries, the settings, how
/// many entries are asked, the position of the entry being asked, and how many
/// wrong answers it has had.
pub struct QuizView {
    pub entries: Seq<Entry>,
    pub settings: Settings,
    pub batch: nat,
    pub current: nat,
    pub attempts: nat,
}

/// A running session: asks the first `batch` entries in order, each until it
/// is answered right.
pub struct Quiz {
    entries: Vec<Entry>,
    settings: Settings,
    batch: usize,
    current: usize,
    attempts: usize,
}

impl View for Quiz {
    type V = QuizView;

    closed spec fn view(&self) -> QuizView {
        QuizView {
            entries: self.entries@,
            settings: self.settings,
            batch: self.batch as nat,
            current: self.current as nat,
            attempts: self.attempts as nat,
        }
    }
}

impl Quiz {
    /// The session's invariant: the batch is within the entries and the
    /// position within the batch.
    pub open spec fn wf(&self) -> bool {
        self@.batch <= self@.entries.len() && self@.current <= self@.batch
    }

    /// Whether every entry of the batch has been answered right.
    pub open spec fn finished(&self) -> bool {
        self@.current >= self@.batch
    }

    /// A session over `entries` that asks the first `batch` of them.
    pub fn new(entries: Vec<Entry>, settings: Settings, batch: usize) -> (r: Quiz)
        requires
            1 <= batch <= entries@.len(),
        ensures
            r.wf(),
            r@ == (QuizView {
                entries: entries@,
                settings,
                batch: batch as nat,
                current: 0,
                attempts: 0,
            }),
    {
        Quiz { entries, settings, batch, current: 0, attempts: 0 }
    }

    /// Whether every entry of the batch has been answered right.
    pub fn is_finished(&self) -> (r: bool)
        ensures
            r == self.finished(),
    {
        self.current >= self.batch
    }

    /// The position of the entry being asked.
    pub fn position(&self) -> (r: usize)
        ensures
            r as nat == self@.current,
    {
        self.current
    }

    /// How many wrong answers the entry being asked has had.
    pub fn attempts(&self) -> (r: usize)
        ensures
            r as nat == self@.attempts,
    {
        self.attempts
    }

    /// The entry being asked.
    pub fn current_entry(&self) -> (r: &Entry)
        requires
            self.wf(),
            !self.finished(),
        ensures
            *r == self@.entries[self@.current as int],
    {
        &self.entries[self.current]
    }

    /// The question line for the entry being asked.
    pub fn question(&self) -> (r: String)
        requires
            self.wf(),
            !self.finished(),
        ensures
            r@ == question_of(self@.entries[self@.current as int], self@.settings),
    {
        question_text(&self.entries[self.current], &self.settings)
    }

    /// Records an already trimmed answer to the entry being asked and returns
    /// the verdict line: a right answer moves to the next entry, a wrong one
    /// keeps the same entry and counts one more wrong answer.
    pub fn record_answer(&mut self, answer: &str) -> (r: String)
        requires
            old(self).wf(),
            !old(self).finished(),
        ensures
            ({
                let e = old(self)@.entries[old(self)@.current as int];
                let correct = answer@ == answer_of(e, old(self)@.settings.country_mode);
                &&& final(self).wf()
                &&& final(self)@.entries == old(self)@.entries
                &&& final(self)@.settings == old(self)@.settings
                &&& final(self)@.batch == old(self)@.batch
                &&& final(self)@.current == advanced(old(self)@.current, correct)
                &&& final(self)@.attempts == if correct {
                    0
                } else if old(self)@.attempts < usize::MAX {
                    old(self)@.attempts + 1
                } else {
                    old(self)@.attempts
                }
                &&& r@ == verdict_of(correct, e, old(self)@.settings)
            }),
    {
        let correct = is_correct(answer, &self.entries[self.current], self.settings.country_mode);
        let r = verdict_text(correct, &self.entries[self.current], &self.settings);
        if correct {
            self.current = self.current + 1;
            self.attempts = 0;
        } else if self.attempts < usize::MAX {
            self.attempts = self.attempts + 1;
        }
        r
    }

    /// Records a typed line, once trimmed, as the answer to the entry being
    /// asked (see `record_answer`).
    pub fn answer(&mut self, line: &str) -> (r: String)
        requires
            old(self).wf(),
            !old(self).finished(),
        ensures
            ({
                let e = old(self)@.entries[old(self)@.current as int];
                let correct = trimmed_of(line@) == answer_of(e, old(self)@.settings.country_mode);
                &&& final(self).wf()
                &&& final(self)@.entries == old(self)@.entries
                &&& final(self)@.settings == old(self)@.settings
                &&& final(self)@.batch == old(self)@.batch
                &&& final(self)@.current == advanced(old(self)@.current, correct)
                &&& r@ == verdict_of(correct, e, old(self)@.settings)
            }),
    {
        self.record_answer(trim_line(line))
    }
}

} // verus!

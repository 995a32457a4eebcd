//! Entries, session settings, and the texts and judgement of one round.
use vstd::prelude::*;

verus! {

/// One dataset record: a country, its flag glyph and its capital.
pub struct Entry {
    pub name: String,
    pub emblem: String,
    pub capital: String,
}

impl Entry {
    /// An entry from its three texts.
    pub fn new(name: &str, emblem: &str, capital: &str) -> (r: Entry)
        ensures
            r.name@ == name@,
            r.emblem@ == emblem@,
            r.capital@ == capital@,
    {
        Entry {
            name: String::from_str(name),
            emblem: String::from_str(emblem),
            capital: String::from_str(capital),
        }
    }
}

/// How much a wrong answer reveals.
#[derive(Clone, Copy, Debug, PartialEq, Eq, Structural)]
pub enum HintAmount {
    NoHint,
    Full,
    Partial,
}

/// The settings of a session, fixed before the first question.
#[derive(Clone, Copy, Debug, PartialEq, Eq, Structural)]
pub struct Settings {
    pub colorize: bool,
    pub flag_only: bool,
    pub country_mode: bool,
    pub hint: HintAmount,
}

/// The hint amount that the requested options give: no hint wins; a partial
/// hint takes effect only together with flag-only questions; else full.
pub open spec fn hint_amount_of(no_hint: bool, partial: bool, flag_only: bool) -> HintAmount {
    if no_hint {
        HintAmount::NoHint
    } else if partial && flag_only {
        HintAmount::Partial
    } else {
        HintAmount::Full
    }
}

/// The hint amount for the requested options (see `hint_amount_of`).
pub fn hint_amount(no_hint: bool, partial: bool, flag_only: bool) -> (r: HintAmount)
    ensures
        r == hint_amount_of(no_hint, partial, flag_only),
{
    if no_hint {
        HintAmount::NoHint
    } else if partial && flag_only {
        HintAmount::Partial
    } else {
        HintAmount::Full
    }
}

impl Settings {
    /// Settings from the requested options, with the hint amount that they
    /// give together.
    pub fn new(
        colorize: bool,
        flag_only: bool,
        country_mode: bool,
        no_hint: bool,
        partial_hint: bool,
    ) -> (r: Settings)
        ensures
            r.colorize == colorize,
            r.flag_only == flag_only,
            r.country_mode == country_mode,
            r.hint == hint_amount_of(no_hint, partial_hint, flag_only),
    {
        Settings { colorize, flag_only, country_mode, hint: hint_amount(no_hint, partial_hint, flag_only) }
    }
}

/// The text that must be typed: the country in country mode, else the capital.
pub open spec fn answer_of(e: Entry, country_mode: bool) -> Seq<char> {
    if country_mode {
        e.name@
    } else {
        e.capital@
    }
}

/// The other text of the pair: the capital in country mode, else the country.
pub open spec fn cue_of(e: Entry, country_mode: bool) -> Seq<char> {
    if country_mode {
        e.capital@
    } else {
        e.name@
    }
}

/// The question line for `e`.
pub open spec fn question_of(e: Entry, s: Settings) -> Seq<char> {
    (if s.country_mode {
        "Country for "@
    } else {
        "Capital of "@
    }) + (if s.flag_only {
        Seq::<char>::empty()
    } else {
        cue_of(e, s.country_mode) + ", "@
    }) + e.emblem@ + "?"@
}

/// The hint shown after a wrong answer.
pub open spec fn hint_of(e: Entry, s: Settings) -> Seq<char> {
    match s.hint {
        HintAmount::NoHint => Seq::<char>::empty(),
        HintAmount::Full => ", "@ + answer_of(e, s.country_mode) + (if s.flag_only {
            " ("@ + cue_of(e, s.country_mode) + ")"@
        } else {
            Seq::<char>::empty()
        }),
        HintAmount::Partial => ". Hint: "@ + cue_of(e, s.country_mode),
    }
}

/// The escape sequence that ends a colored span.
pub open spec fn color_reset() -> Seq<char> {
    "\x1b[0;0m"@
}

/// `txt` wrapped in `color` and the reset sequence when coloring is on.
pub open spec fn colorized_of(colorize: bool, txt: Seq<char>, color: Seq<char>) -> Seq<char> {
    if colorize {
        color + txt + color_reset()
    } else {
        txt
    }
}

/// The line shown after an answer: a colored verdict, then the hint after a
/// wrong answer, then a period.
pub open spec fn verdict_of(correct: bool, e: Entry, s: Settings) -> Seq<char> {
    if correct {
        colorized_of(s.colorize, "Yes"@, "\x1b[0;32m"@) + "."@
    } else {
        colorized_of(s.colorize, "Never"@, "\x1b[0;31m"@) + hint_of(e, s) + "."@
    }
}

/// The text that must be typed for `e`.
pub fn expected_answer(e: &Entry, country_mode: bool) -> (r: &String)
    ensures
        r@ == answer_of(*e, country_mode),
{
    if country_mode {
        &e.name
    } else {
        &e.capital
    }
}

/// The other text of the pair for `e`.
pub fn cue(e: &Entry, country_mode: bool) -> (r: &String)
    ensures
        r@ == cue_of(*e, country_mode),
{
    if country_mode {
        &e.capital
    } else {
        &e.name
    }
}

/// The question line for `e`.
pub fn question_text(e: &Entry, s: &Settings) -> (r: String)
    ensures
        r@ == question_of(*e, *s),
{
    let mut q = if s.country_mode {
        String::from_str("Country for ")
    } else {
        String::from_str("Capital of ")
    };
    if !s.flag_only {
        q.append(cue(e, s.country_mode).as_str());
        q.append(", ");
    }
    q.append(e.emblem.as_str());
    q.append("?");
    q
}

/// The hint after a wrong answer to `e`.
pub fn hint_text(e: &Entry, s: &Settings) -> (r: String)
    ensures
        r@ == hint_of(*e, *s),
{
    let mut h = String::new();
    match s.hint {
        HintAmount::NoHint => {},
        HintAmount::Full => {
            h.append(", ");
            h.append(expected_answer(e, s.country_mode).as_str());
            if s.flag_only {
                h.append(" (");
                h.append(cue(e, s.country_mode).as_str());
                h.append(")");
            }
        },
        HintAmount::Partial => {
            h.append(". Hint: ");
            h.append(cue(e, s.country_mode).as_str());
        },
    }
    h
}

/// `txt` wrapped in `color` and the reset sequence when `colorize` is set,
/// else `txt` as it is.
pub fn colorized(colorize: bool, txt: &str, color: &str) -> (r: String)
    ensures
        r@ == colorized_of(colorize, txt@, color@),
{
    let mut out = String::from_str(txt);
    if colorize {
        out = String::from_str(color);
        out.append(txt);
        out.append("\x1b[0;0m");
    }
    out
}

/// The line shown after an answer to `e` that was right or wrong.
pub fn verdict_text(correct: bool, e: &Entry, s: &Settings) -> (r: String)
    ensures
        r@ == verdict_of(correct, *e, *s),
{
    let mut line;
    if correct {
        line = colorized(s.colorize, "Yes", "\x1b[0;32m");
    } else {
        line = colorized(s.colorize, "Never", "\x1b[0;31m");
        let h = hint_text(e, s);
        line.append(h.as_str());
    }
    line.append(".");
    line
}

/// The line without its leading and trailing whitespace, as `str::trim`
/// gives it.
pub uninterp spec fn trimmed_of(s: Seq<char>) -> Seq<char>;

/// Relies on `str::trim`: the line without leading and trailing whitespace
/// (line terminators included), a function of its characters alone.
#[verifier::external_body]
pub(crate) fn trim_line(line: &str) -> (r: &str)
    ensures
        r@ == trimmed_of(line@),
{
    line.trim()
}

/// Whether an already trimmed answer is right for `e`: exact, case-sensitive
/// equality with the expected text.
pub fn is_correct(answer: &str, e: &Entry, country_mode: bool) -> (r: bool)
    ensures
        r == (answer@ == answer_of(*e, country_mode)),
{
    let a = String::from_str(answer);
    a.eq(expected_answer(e, country_mode))
}

/// Whether the line typed for `e` is right once trimmed.
pub fn judge_line(line: &str, e: &Entry, country_mode: bool) -> (r: bool)
    ensures
        r == (trimmed_of(line@) == answer_of(*e, country_mode)),
{
    is_correct(trim_line(line), e, country_mode)
}

/// Every question line ends with the entry's flag glyph and a question mark,
/// whatever the mode.
pub proof fn question_shows_emblem(e: Entry, s: Settings)
    ensures
        ({
            let q = question_of(e, s);
            let k = q.len() - 1 - e.emblem@.len();
            0 <= k && q.subrange(k, k + e.emblem@.len()) == e.emblem@
        }),
{
    let q = question_of(e, s);
    let head = (if s.country_mode {
        "Country for "@
    } else {
        "Capital of "@
    }) + (if s.flag_only {
        Seq::<char>::empty()
    } else {
        cue_of(e, s.country_mode) + ", "@
    });
    reveal_strlit("?");
    assert(q == head + e.emblem@ + "?"@);
    let k = q.len() - 1 - e.emblem@.len();
    assert(k == head.len());
    assert(q.subrange(k, k + e.emblem@.len()) =~= e.emblem@);
}

/// What a wrong answer reveals at each hint amount, the rest of the settings
/// alike: nothing; the expected text, with the other text in parentheses in
/// flag-only mode; or the other text alone.
pub proof fn hint_amounts_reveal(e: Entry, s: Settings)
    ensures
        hint_of(e, Settings { hint: HintAmount::NoHint, ..s }) == Seq::<char>::empty(),
        hint_of(e, Settings { hint: HintAmount::Full, ..s }) == ", "@ + answer_of(e, s.country_mode)
            + (if s.flag_only {
            " ("@ + cue_of(e, s.country_mode) + ")"@
        } else {
            Seq::<char>::empty()
        }),
        hint_of(e, Settings { hint: HintAmount::Partial, ..s }) == ". Hint: "@ + cue_of(
            e,
            s.country_mode,
        ),
{
}

} // verus!

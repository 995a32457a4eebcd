use capitals_quiz::quiz::{
    colorized, cue, expected_answer, hint_amount, hint_text, is_correct, judge_line,
    question_text, verdict_text, Entry, HintAmount, Settings,
};

fn canada() -> Entry {
    Entry::new("Canada", "🇨🇦", "Ottawa")
}

fn settings(flag_only: bool, country_mode: bool, hint: HintAmount) -> Settings {
    Settings { colorize: false, flag_only, country_mode, hint }
}

#[test]
fn question_texts_in_every_mode() {
    let e = canada();
    let q = question_text(&e, &settings(false, false, HintAmount::Full));
    assert_eq!(q, "Capital of Canada, 🇨🇦?");
    let q = question_text(&e, &settings(false, true, HintAmount::Full));
    assert_eq!(q, "Country for Ottawa, 🇨🇦?");
    let q = question_text(&e, &settings(true, false, HintAmount::Full));
    assert_eq!(q, "Capital of 🇨🇦?");
    let q = question_text(&e, &settings(true, true, HintAmount::Full));
    assert_eq!(q, "Country for 🇨🇦?");
}

#[test]
fn question_always_shows_emblem() {
    let entries = vec![
        canada(),
        Entry::new("Guatemala", "🇬🇹", "Guatemala City"),
        Entry::new("Saint Vincent and the Grenadines", "🇻🇨", "Kingstown"),
    ];
    for e in entries.iter() {
        for flag_only in [false, true] {
            for country_mode in [false, true] {
                let q = question_text(e, &settings(flag_only, country_mode, HintAmount::NoHint));
                assert!(q.contains(e.emblem.as_str()));
            }
        }
    }
}

#[test]
fn answer_is_judged_after_trimming() {
    let e = canada();
    assert!(judge_line(" Ottawa\n", &e, false));
    assert!(judge_line("Ottawa\r\n", &e, false));
    assert!(!judge_line("ottawa", &e, false));
    assert!(!judge_line("Ottawa", &e, true));
    assert!(judge_line("\tCanada ", &e, true));
    assert!(!judge_line("", &e, false));
}

#[test]
fn trimmed_answer_is_compared_exactly() {
    let e = canada();
    assert!(is_correct("Ottawa", &e, false));
    assert!(!is_correct(" Ottawa", &e, false));
    assert!(!is_correct("OTTAWA", &e, false));
    assert!(is_correct("Canada", &e, true));
    assert_eq!(expected_answer(&e, false), "Ottawa");
    assert_eq!(expected_answer(&e, true), "Canada");
    assert_eq!(cue(&e, false), "Canada");
    assert_eq!(cue(&e, true), "Ottawa");
}

#[test]
fn hint_differs_by_level() {
    let e = canada();
    assert_eq!(hint_text(&e, &settings(false, false, HintAmount::NoHint)), "");
    assert_eq!(hint_text(&e, &settings(false, false, HintAmount::Full)), ", Ottawa");
    assert_eq!(hint_text(&e, &settings(true, false, HintAmount::Full)), ", Ottawa (Canada)");
    assert_eq!(hint_text(&e, &settings(true, true, HintAmount::Full)), ", Canada (Ottawa)");
    let partial = hint_text(&e, &settings(true, false, HintAmount::Partial));
    assert_eq!(partial, ". Hint: Canada");
    assert!(!partial.contains("Ottawa"));
    let partial = hint_text(&e, &settings(true, true, HintAmount::Partial));
    assert_eq!(partial, ". Hint: Ottawa");
    assert!(!partial.contains("Canada"));
}

#[test]
fn partial_hint_needs_flag_only() {
    assert_eq!(hint_amount(false, true, true), HintAmount::Partial);
    assert_eq!(hint_amount(false, true, false), HintAmount::Full);
    assert_eq!(hint_amount(true, true, true), HintAmount::NoHint);
    assert_eq!(hint_amount(true, false, false), HintAmount::NoHint);
    assert_eq!(hint_amount(false, false, true), HintAmount::Full);
    let s = Settings::new(true, false, true, false, true);
    assert_eq!(s.hint, HintAmount::Full);
    assert!(s.colorize);
    assert!(!s.flag_only);
    assert!(s.country_mode);
}

#[test]
fn colorized_wraps_only_when_on() {
    assert_eq!(colorized(true, "Yes", "\x1b[0;32m"), "\x1b[0;32mYes\x1b[0;0m");
    assert_eq!(colorized(false, "Yes", "\x1b[0;32m"), "Yes");
    assert_eq!(colorized(true, "", "\x1b[0;43m"), "\x1b[0;43m\x1b[0;0m");
}

#[test]
fn verdict_lines() {
    let e = canada();
    let plain = settings(false, false, HintAmount::Full);
    assert_eq!(verdict_text(true, &e, &plain), "Yes.");
    assert_eq!(verdict_text(false, &e, &plain), "Never, Ottawa.");
    let colored = Settings { colorize: true, ..plain };
    assert_eq!(verdict_text(true, &e, &colored), "\x1b[0;32mYes\x1b[0;0m.");
    assert_eq!(verdict_text(false, &e, &colored), "\x1b[0;31mNever\x1b[0;0m, Ottawa.");
    let quiet = settings(false, false, HintAmount::NoHint);
    assert_eq!(verdict_text(false, &e, &quiet), "Never.");
}

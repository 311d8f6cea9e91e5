//! Log levels: how the level is chosen from the environment and the command
//! line, and a minimal tracer that decides which events are shown, and with
//! which spans.
use vstd::prelude::*;
use crate::item::text_is;
use crate::text::{decimal, decimal_text, split_spec, split_text, contains_char};
use crate::error::texts;
pub use crate::tracer::{MinimalTracer, StringVisitor, LogFilter, rust_log_is_valid};

verus! {

broadcast use {vstd::std_specs::vec::group_vec_axioms, vstd::std_specs::hash::group_hash_axioms};

/// The level of an event, from the most to the least severe.
#[derive(Debug, Clone, Copy, PartialEq, Eq, Structural)]
pub enum Level {
    Error,
    Warn,
    Info,
    Debug,
    Trace,
}

/// The most verbose level that is shown, or none at all.
#[derive(Debug, Clone, Copy, PartialEq, Eq, Structural)]
pub enum LevelFilter {
    Off,
    Error,
    Warn,
    Info,
    Debug,
    Trace,
}

/// The level that is shown where nothing else is chosen.
pub const DEFAULT_LOG_LEVEL: LevelFilter = LevelFilter::Warn;

/// How verbose a level is: `Error` is 1, `Trace` is 5.
pub open spec fn level_rank(l: Level) -> int {
    match l {
        Level::Error => 1,
        Level::Warn => 2,
        Level::Info => 3,
        Level::Debug => 4,
        Level::Trace => 5,
    }
}

/// How verbose a filter is: `Off` is 0, `Trace` is 5.
pub open spec fn filter_rank(f: LevelFilter) -> int {
    match f {
        LevelFilter::Off => 0,
        LevelFilter::Error => 1,
        LevelFilter::Warn => 2,
        LevelFilter::Info => 3,
        LevelFilter::Debug => 4,
        LevelFilter::Trace => 5,
    }
}

/// The filter of verbosity `n`; anything above 5 is `Trace`.
pub open spec fn filter_of_rank(n: int) -> LevelFilter {
    if n <= 0 {
        LevelFilter::Off
    } else if n == 1 {
        LevelFilter::Error
    } else if n == 2 {
        LevelFilter::Warn
    } else if n == 3 {
        LevelFilter::Info
    } else if n == 4 {
        LevelFilter::Debug
    } else {
        LevelFilter::Trace
    }
}

/// The name of a filter as it is displayed.
pub open spec fn filter_name_spec(f: LevelFilter) -> Seq<char> {
    match f {
        LevelFilter::Off => "off"@,
        LevelFilter::Error => "error"@,
        LevelFilter::Warn => "warn"@,
        LevelFilter::Info => "info"@,
        LevelFilter::Debug => "debug"@,
        LevelFilter::Trace => "trace"@,
    }
}

/// The name of a filter as it is displayed.
pub fn filter_name(f: LevelFilter) -> (r: &'static str)
    ensures
        r@ == filter_name_spec(f),
{
    match f {
        LevelFilter::Off => "off",
        LevelFilter::Error => "error",
        LevelFilter::Warn => "warn",
        LevelFilter::Info => "info",
        LevelFilter::Debug => "debug",
        LevelFilter::Trace => "trace",
    }
}

/// What `str::to_lowercase` gives for a text.
pub uninterp spec fn lowercase_spec(s: Seq<char>) -> Seq<char>;

/// The ASCII lowercase of a character: `A` to `Z` become `a` to `z`.
pub open spec fn ascii_lower(c: char) -> char {
    if 'A' <= c <= 'Z' {
        ((c as u32) + 32) as char
    } else {
        c
    }
}

/// Whether every character of a text is ASCII.
pub open spec fn is_ascii_text(s: Seq<char>) -> bool {
    forall|i: int| 0 <= i < s.len() ==> (s[i] as u32) < 128
}

/// The ASCII lowercase of each character of a text.
pub open spec fn ascii_lowercase(s: Seq<char>) -> Seq<char> {
    s.map_values(|c: char| ascii_lower(c))
}

/// The lowercase of a text.
///
/// Wraps `str::to_lowercase`.  Its result is a function of the text alone,
/// named `lowercase_spec`; for a text of ASCII characters it is the ASCII
/// lowercase of each character, as the Unicode lowercase mapping is there.
/// What it gives for other characters is left unsaid.
#[verifier::external_body]
fn to_lowercase(s: &str) -> (r: String)
    ensures
        r@ == lowercase_spec(s@),
        is_ascii_text(s@) ==> r@ == ascii_lowercase(s@),
{
    s.to_lowercase()
}

/// The level named by a lowercase text.
pub open spec fn level_of_text(t: Seq<char>) -> Option<Level> {
    if t == "info"@ {
        Some(Level::Info)
    } else if t == "debug"@ {
        Some(Level::Debug)
    } else if t == "warn"@ || t == "warning"@ {
        Some(Level::Warn)
    } else if t == "trace"@ {
        Some(Level::Trace)
    } else if t == "error"@ {
        Some(Level::Error)
    } else {
        None
    }
}

/// The filter named by a lowercase text; `none` turns logging off.
pub open spec fn filter_of_text(t: Seq<char>) -> Option<LevelFilter> {
    if t == "none"@ {
        Some(LevelFilter::Off)
    } else if t == "trace"@ {
        Some(LevelFilter::Trace)
    } else if t == "debug"@ {
        Some(LevelFilter::Debug)
    } else if t == "info"@ {
        Some(LevelFilter::Info)
    } else if t == "warn"@ {
        Some(LevelFilter::Warn)
    } else if t == "error"@ {
        Some(LevelFilter::Error)
    } else {
        None
    }
}

/// The level named by a text, in any case.
pub fn string_to_level(string: &str) -> (r: Option<Level>)
    ensures
        r == level_of_text(lowercase_spec(string@)),
        is_ascii_text(string@) ==> r == level_of_text(ascii_lowercase(string@)),
{
    let lower = to_lowercase(string);
    let t = lower.as_str();
    if text_is(t, "info") {
        Some(Level::Info)
    } else if text_is(t, "debug") {
        Some(Level::Debug)
    } else if text_is(t, "warn") || text_is(t, "warning") {
        Some(Level::Warn)
    } else if text_is(t, "trace") {
        Some(Level::Trace)
    } else if text_is(t, "error") {
        Some(Level::Error)
    } else {
        None
    }
}

/// The filter named by a text, in any case.
pub fn filter_from_text(string: &str) -> (r: Option<LevelFilter>)
    ensures
        r == filter_of_text(lowercase_spec(string@)),
        is_ascii_text(string@) ==> r == filter_of_text(ascii_lowercase(string@)),
{
    let lower = to_lowercase(string);
    let t = lower.as_str();
    if text_is(t, "none") {
        Some(LevelFilter::Off)
    } else if text_is(t, "trace") {
        Some(LevelFilter::Trace)
    } else if text_is(t, "debug") {
        Some(LevelFilter::Debug)
    } else if text_is(t, "info") {
        Some(LevelFilter::Info)
    } else if text_is(t, "warn") {
        Some(LevelFilter::Warn)
    } else if text_is(t, "error") {
        Some(LevelFilter::Error)
    } else {
        None
    }
}

/// The value of an environment variable: missing, a text, or bytes that are
/// no valid Unicode (with the text they give where the invalid parts are
/// replaced).
pub enum EnvValue {
    Missing,
    Text(String),
    NotUnicode(Vec<u8>, String),
}

/// The lowercase hexadecimal digit of `n`.
pub open spec fn hex_digit(n: int) -> char {
    if n < 10 {
        (n + 48) as char
    } else {
        (n + 87) as char
    }
}

/// The bytes written as two lowercase hexadecimal digits each.
pub open spec fn hex_spec(b: Seq<u8>) -> Seq<char>
    decreases b.len(),
{
    if b.len() == 0 {
        Seq::empty()
    } else {
        hex_spec(b.drop_last()) + seq![hex_digit(b.last() as int / 16), hex_digit(b.last() as int % 16)]
    }
}

fn hex_digit_of(n: u8) -> (r: char)
    requires
        n < 16,
    ensures
        r == hex_digit(n as int),
{
    if n < 10 {
        (n + 48) as char
    } else {
        (n + 87) as char
    }
}

/// The bytes written as two lowercase hexadecimal digits each.
pub fn hex(b: &[u8]) -> (r: String)
    ensures
        r@ == hex_spec(b@),
{
    let mut out = String::new();
    let mut i: usize = 0;
    while i < b.len()
        invariant
            i <= b@.len(),
            out@ == hex_spec(b@.take(i as int)),
        decreases b@.len() - i,
    {
        let x = b[i];
        let hi = hex_digit_of(x / 16);
        let lo = hex_digit_of(x % 16);
        let mut pair = String::new();
        push_char(&mut pair, hi);
        push_char(&mut pair, lo);
        out.append(pair.as_str());
        proof {
            assert(b@.take(i + 1).drop_last() =~= b@.take(i as int));
            assert(b@.take(i + 1).last() == x);
        }
        i = i + 1;
    }
    assert(b@.take(b@.len() as int) =~= b@);
    out
}

fn push_char(s: &mut String, c: char)
    ensures
        final(s)@ == old(s)@.push(c),
{
    let mut v: Vec<char> = Vec::new();
    v.push(c);
    let t = crate::text::string_from_chars(v.as_slice());
    s.append(t.as_str());
    assert(t@ =~= seq![c]);
}

/// What the value of the environment variable `var_name` says of the level,
/// where `log_level` is the level so far, and the messages to log of it.
pub open spec fn level_from_env_spec(var_name: Seq<char>, value: EnvValue, log_level: LevelFilter) -> (
    Option<LevelFilter>,
    Seq<(Level, Seq<char>)>,
) {
    match value {
        EnvValue::Missing => (None, Seq::empty()),
        EnvValue::Text(v) => match filter_of_text(lowercase_spec(v@)) {
            Some(f) => (Some(f), Seq::empty()),
            None => (
                Some(log_level),
                seq![
                    (
                        Level::Warn,
                        "The value of Environment Variable "@ + var_name + ": \""@ + v@
                            + "\" is not a valid log-level. loglevel stays at: "@ + filter_name_spec(
                            log_level,
                        ),
                    ),
                ],
            ),
        },
        EnvValue::NotUnicode(b, lossy) => (
            None,
            seq![
                (
                    Level::Debug,
                    "value of Environment Variable "@ + var_name
                        + " was not a unicode valid string. Therefore ignoring it.\n value with replacement char U+FFFD: "@
                        + lossy@ + "\n the WTF-8 raw bytes as hex: "@ + hex_spec(b@),
                ),
            ],
        ),
    }
}

/// The models of a list of messages.
pub open spec fn messages_view(m: Seq<(Level, String)>) -> Seq<(Level, Seq<char>)> {
    Seq::new(m.len(), |i: int| (m[i].0, m[i].1@))
}

/// What the value of an environment variable says of the level (see
/// `level_from_env_spec`).
pub fn level_from_env(var_name: &str, value: EnvValue, log_level: LevelFilter) -> (r: (
    Option<LevelFilter>,
    Vec<(Level, String)>,
))
    ensures
        r.0 == level_from_env_spec(var_name@, value, log_level).0,
        messages_view(r.1@) == level_from_env_spec(var_name@, value, log_level).1,
{
    let mut messages: Vec<(Level, String)> = Vec::new();
    match value {
        EnvValue::Missing => {
            assert(messages_view(messages@) =~= Seq::<(Level, Seq<char>)>::empty());
            (None, messages)
        },
        EnvValue::Text(v) => match filter_from_text(v.as_str()) {
            Some(f) => {
                assert(messages_view(messages@) =~= Seq::<(Level, Seq<char>)>::empty());
                (Some(f), messages)
            },
            None => {
                let mut m = String::from_str("The value of Environment Variable ");
                m.append(var_name);
                m.append(": \"");
                m.append(v.as_str());
                m.append("\" is not a valid log-level. loglevel stays at: ");
                m.append(filter_name(log_level));
                messages.push((Level::Warn, m));
                proof {
                    let sp = level_from_env_spec(var_name@, EnvValue::Text(v), log_level).1;
                    assert(messages_view(messages@) =~= sp);
                }
                (Some(log_level), messages)
            },
        },
        EnvValue::NotUnicode(b, lossy) => {
            let mut m = String::from_str("value of Environment Variable ");
            m.append(var_name);
            m.append(
                " was not a unicode valid string. Therefore ignoring it.\n value with replacement char U+FFFD: ",
            );
            m.append(lossy.as_str());
            m.append("\n the WTF-8 raw bytes as hex: ");
            let h = hex(b.as_slice());
            m.append(h.as_str());
            messages.push((Level::Debug, m));
            proof {
                let sp = level_from_env_spec(var_name@, EnvValue::NotUnicode(b, lossy), log_level).1;
                assert(messages_view(messages@) =~= sp);
            }
            (None, messages)
        },
    }
}

fn filter_of_num(n: u16) -> (r: LevelFilter)
    ensures
        r == filter_of_rank(n as int),
{
    if n == 0 {
        LevelFilter::Off
    } else if n == 1 {
        LevelFilter::Error
    } else if n == 2 {
        LevelFilter::Warn
    } else if n == 3 {
        LevelFilter::Info
    } else if n == 4 {
        LevelFilter::Debug
    } else {
        LevelFilter::Trace
    }
}

fn rank_of_filter(f: LevelFilter) -> (r: u16)
    ensures
        r == filter_rank(f),
{
    match f {
        LevelFilter::Off => 0,
        LevelFilter::Error => 1,
        LevelFilter::Warn => 2,
        LevelFilter::Info => 3,
        LevelFilter::Debug => 4,
        LevelFilter::Trace => 5,
    }
}

/// The level of logging that the command line chooses: the number of
/// verbose flags counted up from the default (whatever `RUST_LOG` and
/// `MIZE_LOG` said before), then a valid `--log-level` argument, then
/// `--silent`, which turns logging off.
pub open spec fn chosen_level(default: LevelFilter, verbose: u8, arg: Option<Seq<char>>, silent: bool) -> LevelFilter {
    if silent {
        LevelFilter::Off
    } else {
        arg_level(arg, filter_of_rank(filter_rank(default) + verbose))
    }
}

/// The level of logging, and the messages that tell how it was chosen.
pub struct LogSetup {
    pub level: LevelFilter,
    pub messages: Vec<(Level, String)>,
}

/// A message of level `Trace`.
pub open spec fn trace_msg(t: Seq<char>) -> (Level, Seq<char>) {
    (Level::Trace, t)
}

/// The messages of the step that reads the variable `var`, where the level
/// so far is `level`: the level it sets, then what was wrong with its value.
#[verifier::opaque]
pub open spec fn env_step_messages(var: Seq<char>, value: EnvValue, level: LevelFilter) -> Seq<(Level, Seq<char>)> {
    (match level_from_env_spec(var, value, level).0 {
        Some(l) => seq![trace_msg("set log level from the Variable "@ + var + " to "@ + filter_name_spec(l))],
        None => Seq::empty(),
    }) + level_from_env_spec(var, value, level).1
}

/// The messages of the step that counts the verbose flags.
#[verifier::opaque]
pub open spec fn verbose_step_messages(default: LevelFilter, verbose: u8) -> Seq<(Level, Seq<char>)> {
    let n = filter_rank(default) + verbose;
    (if n > 5 {
        seq![
            trace_msg(
                "the number of verbose (-v) flags passed ("@ + decimal(verbose as nat)
                    + ") exeeds the maximumg log_level"@,
            ),
        ]
    } else {
        Seq::empty()
    }) + seq![trace_msg("set log level from the verbose flags to "@ + filter_name_spec(filter_of_rank(n)))]
}

/// The level after the `--log-level` argument, where the level so far is
/// `level`.
pub open spec fn arg_level(arg: Option<Seq<char>>, level: LevelFilter) -> LevelFilter {
    match arg {
        Some(a) => match filter_of_text(lowercase_spec(a)) {
            Some(f) => f,
            None => level,
        },
        None => level,
    }
}

/// The messages of the step that reads the `--log-level` argument.
#[verifier::opaque]
pub open spec fn arg_step_messages(arg: Option<Seq<char>>, level: LevelFilter) -> Seq<(Level, Seq<char>)> {
    match arg {
        None => Seq::empty(),
        Some(a) => match filter_of_text(lowercase_spec(a)) {
            Some(f) => seq![trace_msg("set log level from the --log-level arg to "@ + filter_name_spec(f))],
            None => seq![
                (
                    Level::Warn,
                    "The argument to --log-level \""@ + a
                        + "\" is not a valid log-level. loglevel stays at: "@ + filter_name_spec(level),
                ),
                trace_msg("set log level from the --log-level arg to "@ + filter_name_spec(level)),
            ],
        },
    }
}

/// The message of the `--silent` flag, where it overrides a level that was set.
#[verifier::opaque]
pub open spec fn silent_step_messages(silent: bool, level: LevelFilter, default: LevelFilter) -> Seq<(Level, Seq<char>)> {
    if silent && level != default {
        seq![
            (
                Level::Warn,
                "The loglevel was set by some method (it's not the DEFAULT_LOG_LEVEL) and is now overwritten by the --siltne to be OFF"@,
            ),
        ]
    } else {
        Seq::empty()
    }
}

/// The messages that tell how the level of logging was chosen, step by step:
/// the start, the default, each variable, the verbose flags, the
/// `--log-level` argument, the `--silent` flag, and the level chosen.
pub open spec fn setup_messages(
    default: LevelFilter,
    rust_log: EnvValue,
    mize_log: EnvValue,
    verbose: u8,
    arg: Option<Seq<char>>,
    silent: bool,
) -> Seq<(Level, Seq<char>)> {
    let l1 = match level_from_env_spec("RUST_LOG"@, rust_log, default).0 {
        Some(l) => l,
        None => default,
    };
    let l3 = filter_of_rank(filter_rank(default) + verbose);
    let l4 = arg_level(arg, l3);
    let l5 = if silent {
        LevelFilter::Off
    } else {
        l4
    };
    seq![
        (Level::Info, "Starting Mize"@),
        trace_msg("set log level from DEFAULT_LOG_LEVEL to "@ + filter_name_spec(default)),
    ] + env_step_messages("RUST_LOG"@, rust_log, default) + env_step_messages("MIZE_LOG"@, mize_log, l1)
        + verbose_step_messages(default, verbose) + arg_step_messages(arg, l3) + silent_step_messages(
        silent,
        l4,
        default,
    ) + seq![(Level::Info, "loglevel is now "@ + filter_name_spec(l5))]
}

proof fn lemma_messages_append(a: Seq<(Level, String)>, b: Seq<(Level, String)>)
    ensures
        messages_view(a + b) == messages_view(a) + messages_view(b),
{
    assert(messages_view(a + b) =~= messages_view(a) + messages_view(b));
}

fn push_message(messages: &mut Vec<(Level, String)>, level: Level, text: String)
    ensures
        messages_view(final(messages)@) == messages_view(old(messages)@).push((level, text@)),
{
    let ghost before = messages@;
    let ghost t = text@;
    messages.push((level, text));
    assert(messages_view(messages@) =~= messages_view(before).push((level, t)));
}

/// Reads the variable `var` (see `env_step_messages`); gives the new level.
fn env_step(messages: &mut Vec<(Level, String)>, var: &str, value: EnvValue, level: LevelFilter) -> (r: LevelFilter)
    ensures
        r == match level_from_env_spec(var@, value, level).0 {
            Some(l) => l,
            None => level,
        },
        messages_view(final(messages)@) == messages_view(old(messages)@) + env_step_messages(var@, value, level),
{
    let ghost v = value;
    proof {
        reveal(env_step_messages);
    }
    let (found, mut notes) = level_from_env(var, value, level);
    let ghost before = messages_view(messages@);
    let mut out = level;
    match found {
        Some(l) => {
            out = l;
            let mut m = String::from_str("set log level from the Variable ");
            m.append(var);
            m.append(" to ");
            m.append(filter_name(l));
            push_message(messages, Level::Trace, m);
        },
        None => {},
    }
    let ghost head = messages@;
    let ghost nn = notes@;
    messages.append(&mut notes);
    proof {
        lemma_messages_append(head, nn);
        assert(messages_view(messages@) =~= before + env_step_messages(var@, v, level));
    }
    out
}

/// Counts the verbose flags (see `verbose_step_messages`); gives the new level.
fn verbose_step(messages: &mut Vec<(Level, String)>, default: LevelFilter, verbose: u8) -> (r: LevelFilter)
    ensures
        r == filter_of_rank(filter_rank(default) + verbose),
        messages_view(final(messages)@) == messages_view(old(messages)@) + verbose_step_messages(default, verbose),
{
    let ghost before = messages_view(messages@);
    proof {
        reveal(verbose_step_messages);
    }
    let n: u16 = rank_of_filter(default) + verbose as u16;
    if n > 5 {
        let mut m = String::from_str("the number of verbose (-v) flags passed (");
        let c = decimal_text(verbose as u64);
        m.append(c.as_str());
        m.append(") exeeds the maximumg log_level");
        push_message(messages, Level::Trace, m);
    }
    let level = filter_of_num(n);
    let mut m = String::from_str("set log level from the verbose flags to ");
    m.append(filter_name(level));
    push_message(messages, Level::Trace, m);
    assert(messages_view(messages@) =~= before + verbose_step_messages(default, verbose));
    level
}

/// Reads the `--log-level` argument (see `arg_step_messages`); gives the new level.
fn arg_step(messages: &mut Vec<(Level, String)>, arg: Option<String>, level: LevelFilter) -> (r: LevelFilter)
    ensures
        r == arg_level(
            match arg {
                Some(a) => Some(a@),
                None => None,
            },
            level,
        ),
        messages_view(final(messages)@) == messages_view(old(messages)@) + arg_step_messages(
            match arg {
                Some(a) => Some(a@),
                None => None,
            },
            level,
        ),
{
    let ghost before = messages_view(messages@);
    proof {
        reveal(arg_step_messages);
    }
    match arg {
        Some(a) => {
            let out = match filter_from_text(a.as_str()) {
                Some(f) => f,
                None => {
                    let mut m = String::from_str("The argument to --log-level \"");
                    m.append(a.as_str());
                    m.append("\" is not a valid log-level. loglevel stays at: ");
                    m.append(filter_name(level));
                    push_message(messages, Level::Warn, m);
                    level
                },
            };
            let mut m = String::from_str("set log level from the --log-level arg to ");
            m.append(filter_name(out));
            push_message(messages, Level::Trace, m);
            assert(messages_view(messages@) =~= before + arg_step_messages(Some(a@), level));
            out
        },
        None => {
            assert(messages_view(messages@) =~= before + Seq::<(Level, Seq<char>)>::empty());
            level
        },
    }
}

/// Chooses the level of logging (see `chosen_level`) from the default, the
/// values of `RUST_LOG` and `MIZE_LOG`, the count of verbose flags, the
/// `--log-level` argument and the `--silent` flag; the messages tell each
/// step (see `setup_messages`), as they are logged once logging is set up.
pub fn choose_log_level(
    default: LevelFilter,
    rust_log: EnvValue,
    mize_log: EnvValue,
    verbose: u8,
    log_level_arg: Option<String>,
    silent: bool,
) -> (r: LogSetup)
    ensures
        r.level == chosen_level(
            default,
            verbose,
            match log_level_arg {
                Some(a) => Some(a@),
                None => None,
            },
            silent,
        ),
        messages_view(r.messages@) == setup_messages(
            default,
            rust_log,
            mize_log,
            verbose,
            match log_level_arg {
                Some(a) => Some(a@),
                None => None,
            },
            silent,
        ),
{
    let ghost arg_view = match &log_level_arg {
        Some(a) => Some(a@),
        None => None,
    };
    let ghost rust_v = rust_log;
    let ghost mize_v = mize_log;
    let mut messages: Vec<(Level, String)> = Vec::new();
    push_message(&mut messages, Level::Info, String::from_str("Starting Mize"));
    let mut m = String::from_str("set log level from DEFAULT_LOG_LEVEL to ");
    m.append(filter_name(default));
    push_message(&mut messages, Level::Trace, m);
    let l1 = env_step(&mut messages, "RUST_LOG", rust_log, default);
    let _l2 = env_step(&mut messages, "MIZE_LOG", mize_log, l1);
    let l3 = verbose_step(&mut messages, default, verbose);
    let l4 = arg_step(&mut messages, log_level_arg, l3);
    let ghost before = messages_view(messages@);
    proof {
        reveal(silent_step_messages);
    }
    if silent && l4 != default {
        push_message(
            &mut messages,
            Level::Warn,
            String::from_str(
                "The loglevel was set by some method (it's not the DEFAULT_LOG_LEVEL) and is now overwritten by the --siltne to be OFF",
            ),
        );
    }
    assert(messages_view(messages@) =~= before + silent_step_messages(silent, l4, default));
    let level = if silent {
        LevelFilter::Off
    } else {
        l4
    };
    let mut m = String::from_str("loglevel is now ");
    m.append(filter_name(level));
    push_message(&mut messages, Level::Info, m);
    proof {
        let sp = setup_messages(default, rust_v, mize_v, verbose, arg_view, silent);
        assert(messages_view(messages@) =~= sp);
    }
    LogSetup { level, messages }
}

} // verus!

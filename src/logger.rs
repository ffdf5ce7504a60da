use vstd::prelude::*;

verus! {

/// The log file, relative to the working directory.
pub const LOG_FILE: &'static str = "logs/mixtape.log";

/// The level of a log record.
#[derive(Debug, Clone, Copy, PartialEq, Eq, Structural)]
pub enum Level {
    Error,
    Success,
}

/// The name a level is written with.
pub open spec fn level_name(level: Level) -> Seq<char> {
    match level {
        Level::Error => seq!['E', 'R', 'R', 'O', 'R'],
        Level::Success => seq!['S', 'U', 'C', 'C', 'E', 'S', 'S'],
    }
}

/// A log line: `[stamp] LEVEL: message`.
pub open spec fn record_text(stamp: Seq<char>, level: Level, message: Seq<char>) -> Seq<char> {
    seq!['['] + stamp + seq![']', ' '] + level_name(level) + seq![':', ' '] + message
}

/// Whether `s` holds no line break.
pub open spec fn one_line(s: Seq<char>) -> bool {
    forall|i: int| 0 <= i < s.len() ==> s[i] != '\n'
}

/// Relies on chrono::Local::now and DateTime::format: the local time now, written as
/// `%Y-%m-%d %H:%M:%S`. That pattern holds no line break, so neither does the text.
#[verifier::external_body]
fn local_timestamp() -> (r: String)
    ensures
        one_line(r@),
{
    chrono::Local::now().format("%Y-%m-%d %H:%M:%S").to_string()
}

impl Level {
    /// The name the level is written with.
    pub fn name(&self) -> (r: &'static str)
        ensures
            r@ == level_name(*self),
    {
        proof {
            reveal_strlit("ERROR");
            reveal_strlit("SUCCESS");
        }
        match self {
            Level::Error => {
                assert("ERROR"@ =~= level_name(Level::Error));
                "ERROR"
            },
            Level::Success => {
                assert("SUCCESS"@ =~= level_name(Level::Success));
                "SUCCESS"
            },
        }
    }
}

/// Writes the log line of `message` at `level`, stamped `stamp`.
pub fn format_record(stamp: &str, level: Level, message: &str) -> (r: String)
    ensures
        r@ == record_text(stamp@, level, message@),
{
    proof {
        reveal_strlit("[");
        reveal_strlit("] ");
        reveal_strlit(": ");
    }
    let mut line = String::from_str("[");
    line.append(stamp);
    line.append("] ");
    line.append(level.name());
    line.append(": ");
    line.append(message);
    assert(line@ =~= record_text(stamp@, level, message@));
    line
}

/// The log line of `message` at `level`, stamped with the local time now.
fn log_message(level: Level, message: &str) -> (r: String)
    ensures
        exists|t: Seq<char>| one_line(t) && r@ == record_text(t, level, message@),
{
    let stamp = local_timestamp();
    let r = format_record(stamp.as_str(), level, message);
    assert(one_line(stamp@) && r@ == record_text(stamp@, level, message@));
    r
}

/// The error record of `message`, stamped with the local time now, for the log file.
pub fn log_error(message: &str) -> (r: String)
    ensures
        exists|t: Seq<char>| one_line(t) && r@ == record_text(t, Level::Error, message@),
{
    log_message(Level::Error, message)
}

/// The success record of `message`, stamped with the local time now, for the log file.
pub fn log_success(message: &str) -> (r: String)
    ensures
        exists|t: Seq<char>| one_line(t) && r@ == record_text(t, Level::Success, message@),
{
    log_message(Level::Success, message)
}

} // verus!

//! Wire messages: every line the server sends carries the time of sending
//! as `HH:MM` and ends with a newline.

use vstd::prelude::*;
use vstd::string::StringExecFns;

verus! {

/// Most bytes taken from a connection in one read.
pub const MAX_LINE_LENGTH: usize = 1024;

/// Text of the line that asks a new connection to log in.
pub const LOGIN_PROMPT: &'static str = "Please enter [username]:[password]";

/// Text of the line that greets a connection after a login.
pub const WELCOME_MSG: &'static str = "Welcome to the chat!";

/// Text of the line that answers a login that was turned down.
pub const BAD_LOGIN_MSG: &'static str = "Wrong username or password";

/// What every line written by the server itself starts with.
pub const SYSTEM_MSG_PREF: &'static str = "SYSTEM:";

/// The value of a decimal digit, for `c` between `'0'` and `'9'`.
pub open spec fn digit_value(c: char) -> int {
    c as u32 as int - '0' as u32 as int
}

/// `c` is one of `'0'` to `'9'`.
pub open spec fn is_digit(c: char) -> bool {
    0 <= digit_value(c) <= 9
}

/// `t` is a time of day written as `HH:MM`: two digits that give an hour
/// below 24, a colon, and two digits that give a minute below 60.
pub open spec fn is_clock(t: Seq<char>) -> bool {
    &&& t.len() == 5
    &&& is_digit(t[0])
    &&& is_digit(t[1])
    &&& t[2] == ':'
    &&& is_digit(t[3])
    &&& is_digit(t[4])
    &&& 10 * digit_value(t[0]) + digit_value(t[1]) < 24
    &&& 10 * digit_value(t[3]) + digit_value(t[4]) < 60
}

/// The line `SYSTEM: [<time>] <msg>` with its newline.
pub open spec fn system_line(time: Seq<char>, msg: Seq<char>) -> Seq<char> {
    SYSTEM_MSG_PREF@ + " ["@ + time + "] "@ + msg + "\n"@
}

/// The line `[<time>] <uname>: <msg>` with its newline.
pub open spec fn normal_line(time: Seq<char>, uname: Seq<char>, msg: Seq<char>) -> Seq<char> {
    "["@ + time + "] "@ + uname + ": "@ + msg + "\n"@
}

/// The current time of day in UTC as `HH:MM`.
///
/// Calls `chrono::Utc::now` and formats the result with `%H:%M`. Trusted:
/// chrono writes the hour (0 to 23) and the minute (0 to 59) with two digits
/// each, zero-padded, around the colon of the pattern. Which time comes
/// back depends on the clock, so two calls may differ. `chrono::Utc::now`
/// panics when the system clock stands before 1970.
#[verifier::external_body]
pub(crate) fn get_time() -> (time: String)
    ensures
        is_clock(time@),
{
    chrono::Utc::now().format("%H:%M").to_string()
}

/// A system line that carries the given time.
pub fn system_msg_at(time: &str, msg: &str) -> (line: String)
    ensures
        line@ == system_line(time@, msg@),
{
    let mut line = String::from_str(SYSTEM_MSG_PREF);
    line.append(" [");
    line.append(time);
    line.append("] ");
    line.append(msg);
    line.append("\n");
    line
}

/// A chat line of `uname` that carries the given time.
pub fn normal_msg_at(time: &str, uname: &str, msg: &str) -> (line: String)
    ensures
        line@ == normal_line(time@, uname@, msg@),
{
    let mut line = String::from_str("[");
    line.append(time);
    line.append("] ");
    line.append(uname);
    line.append(": ");
    line.append(msg);
    line.append("\n");
    line
}

/// A system line that carries the time at which it is made.
pub fn system_msg(msg: &str) -> (line: String)
    ensures
        exists|time: Seq<char>| is_clock(time) && line@ == #[trigger] system_line(time, msg@),
{
    let time = get_time();
    system_msg_at(time.as_str(), msg)
}

/// A chat line of `uname` that carries the time at which it is made.
pub fn normal_msg(uname: &str, msg: &str) -> (line: String)
    ensures
        exists|time: Seq<char>|
            is_clock(time) && line@ == #[trigger] normal_line(time, uname@, msg@),
{
    let time = get_time();
    normal_msg_at(time.as_str(), uname, msg)
}

} // verus!

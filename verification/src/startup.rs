//! Per-user start-up registration of the agent: the launchd property list on
//! macOS, the `Run` registry value on Windows, and how their state is read back.
use vstd::prelude::*;

use crate::store::opt_view;
use crate::text::{
    chars_of, char_vecs, eq_ignore_ascii_case, join_words, join_words_from, lower_seq, owned,
    push_char, push_str, segments, split_on, split_words, str_eq, string_of, words,
};

verus! {

/// The launchd label of the agent.
pub const MACOS_LABEL: &'static str = "io.github.r4ultv.open-hub.agent";

/// The registry key of the per-user programs that start at log-in.
pub const RUN_KEY: &'static str = "HKCU\\Software\\Microsoft\\Windows\\CurrentVersion\\Run";

/// The registry value under which the agent is registered.
pub const VALUE_NAME: &'static str = "OpenHubAgent";

/// What is known of the agent's start-up registration.
#[derive(Clone, Debug, PartialEq, Eq)]
pub struct StartupStatus {
    pub executable: String,
    pub executable_exists: bool,
    pub registration: String,
    pub registered: bool,
    pub running: Option<bool>,
}

// ---------------------------------------------------------------------------
// macOS
// ---------------------------------------------------------------------------

/// The XML text of one character.
pub open spec fn xml_char(c: char) -> Seq<char> {
    if c == '&' {
        "&amp;"@
    } else if c == '<' {
        "&lt;"@
    } else if c == '>' {
        "&gt;"@
    } else if c == '"' {
        "&quot;"@
    } else if c == '\'' {
        "&apos;"@
    } else {
        seq![c]
    }
}

/// `s` with the five XML special characters escaped.
pub open spec fn xml_escaped(s: Seq<char>) -> Seq<char>
    decreases s.len(),
{
    if s.len() == 0 {
        Seq::empty()
    } else {
        xml_escaped(s.drop_last()) + xml_char(s.last())
    }
}

/// Escapes the five XML special characters of `value`.
pub fn xml_escape(value: &str) -> (r: String)
    ensures
        r@ == xml_escaped(value@),
{
    let chars = chars_of(value);
    let mut out = String::new();
    let mut i: usize = 0;
    while i < chars.len()
        invariant
            i <= chars.len(),
            chars@ == value@,
            out@ == xml_escaped(chars@.take(i as int)),
        decreases chars.len() - i,
    {
        let c = chars[i];
        if c == '&' {
            push_str(&mut out, "&amp;");
        } else if c == '<' {
            push_str(&mut out, "&lt;");
        } else if c == '>' {
            push_str(&mut out, "&gt;");
        } else if c == '"' {
            push_str(&mut out, "&quot;");
        } else if c == '\'' {
            push_str(&mut out, "&apos;");
        } else {
            push_char(&mut out, c);
            assert(out@ =~= xml_escaped(chars@.take(i as int)) + seq![c]);
        }
        assert(chars@.take(i as int + 1).drop_last() =~= chars@.take(i as int));
        i += 1;
    }
    assert(chars@.take(i as int) =~= chars@);
    out
}

/// The text of the property list before the executable.
pub open spec fn plist_head() -> Seq<char> {
    "<?xml version=\"1.0\" encoding=\"UTF-8\"?>\n<!DOCTYPE plist PUBLIC \"-//Apple//DTD PLIST 1.0//EN\" \"http://www.apple.com/DTDs/PropertyList-1.0.dtd\">\n<plist version=\"1.0\">\n<dict>\n  <key>Label</key>\n  <string>io.github.r4ultv.open-hub.agent</string>\n  <key>ProgramArguments</key>\n  <array>\n    <string>"@
}

/// The text of the property list between the executable and the output log.
pub open spec fn plist_middle() -> Seq<char> {
    "</string>\n  </array>\n  <key>RunAtLoad</key>\n  <true/>\n  <key>KeepAlive</key>\n  <true/>\n  <key>ProcessType</key>\n  <string>Background</string>\n  <key>ThrottleInterval</key>\n  <integer>10</integer>\n  <key>StandardOutPath</key>\n  <string>"@
}

/// The text of the property list between the output log and the error log.
pub open spec fn plist_between_logs() -> Seq<char> {
    "</string>\n  <key>StandardErrorPath</key>\n  <string>"@
}

/// The text of the property list after the error log.
pub open spec fn plist_tail() -> Seq<char> {
    "</string>\n</dict>\n</plist>\n"@
}

/// The LaunchAgent property list that starts the agent at log-in, keeps it
/// alive as a background process and sends its output to the two logs.
pub open spec fn plist_text(executable: Seq<char>, stdout: Seq<char>, stderr: Seq<char>) -> Seq<char> {
    plist_head() + xml_escaped(executable) + plist_middle() + xml_escaped(stdout)
        + plist_between_logs() + xml_escaped(stderr) + plist_tail()
}

/// The LaunchAgent property list for the agent at `executable`, paths escaped.
pub fn macos_plist_contents(executable: &str, stdout: &str, stderr: &str) -> (r: String)
    ensures
        r@ == plist_text(executable@, stdout@, stderr@),
{
    let mut out = owned(
        "<?xml version=\"1.0\" encoding=\"UTF-8\"?>\n<!DOCTYPE plist PUBLIC \"-//Apple//DTD PLIST 1.0//EN\" \"http://www.apple.com/DTDs/PropertyList-1.0.dtd\">\n<plist version=\"1.0\">\n<dict>\n  <key>Label</key>\n  <string>io.github.r4ultv.open-hub.agent</string>\n  <key>ProgramArguments</key>\n  <array>\n    <string>",
    );
    let e = xml_escape(executable);
    push_str(&mut out, e.as_str());
    push_str(
        &mut out,
        "</string>\n  </array>\n  <key>RunAtLoad</key>\n  <true/>\n  <key>KeepAlive</key>\n  <true/>\n  <key>ProcessType</key>\n  <string>Background</string>\n  <key>ThrottleInterval</key>\n  <integer>10</integer>\n  <key>StandardOutPath</key>\n  <string>",
    );
    let o = xml_escape(stdout);
    push_str(&mut out, o.as_str());
    push_str(&mut out, "</string>\n  <key>StandardErrorPath</key>\n  <string>");
    let x = xml_escape(stderr);
    push_str(&mut out, x.as_str());
    push_str(&mut out, "</string>\n</dict>\n</plist>\n");
    out
}

/// The launchd domain of the user with id `user_id`.
pub fn launchd_domain(user_id: &str) -> (r: String)
    ensures
        r@ == "gui/"@ + user_id@,
{
    let mut out = owned("gui/");
    push_str(&mut out, user_id);
    out
}

/// The launchd service of the agent for the user with id `user_id`.
pub fn service_target(user_id: &str) -> (r: String)
    ensures
        r@ == "gui/"@ + user_id@ + "/"@ + MACOS_LABEL@,
{
    let mut out = launchd_domain(user_id);
    push_str(&mut out, "/");
    push_str(&mut out, MACOS_LABEL);
    out
}

// ---------------------------------------------------------------------------
// Windows
// ---------------------------------------------------------------------------

/// Whether an error opening the executable means that a running agent still
/// holds it: permission denied, or Windows errors 5, 32 and 33 (access denied,
/// sharing and lock violations).
pub fn is_executable_lock(permission_denied: bool, raw_os_error: Option<i32>) -> (r: bool)
    ensures
        r == (permission_denied || raw_os_error == Some(5i32) || raw_os_error == Some(32i32)
            || raw_os_error == Some(33i32)),
{
    permission_denied || match raw_os_error {
        Some(code) => code == 5 || code == 32 || code == 33,
        None => false,
    }
}

/// The registry command line that starts the agent in the background.
pub open spec fn startup_command_text(executable: Seq<char>) -> Seq<char> {
    "\""@ + executable + "\" --launch-background"@
}

/// The registry command line that starts the agent at `executable` in the
/// background.
pub fn startup_command(executable: &str) -> (r: String)
    ensures
        r@ == startup_command_text(executable@),
{
    let mut out = owned("\"");
    push_str(&mut out, executable);
    push_str(&mut out, "\" --launch-background");
    out
}

/// The value that one line of `reg query` output gives for the agent: the
/// words after the value name and its type, joined by single spaces.
pub open spec fn registry_line_value(line: Seq<char>) -> Option<Seq<char>> {
    let w = words(line);
    if w.len() >= 2 && w[0] == VALUE_NAME@ && w[1] == "REG_SZ"@ {
        Some(join_words(w.skip(2)))
    } else {
        None
    }
}

/// The value of the first line that gives one.
pub open spec fn registry_value(lines: Seq<Seq<char>>) -> Option<Seq<char>>
    decreases lines.len(),
{
    if lines.len() == 0 {
        None
    } else {
        match registry_line_value(lines[0]) {
            Some(v) => Some(v),
            None => registry_value(lines.drop_first()),
        }
    }
}

/// Reads the agent's command line out of `reg query` output. Lines are taken
/// between line feeds; a carriage return before one is white space, which no
/// word holds, so it changes nothing.
pub fn parse_registry_value(output: &str) -> (r: Option<String>)
    ensures
        opt_view(r) == registry_value(segments(output@, '\n')),
{
    let chars = chars_of(output);
    let lines = split_on(&chars, '\n');
    let ghost all = char_vecs(lines@);
    let name = chars_of(VALUE_NAME);
    let kind = chars_of("REG_SZ");
    let mut i: usize = 0;
    assert(all.skip(0) =~= all);
    while i < lines.len()
        invariant
            i <= lines.len(),
            all == char_vecs(lines@),
            all == segments(output@, '\n'),
            name@ == VALUE_NAME@,
            kind@ == "REG_SZ"@,
            registry_value(all) == registry_value(all.skip(i as int)),
        decreases lines.len() - i,
    {
        let fields = split_words(&lines[i]);
        proof {
            assert(all.skip(i as int)[0] == lines@[i as int]@);
            assert(all.skip(i as int).drop_first() =~= all.skip(i as int + 1));
        }
        if fields.len() >= 2 && crate::text::chars_eq(&fields[0], &name)
            && crate::text::chars_eq(&fields[1], &kind) {
            let value = join_words_from(&fields, 2);
            return Some(string_of(&value));
        }
        i += 1;
    }
    None
}

/// The registry path under which the agent is registered.
pub open spec fn registration_path() -> Seq<char> {
    RUN_KEY@ + "\\"@ + VALUE_NAME@
}

/// The start-up status on Windows: the agent is registered when the `Run`
/// value holds, up to ASCII case, the command line for `executable`.
pub fn status(executable: String, executable_exists: bool, registry_value: Option<String>) -> (r:
    StartupStatus)
    ensures
        r.executable == executable,
        r.executable_exists == executable_exists,
        r.registration@ == registration_path(),
        r.registered == (match registry_value {
            Some(v) => lower_seq(v@) == lower_seq(startup_command_text(executable@)),
            None => false,
        }),
        r.running is None,
{
    let mut registration = owned(RUN_KEY);
    push_str(&mut registration, "\\");
    push_str(&mut registration, VALUE_NAME);
    let registered = match registry_value {
        Some(v) => {
            let command = startup_command(executable.as_str());
            eq_ignore_ascii_case(v.as_str(), command.as_str())
        },
        None => false,
    };
    StartupStatus { executable, executable_exists, registration, registered, running: None }
}

/// The arguments of the `reg.exe` call that registers `command_line` to run at
/// log-in.
pub fn registration_arguments(command_line: &str) -> (r: Vec<String>)
    ensures
        r.len() == 9,
        r@[0]@ == "add"@,
        r@[1]@ == RUN_KEY@,
        r@[2]@ == "/v"@,
        r@[3]@ == VALUE_NAME@,
        r@[4]@ == "/t"@,
        r@[5]@ == "REG_SZ"@,
        r@[6]@ == "/d"@,
        r@[7]@ == command_line@,
        r@[8]@ == "/f"@,
{
    let mut r: Vec<String> = Vec::new();
    r.push(owned("add"));
    r.push(owned(RUN_KEY));
    r.push(owned("/v"));
    r.push(owned(VALUE_NAME));
    r.push(owned("/t"));
    r.push(owned("REG_SZ"));
    r.push(owned("/d"));
    r.push(owned(command_line));
    r.push(owned("/f"));
    r
}

/// Whether two canonical paths name the same file. Windows paths compare
/// without regard to ASCII case; elsewhere they must match exactly.
pub fn same_path(left: &str, right: &str, windows: bool) -> (r: bool)
    ensures
        r == if windows {
            lower_seq(left@) == lower_seq(right@)
        } else {
            left@ == right@
        },
{
    if windows {
        eq_ignore_ascii_case(left, right)
    } else {
        str_eq(left, right)
    }
}

} // verus!

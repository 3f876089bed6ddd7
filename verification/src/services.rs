//! Login items of the settings application: which of the agent and the tray
//! start at log-in, as launchd and the Windows registry report it, and what to
//! run to change that.
use vstd::prelude::*;

use crate::int_parse::{parse_uint, parse_usize};
use crate::text::{
    chars_of, char_vecs, contains, contains_chars, has_prefix, has_suffix, is_space, matches_at, occurs_at, owned,
    push_chars, push_str, segments, slice, split_on, str_eq, strip_prefix, trim, trim_chars,
    trim_end, trim_start,
};

verus! {

/// The launchd labels of the login items share this prefix.
pub const LABEL_PREFIX: &'static str = "io.github.r4ultv.gflick.";

/// The per-user registry key of programs that start at log-in.
pub const RUN_KEY: &'static str = "HKCU\\Software\\Microsoft\\Windows\\CurrentVersion\\Run";

/// The program name of the agent.
pub const AGENT: &'static str = "gflick-agent";

/// The program name of the tray.
pub const TRAY: &'static str = "gflick-tray";

// ---------------------------------------------------------------------------
// macOS
// ---------------------------------------------------------------------------

/// The launchd label of the program `name`: the common prefix, then the name
/// without its `gflick-` prefix.
pub open spec fn launch_label_text(name: Seq<char>) -> Seq<char> {
    LABEL_PREFIX@ + if has_prefix(name, "gflick-"@) {
        name.skip(7)
    } else {
        name
    }
}

/// The launchd label of the program `name`.
pub fn launch_label(name: &str) -> (r: String)
    ensures
        r@ == launch_label_text(name@),
{
    let chars = chars_of(name);
    let prefix = chars_of("gflick-");
    proof {
        reveal_strlit("gflick-");
    }
    let mut out = owned(LABEL_PREFIX);
    match strip_prefix(&chars, &prefix) {
        Some(rest) => push_chars(&mut out, &rest),
        None => push_chars(&mut out, &chars),
    }
    out
}

/// `s` without a carriage return at its end.
pub open spec fn strip_cr(s: Seq<char>) -> Seq<char> {
    if s.len() > 0 && s.last() == '\r' {
        s.drop_last()
    } else {
        s
    }
}

/// The lines of `s`, each without the carriage return of a CRLF ending
/// (`str::lines`, with one more empty line when `s` ends with a line feed).
pub open spec fn text_lines(s: Seq<char>) -> Seq<Seq<char>> {
    let segs = segments(s, '\n');
    Seq::new(
        segs.len(),
        |k: int|
            if k < segs.len() - 1 {
                strip_cr(segs[k])
            } else {
                segs[k]
            },
    )
}

/// The last position at which `p` occurs in the first `n` positions of `s`.
pub open spec fn last_occurrence(s: Seq<char>, p: Seq<char>, n: int) -> Option<int>
    decreases n,
{
    if n <= 0 {
        None
    } else if occurs_at(s, p, n - 1) {
        Some(n - 1)
    } else {
        last_occurrence(s, p, n - 1)
    }
}

/// The text after the last `p` in `s`, or all of `s` without one
/// (`rsplit(p).next()`).
pub open spec fn after_last(s: Seq<char>, p: Seq<char>) -> Seq<char> {
    match last_occurrence(s, p, s.len() as int) {
        Some(i) => s.skip(i + p.len()),
        None => s,
    }
}

fn after_last_chars(s: &Vec<char>, p: &Vec<char>) -> (r: Vec<char>)
    requires
        p.len() > 0,
    ensures
        r@ == after_last(s@, p@),
{
    let mut n: usize = s.len();
    while n > 0
        invariant
            n <= s.len(),
            last_occurrence(s@, p@, s@.len() as int) == last_occurrence(s@, p@, n as int),
        decreases n,
    {
        if matches_at(s, p, n - 1) {
            return slice(s, n - 1 + p.len(), s.len());
        }
        n -= 1;
    }
    slice(s, 0, s.len())
}

/// One line of `launchctl print-disabled` output disables `label`: it names
/// the label, and says `true` or `disabled` after its last `=>`.
pub open spec fn disables(line: Seq<char>, label: Seq<char>) -> bool {
    &&& contains(line, label)
    &&& (trim(after_last(line, "=>"@)) == "true"@ || trim(after_last(line, "=>"@)) == "disabled"@)
}

/// Reads one label from `launchctl print-disabled`, accepting the old and the
/// new spelling; a label the list does not mention is not disabled.
pub open spec fn spec_is_disabled(text: Seq<char>, label: Seq<char>) -> bool {
    exists|k: int| 0 <= k < text_lines(text).len() && disables(#[trigger] text_lines(text)[k], label)
}

/// Whether `launchctl print-disabled` output disables `label`.
pub fn is_disabled(text: &str, label: &str) -> (r: bool)
    ensures
        r == spec_is_disabled(text@, label@),
{
    let chars = chars_of(text);
    let pieces = split_on(&chars, '\n');
    let label_chars = chars_of(label);
    let arrow = chars_of("=>");
    let yes = chars_of("true");
    let off = chars_of("disabled");
    proof {
        reveal_strlit("=>");
    }
    let ghost lines = text_lines(text@);
    let mut k: usize = 0;
    while k < pieces.len()
        invariant
            k <= pieces.len(),
            char_vecs(pieces@) == segments(text@, '\n'),
            lines == text_lines(text@),
            lines.len() == pieces.len(),
            label_chars@ == label@,
            arrow@ == "=>"@,
            yes@ == "true"@,
            off@ == "disabled"@,
            arrow.len() == 2,
            forall|j: int| 0 <= j < k ==> !disables(#[trigger] lines[j], label@),
        decreases pieces.len() - k,
    {
        let piece = &pieces[k];
        let line = if k + 1 < pieces.len() && piece.len() > 0 && piece[piece.len() - 1] == '\r' {
            slice(piece, 0, piece.len() - 1)
        } else {
            slice(piece, 0, piece.len())
        };
        proof {
            assert(char_vecs(pieces@)[k as int] == pieces@[k as int]@);
            assert(line@ == lines[k as int]);
        }
        if contains_chars(&line, &label_chars) {
            let tail = trim_chars(&after_last_chars(&line, &arrow));
            if crate::text::chars_eq(&tail, &yes) || crate::text::chars_eq(&tail, &off) {
                assert(disables(lines[k as int], label@));
                return true;
            }
        }
        k += 1;
    }
    false
}

/// The program `name` starts at log-in on macOS: its LaunchAgent exists and
/// `launchctl print-disabled` does not disable it.
pub open spec fn starts_at_login(name: Seq<char>, launch_agent_exists: bool, print_disabled: Seq<
    char,
>) -> bool {
    launch_agent_exists && !spec_is_disabled(print_disabled, launch_label_text(name))
}

/// Whether the program `name` starts at log-in on macOS.
pub fn startup_status_for(name: &str, launch_agent_exists: bool, print_disabled: &str) -> (r: bool)
    ensures
        r == starts_at_login(name@, launch_agent_exists, print_disabled@),
{
    if !launch_agent_exists {
        return false;
    }
    let label = launch_label(name);
    !is_disabled(print_disabled, label.as_str())
}

/// Whether the agent starts at log-in on macOS.
pub fn startup_status(launch_agent_exists: bool, print_disabled: &str) -> (r: bool)
    ensures
        r == starts_at_login(AGENT@, launch_agent_exists, print_disabled@),
{
    startup_status_for(AGENT, launch_agent_exists, print_disabled)
}

/// The tray is on when it starts at log-in or a tray process of this
/// generation is running.
pub fn tray_status(tray_starts_at_login: bool, tray_generation: Option<String>) -> (r: bool)
    ensures
        r == (tray_starts_at_login || tray_generation is Some),
{
    tray_starts_at_login || tray_generation.is_some()
}

/// The process id at the head of the tray's generation token (the text before
/// its first `-`), if that text is a decimal `usize`.
pub open spec fn token_pid(token: Seq<char>) -> Option<nat> {
    match parse_uint(segments(token, '-')[0], 10, usize::MAX as nat) {
        Ok(n) => Some(n),
        Err(_) => None,
    }
}

/// Reads the process id from the tray's generation token.
pub fn tray_pid(token: &str) -> (r: Option<usize>)
    ensures
        match token_pid(token@) {
            Some(n) => r == Some(n as usize),
            None => r is None,
        },
{
    let chars = chars_of(token);
    let pieces = split_on(&chars, '-');
    proof {
        assert(char_vecs(pieces@).len() > 0);
        assert(char_vecs(pieces@)[0] == pieces@[0]@);
    }
    match parse_usize(&pieces[0]) {
        Ok(n) => Some(n),
        Err(_) => None,
    }
}

/// The tray's generation token counts only while the process it names runs
/// the tray: its name contains the tray's program name.
pub fn tray_generation_of(token: String, process_name: Option<&str>) -> (r: Option<String>)
    ensures
        r == (if process_name matches Some(n) && contains(n@, TRAY@) {
            Some(token)
        } else {
            None::<String>
        }),
{
    match process_name {
        Some(n) => {
            if contains_chars(&chars_of(n), &chars_of(TRAY)) {
                Some(token)
            } else {
                None
            }
        },
        None => None,
    }
}

/// What turning a login item on or off does on macOS: whether its LaunchAgent
/// must first be written, and the arguments of the `launchctl` call.
pub struct LoginItemChange {
    pub create_launch_agent: bool,
    pub label: String,
    pub launchctl_arguments: Vec<String>,
}

/// The `launchctl` subcommand that turns a login item on or off.
pub open spec fn launchctl_verb(enabled: bool) -> Seq<char> {
    if enabled {
        "enable"@
    } else {
        "disable"@
    }
}

/// How `launchctl print-disabled` ends the line that records `launchctl
/// <verb>` on `label`: the quoted label, `=>`, and `enabled` or `disabled`.
pub open spec fn override_record(label: Seq<char>, verb: Seq<char>) -> Seq<char> {
    "\""@ + label + "\" => "@ + if verb == "enable"@ {
        "enabled"@
    } else {
        "disabled"@
    }
}

/// A `launchctl print-disabled` listing in which the lines that name `label`
/// all end with the record of `launchctl <verb>` on it, and there is one.
pub open spec fn records_only(print_disabled: Seq<char>, label: Seq<char>, verb: Seq<char>) -> bool {
    let lines = text_lines(print_disabled);
    &&& exists|k: int|
        0 <= k < lines.len() && has_suffix(#[trigger] lines[k], override_record(label, verb))
    &&& forall|k: int|
        0 <= k < lines.len() && contains(#[trigger] lines[k], label) ==> has_suffix(
            lines[k],
            override_record(label, verb),
        )
}

/// The change that turns the login item of `name` on or off in the launchd
/// domain `domain`.
pub fn set_startup_for(name: &str, enabled: bool, launch_agent_exists: bool, domain: &str) -> (r:
    LoginItemChange)
    ensures
        r.create_launch_agent == (enabled && !launch_agent_exists),
        r.label@ == launch_label_text(name@),
        r.launchctl_arguments.len() == 2,
        r.launchctl_arguments@[0]@ == launchctl_verb(enabled),
        r.launchctl_arguments@[1]@ == domain@ + "/"@ + launch_label_text(name@),
{
    let label = launch_label(name);
    let mut target = owned(domain);
    push_str(&mut target, "/");
    push_str(&mut target, label.as_str());
    let mut arguments: Vec<String> = Vec::new();
    arguments.push(
        if enabled {
            owned("enable")
        } else {
            owned("disable")
        },
    );
    arguments.push(target);
    LoginItemChange {
        create_launch_agent: enabled && !launch_agent_exists,
        label,
        launchctl_arguments: arguments,
    }
}

/// The change that turns the agent's login item on or off.
pub fn set_startup(enabled: bool, launch_agent_exists: bool, domain: &str) -> (r: LoginItemChange)
    ensures
        r.create_launch_agent == (enabled && !launch_agent_exists),
        r.label@ == launch_label_text(AGENT@),
        r.launchctl_arguments.len() == 2,
        r.launchctl_arguments@[0]@ == launchctl_verb(enabled),
        r.launchctl_arguments@[1]@ == domain@ + "/"@ + launch_label_text(AGENT@),
{
    set_startup_for(AGENT, enabled, launch_agent_exists, domain)
}

/// The refusal when the system tool would not change a login item, with what
/// it wrote.
pub open spec fn update_failed_text(detail: Seq<char>) -> Seq<char> {
    "Could not update login item: "@ + detail
}

/// What follows the `launchctl` call of a login-item change: whether the
/// LaunchAgent that the change wrote is removed again, and the result.
pub struct LoginItemFinish {
    pub remove_launch_agent: bool,
    pub result: Result<(), String>,
}

/// Takes the outcome of the `launchctl` call of `change` (its error output
/// when it failed): a failure removes the LaunchAgent that the change had
/// just written, and refuses with what `launchctl` wrote.
pub fn finish_login_item_change(change: &LoginItemChange, launchctl: Result<(), String>) -> (r:
    LoginItemFinish)
    ensures
        match launchctl {
            Ok(()) => !r.remove_launch_agent && r.result is Ok,
            Err(detail) => r.remove_launch_agent == change.create_launch_agent && (r.result matches Err(
                m,
            ) && m@ == update_failed_text(detail@)),
        },
{
    match launchctl {
        Ok(()) => LoginItemFinish { remove_launch_agent: false, result: Ok(()) },
        Err(detail) => {
            let mut message = owned("Could not update login item: ");
            push_str(&mut message, detail.as_str());
            LoginItemFinish { remove_launch_agent: change.create_launch_agent, result: Err(message) }
        },
    }
}

/// Where a program of the suite was found.
#[derive(Clone, Copy, Debug, PartialEq, Eq, Structural)]
pub enum ExecutableSite {
    /// Beside the running settings application.
    BesideSettings,
    /// In the per-user installation directory.
    Installed,
}

/// The refusal when the program `name` is found nowhere.
pub open spec fn not_installed_text(name: Seq<char>) -> Seq<char> {
    name + " is not installed beside the settings app. Build or install that component first."@
}

/// Where the program `name` is taken from: beside the settings application
/// when it is there, else from the installation directory; with neither, it
/// is refused.
pub fn locate_executable(name: &str, beside_exists: bool, installed_exists: bool) -> (r: Result<
    ExecutableSite,
    String,
>)
    ensures
        beside_exists ==> r == Ok::<ExecutableSite, String>(ExecutableSite::BesideSettings),
        !beside_exists && installed_exists ==> r == Ok::<ExecutableSite, String>(ExecutableSite::Installed),
        !beside_exists && !installed_exists ==> (r matches Err(m) && m@ == not_installed_text(name@)),
{
    if beside_exists {
        Ok(ExecutableSite::BesideSettings)
    } else if installed_exists {
        Ok(ExecutableSite::Installed)
    } else {
        let mut message = owned(name);
        push_str(&mut message, " is not installed beside the settings app. Build or install that component first.");
        Err(message)
    }
}

/// The last occurrence of `p` before `n` is `i`, when `p` occurs at `i` and
/// nowhere between `i` and `n`.
proof fn lemma_last_occurrence_at(s: Seq<char>, p: Seq<char>, i: int, n: int)
    requires
        occurs_at(s, p, i),
        i < n,
        forall|j: int| i < j < n ==> !occurs_at(s, p, j),
    ensures
        last_occurrence(s, p, n) == Some(i),
    decreases n,
{
    if n - 1 > i {
        lemma_last_occurrence_at(s, p, i, n - 1);
    }
}

/// What follows the last arrow of a line that ends with a recorded override
/// is the state it records; the line names the label.
proof fn lemma_override_state(line: Seq<char>, label: Seq<char>, verb: Seq<char>)
    requires
        has_suffix(line, override_record(label, verb)),
    ensures
        trim(after_last(line, "=>"@)) == (if verb == "enable"@ {
            "enabled"@
        } else {
            "disabled"@
        }),
        contains(line, label),
{
    let state: Seq<char> = if verb == "enable"@ {
        "enabled"@
    } else {
        "disabled"@
    };
    let record = override_record(label, verb);
    let arrow = "=>"@;
    reveal_strlit("=>");
    reveal_strlit("enabled");
    reveal_strlit("disabled");
    reveal_strlit("\" => ");
    reveal_strlit("\"");
    reveal_strlit(" ");
    let start: int = line.len() - record.len();
    assert(record == "\""@ + label + "\" => "@ + state);
    assert(record.len() == label.len() + 6 + state.len());
    assert(line.skip(start) == record);
    assert forall|j: int| 0 <= j < record.len() implies line[start + j] == #[trigger] record[j] by {
        assert(line.skip(start)[j] == line[start + j]);
    }
    assert forall|j: int| 0 <= j < label.len() implies record[1 + j] == label[j] by {
        assert(record[1 + j] == ("\""@ + label)[1 + j]);
    }
    assert(record[label.len() + 3int] == '=' && record[label.len() + 4int] == '>') by {
        assert(record[label.len() + 3int] == ("\""@ + label + "\" => "@)[label.len() + 3int]);
        assert(record[label.len() + 4int] == ("\""@ + label + "\" => "@)[label.len() + 4int]);
    }
    assert(line.subrange(start + 1, start + 1 + label.len()) =~= label);
    assert(occurs_at(line, label, start + 1));
    let at: int = start + label.len() + 3;
    assert(line.subrange(at, at + 2) =~= arrow);
    assert forall|j: int| at < j < line.len() implies !occurs_at(line, arrow, j) by {
        if occurs_at(line, arrow, j) {
            assert(line.subrange(j, j + 2)[0] == line[j]);
            assert(line[j] == record[j - start]);
            assert(record[j - start] == state[j - start - label.len() - 5]);
        }
    }
    lemma_last_occurrence_at(line, arrow, at, line.len() as int);
    let tail = line.skip(at + 2);
    assert(record[label.len() + 5int] == ' ') by {
        assert(record[label.len() + 5int] == ("\""@ + label + "\" => "@)[label.len() + 5int]);
    }
    assert forall|j: int| 0 <= j < state.len() implies record[label.len() + 6 + j] == state[j] by {
        assert(record[label.len() + 6 + j] == state[j]);
    }
    assert(tail =~= " "@ + state);
    assert(is_space(tail[0]));
    assert(trim_start(tail) == trim_start(tail.drop_first()));
    assert(tail.drop_first() =~= state);
    assert(state[0] == 'e' || state[0] == 'd');
    assert(trim_start(state) == state);
    assert(!is_space(state.last()));
    assert(trim_end(state) == state);
}

/// Turning a login item on or off reads back: once the LaunchAgent has been
/// written where the change asks for it, and launchd lists the label only
/// with the record of the `launchctl` call the change runs, the login item
/// starts at log-in exactly when it was turned on.
pub proof fn law_login_item_reads_back(
    name: Seq<char>,
    enabled: bool,
    launch_agent_existed: bool,
    print_disabled: Seq<char>,
)
    requires
        records_only(print_disabled, launch_label_text(name), launchctl_verb(enabled)),
    ensures
        starts_at_login(
            name,
            launch_agent_existed || (enabled && !launch_agent_existed),
            print_disabled,
        ) == enabled,
{
    let label = launch_label_text(name);
    let verb = launchctl_verb(enabled);
    let record = override_record(label, verb);
    let lines = text_lines(print_disabled);
    reveal_strlit("enable");
    reveal_strlit("disable");
    reveal_strlit("enabled");
    reveal_strlit("disabled");
    reveal_strlit("true");
    assert("disable"@ != "enable"@) by {
        assert("disable"@.len() != "enable"@.len());
    }
    if enabled {
        assert("enabled"@ != "true"@ && "enabled"@ != "disabled"@) by {
            assert("enabled"@.len() != "true"@.len());
            assert("enabled"@.len() != "disabled"@.len());
        }
        assert forall|k: int| 0 <= k < lines.len() implies !disables(#[trigger] lines[k], label) by {
            if contains(lines[k], label) {
                lemma_override_state(lines[k], label, verb);
            }
        }
    } else {
        let k = choose|k: int| 0 <= k < lines.len() && has_suffix(#[trigger] lines[k], record);
        lemma_override_state(lines[k], label, verb);
        assert(disables(lines[k], label));
    }
}

// ---------------------------------------------------------------------------
// Windows
// ---------------------------------------------------------------------------

/// The registry value of the program `name`.
pub open spec fn registry_name_text(name: Seq<char>) -> Seq<char> {
    if name == AGENT@ {
        "GFlickAgent"@
    } else {
        "GFlickTray"@
    }
}

/// The registry value of the program `name`.
pub fn registry_name(name: &str) -> (r: &'static str)
    ensures
        r@ == registry_name_text(name@),
{
    if str_eq(name, AGENT) {
        "GFlickAgent"
    } else {
        "GFlickTray"
    }
}

/// The command line that the registry value of `name` runs.
pub open spec fn login_command_text(name: Seq<char>, executable: Seq<char>) -> Seq<char> {
    "\""@ + executable + "\""@ + if name == AGENT@ {
        " --background-worker"@
    } else {
        ""@
    }
}

/// Texts by their characters.
pub open spec fn texts_view(v: Seq<String>) -> Seq<Seq<char>> {
    v.map_values(|s: String| s@)
}

/// The arguments of the `reg` call that turns the login item of `name` on or
/// off, or none: nothing is run to turn off an item that is not registered.
pub open spec fn registry_plan(name: Seq<char>, enabled: bool, executable: Seq<char>, registered: bool) -> Option<
    Seq<Seq<char>>,
> {
    if enabled {
        Some(
            seq![
                "add"@,
                RUN_KEY@,
                "/v"@,
                registry_name_text(name),
                "/t"@,
                "REG_SZ"@,
                "/d"@,
                login_command_text(name, executable),
                "/f"@,
            ],
        )
    } else if registered {
        Some(seq!["delete"@, RUN_KEY@, "/v"@, registry_name_text(name), "/f"@])
    } else {
        None
    }
}

/// The arguments of the `reg` call that turns the login item of `name` on or
/// off.
pub fn registry_arguments_for(name: &str, enabled: bool, executable: &str, registered: bool) -> (r:
    Option<Vec<String>>)
    ensures
        match registry_plan(name@, enabled, executable@, registered) {
            Some(p) => r matches Some(a) && texts_view(a@) == p,
            None => r is None,
        },
{
    let value = registry_name(name);
    let mut a: Vec<String> = Vec::new();
    if enabled {
        let mut command = owned("\"");
        push_str(&mut command, executable);
        push_str(&mut command, "\"");
        if str_eq(name, AGENT) {
            push_str(&mut command, " --background-worker");
        } else {
            push_str(&mut command, "");
        }
        a.push(owned("add"));
        a.push(owned(RUN_KEY));
        a.push(owned("/v"));
        a.push(owned(value));
        a.push(owned("/t"));
        a.push(owned("REG_SZ"));
        a.push(owned("/d"));
        a.push(command);
        a.push(owned("/f"));
        assert(texts_view(a@) =~= registry_plan(name@, enabled, executable@, registered)->0);
        Some(a)
    } else if !registered {
        None
    } else {
        a.push(owned("delete"));
        a.push(owned(RUN_KEY));
        a.push(owned("/v"));
        a.push(owned(value));
        a.push(owned("/f"));
        assert(texts_view(a@) =~= registry_plan(name@, enabled, executable@, registered)->0);
        Some(a)
    }
}

/// The arguments of the `reg` call that asks whether the login item of
/// `name` is registered.
pub open spec fn registry_query_text(name: Seq<char>) -> Seq<Seq<char>> {
    seq!["query"@, RUN_KEY@, "/v"@, registry_name_text(name)]
}

/// The arguments of the `reg` call that asks whether the login item of
/// `name` is registered; the item is registered when that call succeeds.
pub fn registry_query_arguments(name: &str) -> (r: Vec<String>)
    ensures
        texts_view(r@) == registry_query_text(name@),
{
    let mut a: Vec<String> = Vec::new();
    a.push(owned("query"));
    a.push(owned(RUN_KEY));
    a.push(owned("/v"));
    a.push(owned(registry_name(name)));
    assert(texts_view(a@) =~= registry_query_text(name@));
    a
}

/// Takes the outcome of the `reg` call of a change (its error output when
/// it failed): a failure is refused with what `reg` wrote.
pub fn finish_registry_change(outcome: Result<(), String>) -> (r: Result<(), String>)
    ensures
        match outcome {
            Ok(()) => r is Ok,
            Err(detail) => r matches Err(m) && m@ == update_failed_text(detail@),
        },
{
    match outcome {
        Ok(()) => Ok(()),
        Err(detail) => {
            let mut message = owned("Could not update login item: ");
            push_str(&mut message, detail.as_str());
            Err(message)
        },
    }
}

/// The value names under the `Run` key once a `reg` call with `arguments`
/// succeeded: `add` sets the value it names, `delete` removes it.
pub open spec fn registry_after(values: Set<Seq<char>>, arguments: Seq<Seq<char>>) -> Set<Seq<char>> {
    if arguments.len() >= 4 && arguments[0] == "add"@ {
        values.insert(arguments[3])
    } else if arguments.len() >= 4 && arguments[0] == "delete"@ {
        values.remove(arguments[3])
    } else {
        values
    }
}

/// A `reg query` with `arguments` succeeds: the value it names is set.
pub open spec fn registry_query_succeeds(values: Set<Seq<char>>, arguments: Seq<Seq<char>>) -> bool {
    values.contains(arguments[3])
}

/// Turning a login item on or off reads back on Windows: with the value
/// names under the `Run` key before the change, the change that
/// `registry_arguments_for` plans (none, for an item that is off already),
/// once `reg` carried it out, leaves the item registered exactly when it was
/// turned on.
pub proof fn law_registry_item_reads_back(
    name: Seq<char>,
    enabled: bool,
    executable: Seq<char>,
    values: Set<Seq<char>>,
)
    ensures
        ({
            let registered = registry_query_succeeds(values, registry_query_text(name));
            let after = match registry_plan(name, enabled, executable, registered) {
                Some(a) => registry_after(values, a),
                None => values,
            };
            registry_query_succeeds(after, registry_query_text(name)) == enabled
        }),
{
    reveal_strlit("add");
    reveal_strlit("delete");
    assert("add"@ != "delete"@) by {
        assert("add"@.len() != "delete"@.len());
    }
}

} // verus!

//! Zellij multiplexer backend.
//!
//! Limitations:
//! - No pane targeting (commands go to the focused pane, not to a pane ID)
//! - No percentage-based pane size control
//! - No window insertion order (tabs always append)
//! - One status per tab (state tracked by tab name, not pane ID)
//! - No visual status indicator

use crate::multiplexer::types::{
    BackendError, CaptureAction, CaptureEvent, ClientInfo, ClientView, Environment, Inquiry,
    LivePaneInfo, LivePaneView, Reply, SplitDirection, Wait,
};
use crate::plan;
use crate::plan::{Command, Plan, Step, StepView};
use crate::shell;
use crate::text;
use vstd::prelude::*;

verus! {

/// `zellij action` with some arguments.
pub open spec fn action(args: Seq<Seq<char>>) -> Seq<Seq<char>> {
    seq!["zellij"@, "action"@] + args
}

/// Lists the names of the tabs.
pub open spec fn query_tab_names_command() -> Seq<Seq<char>> {
    action(seq!["query-tab-names"@])
}

/// Lists the clients of the session.
pub open spec fn list_clients_command() -> Seq<Seq<char>> {
    action(seq!["list-clients"@])
}

/// Writes the screen of the focused pane to a file.
pub open spec fn dump_screen(path: Seq<char>) -> Seq<Seq<char>> {
    action(seq!["dump-screen"@, path])
}

/// Focuses a tab.
pub open spec fn go_to_tab(name: Seq<char>) -> Seq<Seq<char>> {
    action(seq!["go-to-tab-name"@, name])
}

/// Closes the focused tab.
pub open spec fn close_tab() -> Seq<Seq<char>> {
    action(seq!["close-tab"@])
}

/// Opens a tab and focuses it.
pub open spec fn new_tab(name: Seq<char>, cwd: Seq<char>) -> Seq<Seq<char>> {
    action(seq!["new-tab"@, "--layout"@, "default"@, "--name"@, name, "--cwd"@, cwd])
}

/// Opens a pane and focuses it.
pub open spec fn new_pane(direction: Seq<char>, cwd: Seq<char>) -> Seq<Seq<char>> {
    action(seq!["new-pane"@, "--direction"@, direction, "--cwd"@, cwd])
}

/// Types text into the focused pane.
pub open spec fn write_chars(s: Seq<char>) -> Seq<Seq<char>> {
    action(seq!["write-chars"@, s])
}

/// Sends one byte, given in decimal, to the focused pane.
pub open spec fn write_byte(code: Seq<char>) -> Seq<Seq<char>> {
    action(seq!["write"@, code])
}

/// Presses the Enter key.
pub open spec fn press_enter() -> Seq<Seq<char>> {
    write_byte("13"@)
}

/// A shell that runs a script.
pub open spec fn shell_script(script: Seq<char>) -> Seq<Seq<char>> {
    seq!["sh"@, "-c"@, script]
}

/// Types text and presses Enter.
pub open spec fn enter_line(s: Seq<char>) -> Seq<StepView> {
    seq![plan::must(write_chars(s)), plan::must(press_enter())]
}

fn query_tab_names_cmd() -> (r: Command)
    ensures
        r@ == query_tab_names_command(),
{
    let r = Command::new("zellij", &["action", "query-tab-names"]);
    assert(r@ =~= query_tab_names_command());
    r
}

fn list_clients_cmd() -> (r: Command)
    ensures
        r@ == list_clients_command(),
{
    let r = Command::new("zellij", &["action", "list-clients"]);
    assert(r@ =~= list_clients_command());
    r
}

fn dump_screen_cmd(path: &str) -> (r: Command)
    ensures
        r@ == dump_screen(path@),
{
    let r = Command::new("zellij", &["action", "dump-screen", path]);
    assert(r@ =~= dump_screen(path@));
    r
}

fn go_to_tab_cmd(name: &str) -> (r: Command)
    ensures
        r@ == go_to_tab(name@),
{
    let r = Command::new("zellij", &["action", "go-to-tab-name", name]);
    assert(r@ =~= go_to_tab(name@));
    r
}

fn close_tab_cmd() -> (r: Command)
    ensures
        r@ == close_tab(),
{
    let r = Command::new("zellij", &["action", "close-tab"]);
    assert(r@ =~= close_tab());
    r
}

fn new_tab_cmd(name: &str, cwd: &str) -> (r: Command)
    ensures
        r@ == new_tab(name@, cwd@),
{
    let r = Command::new(
        "zellij",
        &["action", "new-tab", "--layout", "default", "--name", name, "--cwd", cwd],
    );
    assert(r@ =~= new_tab(name@, cwd@));
    r
}

fn new_pane_cmd(direction: &str, cwd: &str) -> (r: Command)
    ensures
        r@ == new_pane(direction@, cwd@),
{
    let r = Command::new("zellij", &["action", "new-pane", "--direction", direction, "--cwd", cwd]);
    assert(r@ =~= new_pane(direction@, cwd@));
    r
}

fn write_chars_cmd(s: &str) -> (r: Command)
    ensures
        r@ == write_chars(s@),
{
    let r = Command::new("zellij", &["action", "write-chars", s]);
    assert(r@ =~= write_chars(s@));
    r
}

fn write_byte_cmd(code: &str) -> (r: Command)
    ensures
        r@ == write_byte(code@),
{
    let r = Command::new("zellij", &["action", "write", code]);
    assert(r@ =~= write_byte(code@));
    r
}

fn shell_script_cmd(script: &str) -> (r: Command)
    ensures
        r@ == shell_script(script@),
{
    let r = Command::new("sh", &["-c", script]);
    assert(r@ =~= shell_script(script@));
    r
}

/// The name of a direction in the command line of `new-pane`.
pub open spec fn direction_arg(direction: SplitDirection) -> Seq<char> {
    match direction {
        SplitDirection::Horizontal => "right"@,
        SplitDirection::Vertical => "down"@,
    }
}

/// The shell command that changes to a directory.
pub open spec fn cd_command(cwd: Seq<char>) -> Seq<char> {
    "cd "@ + shell::escaped(cwd)
}

/// Changes to a directory in the focused pane, and runs a command there if one is given.
pub open spec fn enter_directory(cwd: Seq<char>, command: Option<Seq<char>>) -> Seq<StepView> {
    enter_line(cd_command(cwd)) + match command {
        Some(c) => enter_line(c),
        None => seq![],
    }
}

/// The steps that split a pane.
pub open spec fn split_pane_steps(
    direction: SplitDirection,
    cwd: Seq<char>,
    command: Option<Seq<char>>,
) -> Seq<StepView> {
    seq![
        plan::must_or(new_pane(direction_arg(direction), cwd), "Failed to split pane"@),
    ] + enter_directory(cwd, command)
}

/// The identifier of a terminal pane.
pub open spec fn terminal_id(id: Seq<char>) -> Seq<char> {
    "terminal_"@ + id
}

/// The identifier of the pane that the environment names.
pub open spec fn env_pane_id(env: Environment) -> Option<Seq<char>> {
    match env.pane_id.deep_view() {
        Some(id) => Some(terminal_id(id)),
        None => None,
    }
}

/// The environment is that of a Zellij session.
pub open spec fn inside(env: Environment) -> bool {
    env.session is Some
}

/// The full name of a window.
pub open spec fn full_name(prefix: Seq<char>, name: Seq<char>) -> Seq<char> {
    prefix + name
}

/// The message for a tab that could not be created.
pub open spec fn create_error(name: Seq<char>) -> Seq<char> {
    "Failed to create zellij tab '"@ + name + "'"@
}

/// The steps that create a tab and go back to the tab in which this began.
pub open spec fn create_window_steps(
    name: Seq<char>,
    cwd: Seq<char>,
    original_tab: Option<Seq<char>>,
) -> Seq<StepView> {
    seq![plan::must_or(new_tab(name, cwd), create_error(name))] + match original_tab {
        Some(tab) => seq![plan::attempt(go_to_tab(tab))],
        None => seq![],
    }
}

/// The steps that close a tab: only the focused tab can be closed.
pub open spec fn kill_window_steps(name: Seq<char>) -> Seq<StepView> {
    seq![
        plan::must_or(go_to_tab(name), "Failed to switch to tab for closing"@),
        plan::must_or(close_tab(), "Failed to close zellij tab"@),
    ]
}

/// The script that closes a tab after a delay.
pub open spec fn close_script(name: Seq<char>, delay_secs: nat) -> Seq<char> {
    "sleep "@ + text::decimal(delay_secs) + " && zellij action go-to-tab-name "@ + shell::escaped(
        name,
    ) + " && zellij action close-tab"@
}

/// The part of a script that focuses a tab, without any output.
pub open spec fn go_to_tab_script(name: Seq<char>) -> Seq<char> {
    " zellij action go-to-tab-name "@ + shell::escaped(name) + " >/dev/null 2>&1;"@
}

/// The part of the cleanup script that comes before the caller's own script: it survives
/// the end of its terminal, waits, goes to the target tab if there is one, and closes the
/// source tab, which takes focusing it.
pub open spec fn close_and_return_script(
    source: Seq<char>,
    target: Option<Seq<char>>,
    delay_secs: Seq<char>,
) -> Seq<char> {
    "trap '' HUP; sleep "@ + delay_secs + ";"@ + match target {
        Some(t) => go_to_tab_script(t),
        None => seq![],
    } + go_to_tab_script(source) + " zellij action close-tab >/dev/null 2>&1;"@
}

/// The script that closes a tab after a delay and then runs the caller's script.
pub open spec fn cleanup_and_close_script(
    source: Seq<char>,
    target: Option<Seq<char>>,
    cleanup: Seq<char>,
    delay_secs: Seq<char>,
) -> Seq<char> {
    close_and_return_script(source, target, delay_secs) + if cleanup.len() > 0 {
        " "@ + cleanup
    } else {
        seq![]
    }
}

/// The steps that type a command and press Enter.
pub open spec fn send_keys_steps(command: Seq<char>) -> Seq<StepView> {
    seq![
        plan::must_or(write_chars(command), "Failed to send keys"@),
        plan::must_or(press_enter(), "Failed to send Enter"@),
    ]
}

/// The steps that type a command for an agent: one that needs a pause behind a leading
/// `!` gets it.
pub open spec fn agent_keys_steps(command: Seq<char>, needs_bang_delay: bool) -> Seq<StepView> {
    if needs_bang_delay && command.len() > 0 && command[0] == '!' {
        seq![plan::must(write_chars("!"@)), StepView::Sleep { millis: 50 }] + enter_line(
            command.skip(1),
        )
    } else {
        send_keys_steps(command)
    }
}

/// The byte that a named key sends, in decimal.
pub open spec fn key_code(key: Seq<char>) -> Option<Seq<char>> {
    if key == "Enter"@ {
        Some("13"@)
    } else if key == "Escape"@ {
        Some("27"@)
    } else if key == "Tab"@ {
        Some("9"@)
    } else {
        None
    }
}

/// The command that presses a key; a key without a name of its own is typed.
pub open spec fn key_command(key: Seq<char>) -> Seq<Seq<char>> {
    match key_code(key) {
        Some(code) => write_byte(code),
        None => write_chars(key),
    }
}

/// The steps that enter lines one by one.
pub open spec fn paste_steps(lines: Seq<Seq<char>>) -> Seq<StepView>
    decreases lines.len(),
{
    if lines.len() == 0 {
        seq![]
    } else {
        paste_steps(lines.drop_last()) + enter_line(lines.last())
    }
}

/// The tab names in the output of `query-tab-names`: one per line.
pub open spec fn tab_names(output: Seq<char>) -> Seq<Seq<char>> {
    text::lines(output).map_values(|l: Seq<char>| text::trim(l))
}

/// The client that a line of `list-clients` describes: its second word is the pane, and
/// the words behind that are the command.
pub open spec fn client_of(line: Seq<char>) -> Option<ClientView> {
    let w = text::words(line);
    if w.len() >= 2 {
        Some(ClientView { pane_id: w[1], running_command: text::join(w.skip(2), " "@) })
    } else {
        None
    }
}

/// The clients in the output of `list-clients`: one per line behind the header.
pub open spec fn clients(output: Seq<char>) -> Seq<ClientView> {
    let rows = text::lines(output);
    if rows.len() == 0 {
        seq![]
    } else {
        rows.skip(1).filter_map(|l: Seq<char>| client_of(l))
    }
}

/// The first client in a pane.
pub open spec fn client_in(list: Seq<ClientView>, pane_id: Seq<char>) -> Option<ClientView>
    decreases list.len(),
{
    if list.len() == 0 {
        None
    } else {
        match client_in(list.drop_last(), pane_id) {
            Some(c) => Some(c),
            None => if list.last().pane_id == pane_id {
                Some(list.last())
            } else {
                None
            },
        }
    }
}

/// The first word of a text.
pub open spec fn first_word(s: Seq<char>) -> Seq<char> {
    let w = text::words(s);
    if w.len() > 0 {
        w[0]
    } else {
        seq![]
    }
}

/// What is known of a pane from the list of clients: nothing, unless it has the focus of
/// one of them.
pub open spec fn live_pane(
    list: Seq<ClientView>,
    pane_id: Seq<char>,
    env: Environment,
) -> Option<LivePaneView> {
    match client_in(list, pane_id) {
        Some(c) => Some(
            LivePaneView {
                pid: 0,
                current_command: first_word(c.running_command),
                working_dir: seq![],
                title: None,
                session: env.session_name.deep_view(),
                window: env.tab_name.deep_view(),
            },
        ),
        None => None,
    }
}

/// What is known of the tabs.
#[verifier::ext_equal]
pub enum Tabs {
    /// They have not been asked for.
    Unknown,
    /// They could not be had.
    Failed,
    /// Their names.
    Known(Seq<Seq<char>>),
}

/// What is known of the tabs after a reply, if there is one. Outside a session there are
/// none, and no reply is needed to know that.
pub open spec fn tabs_seen(env: Environment, reply: Option<&Reply<String>>) -> Tabs {
    if !inside(env) {
        Tabs::Known(seq![])
    } else {
        match reply {
            None => Tabs::Unknown,
            Some(Reply::Failed) => Tabs::Failed,
            Some(Reply::Output(output)) => Tabs::Known(tab_names(output@)),
        }
    }
}

/// The names without repetitions, in the order of their first occurrence.
pub open spec fn distinct(names: Seq<Seq<char>>) -> Seq<Seq<char>>
    decreases names.len(),
{
    if names.len() == 0 {
        names
    } else {
        let d = distinct(names.drop_last());
        if d.contains(names.last()) {
            d
        } else {
            d.push(names.last())
        }
    }
}

/// Those of the windows that are among the tabs, in their order.
pub open spec fn active_windows(tabs: Seq<Seq<char>>, windows: Seq<Seq<char>>) -> Seq<Seq<char>> {
    windows.filter(|w: Seq<char>| tabs.contains(w))
}

/// None of the windows is among the tabs.
pub open spec fn all_closed(tabs: Seq<Seq<char>>, windows: Seq<Seq<char>>) -> bool {
    forall|i: int| 0 <= i < windows.len() ==> !tabs.contains(#[trigger] windows[i])
}

/// `distinct` keeps each name once and no others.
pub proof fn lemma_distinct(names: Seq<Seq<char>>)
    ensures
        distinct(names).no_duplicates(),
        forall|n: Seq<char>| #[trigger] distinct(names).contains(n) <==> names.contains(n),
    decreases names.len(),
{
    if names.len() > 0 {
        let before = names.drop_last();
        let d = distinct(before);
        let last = names.last();
        lemma_distinct(before);
        assert forall|n: Seq<char>| #[trigger] distinct(names).contains(n) <==> names.contains(
            n,
        ) by {
            if names.contains(n) {
                let i = choose|i: int| 0 <= i < names.len() && names[i] == n;
                if i < before.len() {
                    assert(before[i] == n);
                    assert(d.contains(n));
                    let j = choose|j: int| 0 <= j < d.len() && d[j] == n;
                    assert(distinct(names)[j] == n);
                } else if !d.contains(last) {
                    assert(distinct(names)[d.len() as int] == n);
                }
            }
            if distinct(names).contains(n) {
                let j = choose|j: int| 0 <= j < distinct(names).len() && distinct(names)[j] == n;
                if j < d.len() {
                    assert(d[j] == n);
                    assert(d.contains(n));
                    let i = choose|i: int| 0 <= i < before.len() && before[i] == n;
                    assert(names[i] == n);
                } else {
                    assert(names[names.len() - 1] == n);
                }
            }
        }
    }
}

/// The tabs as far as they are known.
enum TabList {
    Unknown,
    Failed,
    Known(Vec<String>),
}

impl TabList {
    spec fn tabs(self) -> Tabs {
        match self {
            TabList::Unknown => Tabs::Unknown,
            TabList::Failed => Tabs::Failed,
            TabList::Known(names) => Tabs::Known(names.deep_view()),
        }
    }
}

/// Tells whether a name is among some names.
fn contains(names: &Vec<String>, name: &str) -> (r: bool)
    ensures
        r == names.deep_view().contains(name@),
{
    for i in 0..names.len()
        invariant
            forall|j: int| 0 <= j < i ==> names.deep_view()[j] != name@,
    {
        if text::same(names[i].as_str(), name) {
            assert(names.deep_view()[i as int] == name@);
            return true;
        }
    }
    false
}

/// Zellij multiplexer backend. It keeps no state of its own.
#[derive(Debug)]
pub struct ZellijBackend {
    _private: (),
}

impl Default for ZellijBackend {
    fn default() -> (r: ZellijBackend)
        ensures
            r == ZellijBackend::value(),
    {
        ZellijBackend::new()
    }
}

impl ZellijBackend {
    /// The one value of this type.
    pub closed spec fn value() -> ZellijBackend {
        ZellijBackend { _private: () }
    }

    /// The backend; there is only one.
    pub fn new() -> (r: ZellijBackend)
        ensures
            r == ZellijBackend::value(),
    {
        ZellijBackend { _private: () }
    }

    // === Environment ===

    /// Tells whether this runs inside a Zellij session.
    pub fn is_inside_session(env: &Environment) -> (r: bool)
        ensures
            r == inside(*env),
    {
        env.session.is_some()
    }

    /// The name of the session.
    pub fn session_name(env: &Environment) -> (r: Option<String>)
        ensures
            r.deep_view() == env.session_name.deep_view(),
    {
        env.session_name.clone()
    }

    /// The identifier of the current pane, such as `terminal_1`.
    pub fn pane_id_from_env(env: &Environment) -> (r: Option<String>)
        ensures
            r.deep_view() == env_pane_id(*env),
    {
        match &env.pane_id {
            Some(id) => Some("terminal_".to_owned().concat(id.as_str())),
            None => None,
        }
    }

    // === Output of Zellij ===

    /// Reads the tab names from the output of `query-tab-names`.
    pub fn query_tab_names(output: &str) -> (r: Vec<String>)
        ensures
            r.deep_view() == tab_names(output@),
    {
        let lines = text::split_lines(output);
        let mut r: Vec<String> = Vec::new();
        for i in 0..lines.len()
            invariant
                lines.deep_view() == text::lines(output@),
                r.deep_view() == tab_names(output@).take(i as int),
        {
            let ghost before = r.deep_view();
            r.push(text::trimmed(lines[i].as_str()));
            proof {
                assert(lines.deep_view()[i as int] == lines[i as int]@);
                assert(r.deep_view() =~= before.push(tab_names(output@)[i as int]));
                assert(r.deep_view() =~= tab_names(output@).take(i + 1));
            }
        }
        assert(tab_names(output@).take(lines.len() as int) =~= tab_names(output@));
        r
    }

    /// Reads the clients from the output of `list-clients`, which looks like
    /// `CLIENT_ID ZELLIJ_PANE_ID RUNNING_COMMAND\n1 terminal_3 vim file.txt`.
    pub fn list_clients(output: &str) -> (r: Vec<ClientInfo>)
        ensures
            r@.map_values(|c: ClientInfo| c@) == clients(output@),
    {
        let lines = text::split_lines(output);
        let mut r: Vec<ClientInfo> = Vec::new();
        let ghost view = |c: ClientInfo| c@;
        let ghost of = |l: Seq<char>| client_of(l);
        if lines.len() == 0 {
            assert(lines.deep_view().len() == 0);
            assert(r@.map_values(view) =~= clients(output@));
            return r;
        }
        let ghost rows = lines.deep_view().skip(1);
        proof {
            assert(rows.take(0) =~= seq![]);
            assert(r@.map_values(view) =~= rows.take(0).filter_map(of));
        }
        for i in 1..lines.len()
            invariant
                lines.deep_view() == text::lines(output@),
                lines.len() >= 1,
                rows == lines.deep_view().skip(1),
                view == |c: ClientInfo| c@,
                of == |l: Seq<char>| client_of(l),
                r@.map_values(view) == rows.take(i - 1).filter_map(of),
        {
            let ghost before = r@.map_values(view);
            proof {
                assert(rows[i - 1] == lines[i as int]@);
                assert(rows.take(i as int).drop_last() =~= rows.take(i - 1));
            }
            let parts = text::split_words(lines[i].as_str());
            assert(parts.deep_view().len() == parts.len());
            if parts.len() >= 2 {
                let running_command = text::joined(&parts, 2, " ");
                r.push(ClientInfo { pane_id: parts[1].clone(), running_command });
                assert(r@.map_values(view) =~= before + seq![client_of(rows[i - 1])->0]);
            }
        }
        assert(rows.take(lines.len() - 1) =~= rows);
        r
    }

    // === Server and session ===

    /// The name of the backend.
    pub fn name(&self) -> (r: &'static str)
        ensures
            r@ == "zellij"@,
    {
        "zellij"
    }

    /// Tells whether Zellij runs. Inside a session it does; elsewhere a harmless command
    /// has to show it, whose exit status is the answer.
    pub fn is_running(&self, env: &Environment, reply: Option<&Reply<bool>>) -> (r: Inquiry<bool>)
        ensures
            if inside(*env) {
                r == Inquiry::<bool>::Done(Ok(true))
            } else {
                match reply {
                    None => r matches Inquiry::Ask(c) && c@ == dump_screen("/dev/null"@),
                    Some(Reply::Failed) => r == Inquiry::<bool>::Done(
                        Err(BackendError::CommandFailed),
                    ),
                    Some(Reply::Output(status)) => r == Inquiry::<bool>::Done(Ok(*status)),
                }
            },
    {
        if Self::is_inside_session(env) {
            return Inquiry::Done(Ok(true));
        }
        match reply {
            None => Inquiry::Ask(dump_screen_cmd("/dev/null")),
            Some(Reply::Failed) => Inquiry::Done(Err(BackendError::CommandFailed)),
            Some(Reply::Output(status)) => Inquiry::Done(Ok(*status)),
        }
    }

    /// The identifier of the current pane.
    pub fn current_pane_id(&self, env: &Environment) -> (r: Option<String>)
        ensures
            r.deep_view() == env_pane_id(*env),
    {
        Self::pane_id_from_env(env)
    }

    /// The identifier of the active pane: the current one.
    pub fn active_pane_id(&self, env: &Environment) -> (r: Option<String>)
        ensures
            r.deep_view() == env_pane_id(*env),
    {
        self.current_pane_id(env)
    }

    /// The name by which this session is told apart from others.
    pub fn instance_id(&self, env: &Environment) -> (r: String)
        ensures
            r@ == match env.session_name.deep_view() {
                Some(name) => name,
                None => "default"@,
            },
    {
        match Self::session_name(env) {
            Some(name) => name,
            None => "default".to_owned(),
        }
    }

    // === Windows (tabs) ===

    /// Plans the creation of a window. It yields the full name of the window, and leaves
    /// the focus where it was. A path that is no valid Unicode (`None`) is refused.
    pub fn create_window(
        &self,
        env: &Environment,
        prefix: &str,
        name: &str,
        cwd: Option<&str>,
    ) -> (r: Result<Plan<String>, BackendError>)
        ensures
            match cwd {
                None => r matches Err(e) && e == BackendError::NonUtf8Path,
                Some(dir) => r matches Ok(p) && p.result@ == full_name(prefix@, name@)
                    && p.script() == create_window_steps(
                    full_name(prefix@, name@),
                    dir@,
                    env.tab_name.deep_view(),
                ),
            },
    {
        let full = prefix.to_owned().concat(name);
        match cwd {
            None => Err(BackendError::NonUtf8Path),
            Some(dir) => {
                let context = "Failed to create zellij tab '".to_owned().concat(
                    full.as_str(),
                ).concat("'");
                let mut steps: Vec<Step> = Vec::new();
                steps.push(Step::must_or(new_tab_cmd(full.as_str(), dir), context.as_str()));
                if let Some(tab) = &env.tab_name {
                    steps.push(Step::attempt(go_to_tab_cmd(tab.as_str())));
                }
                let p = Plan { steps, result: full };
                assert(p.script() =~= create_window_steps(
                    full_name(prefix@, name@),
                    dir@,
                    env.tab_name.deep_view(),
                ));
                Ok(p)
            },
        }
    }

    /// Plans the closing of a window.
    pub fn kill_window(&self, full_name: &str) -> (r: Plan<()>)
        ensures
            r.script() == kill_window_steps(full_name@),
    {
        let mut steps: Vec<Step> = Vec::new();
        steps.push(Step::must_or(go_to_tab_cmd(full_name), "Failed to switch to tab for closing"));
        steps.push(Step::must_or(close_tab_cmd(), "Failed to close zellij tab"));
        let p = Plan { steps, result: () };
        assert(p.script() =~= kill_window_steps(full_name@));
        p
    }

    /// Plans the closing of a window after a delay, in a background process.
    pub fn schedule_window_close(&self, full_name: &str, delay_secs: u64) -> (r: Plan<()>)
        ensures
            r.script() == seq![
                plan::spawn_or(
                    shell_script(close_script(full_name@, delay_secs as nat)),
                    "Failed to spawn delayed close"@,
                ),
            ],
    {
        let script = "sleep ".to_owned().concat(text::decimal_text(delay_secs).as_str()).concat(
            " && zellij action go-to-tab-name ",
        ).concat(shell::shell_escape(full_name).as_str()).concat(" && zellij action close-tab");
        let mut steps: Vec<Step> = Vec::new();
        steps.push(
            Step::spawn_or(shell_script_cmd(script.as_str()), "Failed to spawn delayed close"),
        );
        let p = Plan { steps, result: () };
        assert(p.script() =~= seq![
            plan::spawn_or(
                shell_script(close_script(full_name@, delay_secs as nat)),
                "Failed to spawn delayed close"@,
            ),
        ]);
        p
    }

    /// Plans the focusing of a window.
    pub fn select_window(&self, prefix: &str, name: &str) -> (r: Plan<()>)
        ensures
            r.script() == seq![
                plan::must_or(
                    go_to_tab(full_name(prefix@, name@)),
                    "Failed to select zellij tab"@,
                ),
            ],
    {
        let full = prefix.to_owned().concat(name);
        let mut steps: Vec<Step> = Vec::new();
        steps.push(Step::must_or(go_to_tab_cmd(full.as_str()), "Failed to select zellij tab"));
        let p = Plan { steps, result: () };
        assert(p.script() =~= seq![
            plan::must_or(go_to_tab(full_name(prefix@, name@)), "Failed to select zellij tab"@),
        ]);
        p
    }

    /// What is known of the tabs after a reply.
    fn tabs(env: &Environment, reply: Option<&Reply<String>>) -> (r: TabList)
        ensures
            r.tabs() == tabs_seen(*env, reply),
    {
        if !Self::is_inside_session(env) {
            let none: Vec<String> = Vec::new();
            assert(none.deep_view() =~= seq![]);
            return TabList::Known(none);
        }
        match reply {
            None => TabList::Unknown,
            Some(Reply::Failed) => TabList::Failed,
            Some(Reply::Output(output)) => TabList::Known(Self::query_tab_names(output.as_str())),
        }
    }

    /// Tells whether a window exists.
    pub fn window_exists(
        &self,
        env: &Environment,
        prefix: &str,
        name: &str,
        reply: Option<&Reply<String>>,
    ) -> (r: Inquiry<bool>)
        ensures
            match tabs_seen(*env, reply) {
                Tabs::Unknown => r matches Inquiry::Ask(c) && c@ == query_tab_names_command(),
                Tabs::Failed => r == Inquiry::<bool>::Done(Err(BackendError::CommandFailed)),
                Tabs::Known(names) => r == Inquiry::<bool>::Done(
                    Ok(names.contains(full_name(prefix@, name@))),
                ),
            },
    {
        let full = prefix.to_owned().concat(name);
        self.window_exists_by_full_name(env, full.as_str(), reply)
    }

    /// Tells whether a window of this full name exists. Outside a session none does.
    pub fn window_exists_by_full_name(
        &self,
        env: &Environment,
        full_name: &str,
        reply: Option<&Reply<String>>,
    ) -> (r: Inquiry<bool>)
        ensures
            match tabs_seen(*env, reply) {
                Tabs::Unknown => r matches Inquiry::Ask(c) && c@ == query_tab_names_command(),
                Tabs::Failed => r == Inquiry::<bool>::Done(Err(BackendError::CommandFailed)),
                Tabs::Known(names) => r == Inquiry::<bool>::Done(Ok(names.contains(full_name@))),
            },
    {
        match Self::tabs(env, reply) {
            TabList::Unknown => Inquiry::Ask(query_tab_names_cmd()),
            TabList::Failed => Inquiry::Done(Err(BackendError::CommandFailed)),
            TabList::Known(names) => Inquiry::Done(Ok(contains(&names, full_name))),
        }
    }

    /// The name of the current window.
    pub fn current_window_name(&self, env: &Environment) -> (r: Option<String>)
        ensures
            r.deep_view() == env.tab_name.deep_view(),
    {
        env.tab_name.clone()
    }

    /// The names of all windows, each once. Outside a session there are none.
    pub fn get_all_window_names(
        &self,
        env: &Environment,
        reply: Option<&Reply<String>>,
    ) -> (r: Inquiry<Vec<String>>)
        ensures
            match tabs_seen(*env, reply) {
                Tabs::Unknown => r matches Inquiry::Ask(c) && c@ == query_tab_names_command(),
                Tabs::Failed => r == Inquiry::<Vec<String>>::Done(
                    Err(BackendError::CommandFailed),
                ),
                Tabs::Known(names) => r matches Inquiry::Done(Ok(all)) && all.deep_view()
                    == distinct(names),
            },
    {
        match Self::tabs(env, reply) {
            TabList::Unknown => Inquiry::Ask(query_tab_names_cmd()),
            TabList::Failed => Inquiry::Done(Err(BackendError::CommandFailed)),
            TabList::Known(names) => {
                let mut all: Vec<String> = Vec::new();
                let ghost list = names.deep_view();
                proof {
                    assert(list.take(0) =~= seq![]);
                    assert(all.deep_view() =~= distinct(list.take(0)));
                }
                for i in 0..names.len()
                    invariant
                        list == names.deep_view(),
                        all.deep_view() == distinct(list.take(i as int)),
                {
                    let ghost before = all.deep_view();
                    proof {
                        assert(list.take(i + 1).drop_last() =~= list.take(i as int));
                        assert(list[i as int] == names[i as int]@);
                    }
                    if !contains(&all, names[i].as_str()) {
                        all.push(names[i].clone());
                        assert(all.deep_view() =~= before.push(names[i as int]@));
                    }
                }
                assert(list.take(names.len() as int) =~= list);
                Inquiry::Done(Ok(all))
            },
        }
    }

    /// Those of the windows that exist, in their order. Outside a session none does.
    pub fn filter_active_windows(
        &self,
        env: &Environment,
        windows: &[String],
        reply: Option<&Reply<String>>,
    ) -> (r: Inquiry<Vec<String>>)
        ensures
            match tabs_seen(*env, reply) {
                Tabs::Unknown => r matches Inquiry::Ask(c) && c@ == query_tab_names_command(),
                Tabs::Failed => r == Inquiry::<Vec<String>>::Done(
                    Err(BackendError::CommandFailed),
                ),
                Tabs::Known(names) => r matches Inquiry::Done(Ok(active)) && active.deep_view()
                    == active_windows(names, windows.deep_view()),
            },
    {
        match Self::tabs(env, reply) {
            TabList::Unknown => Inquiry::Ask(query_tab_names_cmd()),
            TabList::Failed => Inquiry::Done(Err(BackendError::CommandFailed)),
            TabList::Known(names) => {
                let mut active: Vec<String> = Vec::new();
                let ghost tabs = names.deep_view();
                let ghost list = windows.deep_view();
                proof {
                    assert(list.take(0) =~= seq![]);
                    assert(active.deep_view() =~= active_windows(tabs, list.take(0)));
                }
                for i in 0..windows.len()
                    invariant
                        tabs == names.deep_view(),
                        list == windows.deep_view(),
                        active.deep_view() == active_windows(tabs, list.take(i as int)),
                {
                    let ghost before = active.deep_view();
                    proof {
                        assert(list.take(i + 1).drop_last() =~= list.take(i as int));
                        assert(list[i as int] == windows[i as int]@);
                        reveal(Seq::filter);
                    }
                    if contains(&names, windows[i].as_str()) {
                        active.push(windows[i].clone());
                        assert(active.deep_view() =~= before.push(windows[i as int]@));
                    }
                }
                assert(list.take(windows.len() as int) =~= list);
                Inquiry::Done(Ok(active))
            },
        }
    }

    /// The last window whose name has a prefix. Zellij keeps no window order, so none is
    /// ever found.
    pub fn find_last_window_with_prefix(&self, _prefix: &str) -> (r: Option<String>)
        ensures
            r is None,
    {
        None
    }

    /// The last window that belongs to a base handle. Zellij keeps no window order, so none
    /// is ever found.
    pub fn find_last_window_with_base_handle(
        &self,
        _prefix: &str,
        _base_handle: &str,
    ) -> (r: Option<String>)
        ensures
            r is None,
    {
        None
    }

    /// One round of waiting until none of the windows exists.
    pub fn wait_until_windows_closed(
        &self,
        env: &Environment,
        full_window_names: &[String],
        reply: Option<&Reply<String>>,
    ) -> (r: Wait)
        ensures
            match tabs_seen(*env, reply) {
                Tabs::Unknown => r matches Wait::Ask(c) && c@ == query_tab_names_command(),
                Tabs::Failed => r == Wait::Done(Err(BackendError::CommandFailed)),
                Tabs::Known(names) => r == if all_closed(names, full_window_names.deep_view()) {
                    Wait::Done(Ok(()))
                } else {
                    Wait::Sleep { millis: 100 }
                },
            },
    {
        match Self::tabs(env, reply) {
            TabList::Unknown => Wait::Ask(query_tab_names_cmd()),
            TabList::Failed => Wait::Done(Err(BackendError::CommandFailed)),
            TabList::Known(names) => {
                let ghost list = full_window_names.deep_view();
                for i in 0..full_window_names.len()
                    invariant
                        tabs_seen(*env, reply) == Tabs::Known(names.deep_view()),
                        list == full_window_names.deep_view(),
                        forall|j: int|
                            0 <= j < i ==> !names.deep_view().contains(#[trigger] list[j]),
                {
                    if contains(&names, full_window_names[i].as_str()) {
                        assert(list[i as int] == full_window_names[i as int]@);
                        return Wait::Sleep { millis: 100 };
                    }
                    assert(list[i as int] == full_window_names[i as int]@);
                }
                Wait::Done(Ok(()))
            },
        }
    }

    // === Panes ===

    /// Selecting a pane is not supported: nothing is done.
    pub fn select_pane(&self, _pane_id: &str) -> (r: Plan<()>)
        ensures
            r.script() == Seq::<StepView>::empty(),
    {
        Self::nothing()
    }

    /// Switching to a pane is not supported: nothing is done.
    pub fn switch_to_pane(&self, _pane_id: &str) -> (r: Plan<()>)
        ensures
            r.script() == Seq::<StepView>::empty(),
    {
        Self::nothing()
    }

    /// The plan that does nothing.
    fn nothing() -> (r: Plan<()>)
        ensures
            r.script() == Seq::<StepView>::empty(),
    {
        let p = Plan { steps: Vec::new(), result: () };
        assert(p.script() =~= Seq::<StepView>::empty());
        p
    }

    /// Adds the typing of a line.
    fn push_line(steps: &mut Vec<Step>, line: &str)
        ensures
            final(steps)@.map_values(|s: Step| s@) == old(steps)@.map_values(|s: Step| s@)
                + enter_line(line@),
    {
        steps.push(Step::must(write_chars_cmd(line)));
        steps.push(Step::must(write_byte_cmd("13")));
        assert(steps@.map_values(|s: Step| s@) =~= old(steps)@.map_values(|s: Step| s@)
            + enter_line(line@));
    }

    /// Adds the change to a directory, and a command to run there.
    fn push_directory(steps: &mut Vec<Step>, cwd: &str, command: Option<&str>)
        ensures
            final(steps)@.map_values(|s: Step| s@) == old(steps)@.map_values(|s: Step| s@)
                + enter_directory(
                cwd@,
                match command {
                    Some(c) => Some(c@),
                    None => None,
                },
            ),
    {
        let ghost before = steps@.map_values(|s: Step| s@);
        let cd = "cd ".to_owned().concat(shell::shell_escape(cwd).as_str());
        Self::push_line(steps, cd.as_str());
        if let Some(c) = command {
            Self::push_line(steps, c);
            assert(before + enter_line(cd_command(cwd@)) + enter_line(c@) =~= before
                + enter_directory(cwd@, Some(c@)));
        } else {
            assert(before + enter_line(cd_command(cwd@)) =~= before + enter_directory(cwd@, None));
        }
    }

    /// Plans a fresh start in a pane: a change of directory and a command, typed into the
    /// focused pane. It yields the identifier of that pane. A path that is no valid Unicode
    /// (`None`) is refused.
    pub fn respawn_pane(
        &self,
        env: &Environment,
        _pane_id: &str,
        cwd: Option<&str>,
        cmd: Option<&str>,
    ) -> (r: Result<Plan<String>, BackendError>)
        ensures
            match cwd {
                None => r matches Err(e) && e == BackendError::NonUtf8Path,
                Some(dir) => {
                    &&& r matches Ok(p)
                    &&& p.script() == enter_directory(
                        dir@,
                        match cmd {
                            Some(c) => Some(c@),
                            None => None,
                        },
                    )
                    &&& p.result@ == match env_pane_id(*env) {
                        Some(id) => id,
                        None => "terminal_0"@,
                    }
                },
            },
    {
        match cwd {
            None => Err(BackendError::NonUtf8Path),
            Some(dir) => {
                let mut steps: Vec<Step> = Vec::new();
                let ghost none = steps@.map_values(|s: Step| s@);
                Self::push_directory(&mut steps, dir, cmd);
                let result = match Self::pane_id_from_env(env) {
                    Some(id) => id,
                    None => "terminal_0".to_owned(),
                };
                let p = Plan { steps, result };
                assert(none =~= seq![]);
                assert(p.script() =~= none + p.script());
                Ok(p)
            },
        }
    }

    /// The name of the temporary file for the capture by a process.
    pub fn capture_file_name(pid: u32) -> (r: String)
        ensures
            r@ == "zellij_capture_"@ + text::decimal(pid as nat),
    {
        "zellij_capture_".to_owned().concat(text::decimal_text(pid as u64).as_str())
    }

    /// What to do next in the capture of the screen: dump it to a temporary file, read that
    /// file, remove it. The screen is that of the focused pane, with all its lines.
    pub fn capture_pane(
        &self,
        _pane_id: &str,
        _lines: u16,
        dump_path: &str,
        event: CaptureEvent,
    ) -> (r: CaptureAction)
        ensures
            match event {
                CaptureEvent::Start => r matches CaptureAction::Dump(c) && c@ == dump_screen(
                    dump_path@,
                ),
                CaptureEvent::Dumped(true) => r == CaptureAction::ReadDump,
                CaptureEvent::Dumped(false) => r == CaptureAction::GiveUp,
                CaptureEvent::Read(content) => r == CaptureAction::RemoveDump(content),
            },
    {
        match event {
            CaptureEvent::Start => CaptureAction::Dump(dump_screen_cmd(dump_path)),
            CaptureEvent::Dumped(true) => CaptureAction::ReadDump,
            CaptureEvent::Dumped(false) => CaptureAction::GiveUp,
            CaptureEvent::Read(content) => CaptureAction::RemoveDump(content),
        }
    }

    // === Text input ===

    /// Plans the typing of a command and of Enter.
    pub fn send_keys(&self, _pane_id: &str, command: &str) -> (r: Plan<()>)
        ensures
            r.script() == send_keys_steps(command@),
    {
        let mut steps: Vec<Step> = Vec::new();
        steps.push(Step::must_or(write_chars_cmd(command), "Failed to send keys"));
        steps.push(Step::must_or(write_byte_cmd("13"), "Failed to send Enter"));
        let p = Plan { steps, result: () };
        assert(p.script() =~= send_keys_steps(command@));
        p
    }

    /// Plans the typing of a command for an agent. Some agents need a pause between a
    /// leading `!` and what follows.
    pub fn send_keys_to_agent(
        &self,
        pane_id: &str,
        command: &str,
        needs_bang_delay: bool,
    ) -> (r: Plan<()>)
        ensures
            r.script() == agent_keys_steps(command@, needs_bang_delay),
    {
        let len = command.unicode_len();
        if needs_bang_delay && len > 0 && command.get_char(0) == '!' {
            let mut steps: Vec<Step> = Vec::new();
            steps.push(Step::must(write_chars_cmd("!")));
            steps.push(Step::Sleep { millis: 50 });
            let ghost head = steps@.map_values(|s: Step| s@);
            Self::push_line(&mut steps, command.substring_char(1, len));
            let p = Plan { steps, result: () };
            proof {
                assert(head =~= seq![
                    plan::must(write_chars("!"@)),
                    StepView::Sleep { millis: 50 },
                ]);
                assert(command@.subrange(1, len as int) =~= command@.skip(1));
            }
            p
        } else {
            self.send_keys(pane_id, command)
        }
    }

    /// Plans the pressing of a key, given by its name or as the character that it types.
    pub fn send_key(&self, _pane_id: &str, key: &str) -> (r: Plan<()>)
        ensures
            r.script() == seq![plan::must_or(key_command(key@), "Failed to send key"@)],
    {
        proof {
            reveal_strlit("Enter");
            reveal_strlit("Escape");
            reveal_strlit("Tab");
        }
        let command = if text::same(key, "Enter") {
            write_byte_cmd("13")
        } else if text::same(key, "Escape") {
            write_byte_cmd("27")
        } else if text::same(key, "Tab") {
            write_byte_cmd("9")
        } else {
            write_chars_cmd(key)
        };
        let mut steps: Vec<Step> = Vec::new();
        steps.push(Step::must_or(command, "Failed to send key"));
        let p = Plan { steps, result: () };
        assert(p.script() =~= seq![plan::must_or(key_command(key@), "Failed to send key"@)]);
        p
    }

    /// Plans the typing of several lines, each with Enter behind it.
    pub fn paste_multiline(&self, _pane_id: &str, content: &str) -> (r: Plan<()>)
        ensures
            r.script() == paste_steps(text::lines(content@)),
    {
        let lines = text::split_lines(content);
        let ghost list = lines.deep_view();
        let mut steps: Vec<Step> = Vec::new();
        proof {
            assert(list.take(0) =~= seq![]);
            assert(steps@.map_values(|s: Step| s@) =~= paste_steps(list.take(0)));
        }
        for i in 0..lines.len()
            invariant
                list == lines.deep_view(),
                steps@.map_values(|s: Step| s@) == paste_steps(list.take(i as int)),
        {
            proof {
                assert(list.take(i + 1).drop_last() =~= list.take(i as int));
                assert(list[i as int] == lines[i as int]@);
            }
            Self::push_line(&mut steps, lines[i].as_str());
        }
        assert(list.take(lines.len() as int) =~= list);
        Plan { steps, result: () }
    }

    // === Shell ===

    /// The path of the user's shell.
    pub fn get_default_shell(&self, env: &Environment) -> (r: String)
        ensures
            r@ == match env.shell.deep_view() {
                Some(path) => path,
                None => "/bin/sh"@,
            },
    {
        match &env.shell {
            Some(path) => path.clone(),
            None => "/bin/sh".to_owned(),
        }
    }

    // === Status ===

    /// A status cannot be shown: nothing is done.
    pub fn set_status(
        &self,
        _pane_id: &str,
        _icon: &str,
        _auto_clear_on_focus: bool,
    ) -> (r: Plan<()>)
        ensures
            r.script() == Seq::<StepView>::empty(),
    {
        Self::nothing()
    }

    /// No status is shown: nothing is done.
    pub fn clear_status(&self, _pane_id: &str) -> (r: Plan<()>)
        ensures
            r.script() == Seq::<StepView>::empty(),
    {
        Self::nothing()
    }

    /// No status is shown: nothing is done.
    pub fn ensure_status_format(&self, _pane_id: &str) -> (r: Plan<()>)
        ensures
            r.script() == Seq::<StepView>::empty(),
    {
        Self::nothing()
    }

    // === Pane setup ===

    /// Plans the splitting of the focused pane. The directory is entered by hand as well,
    /// since the option of `new-pane` does not always work; then the command is run, if
    /// there is one. The sizes are ignored: every split is even. It yields the identifier
    /// of the pane, or one made of the process number `pid` where the environment names
    /// none. A path that is no valid Unicode (`None`) is refused.
    pub fn split_pane(
        &self,
        env: &Environment,
        _target_pane_id: &str,
        direction: &SplitDirection,
        cwd: Option<&str>,
        _size: Option<u16>,
        _percentage: Option<u8>,
        command: Option<&str>,
        pid: u32,
    ) -> (r: Result<Plan<String>, BackendError>)
        ensures
            match cwd {
                None => r matches Err(e) && e == BackendError::NonUtf8Path,
                Some(dir) => {
                    &&& r matches Ok(p)
                    &&& p.script() == split_pane_steps(
                        *direction,
                        dir@,
                        match command {
                            Some(c) => Some(c@),
                            None => None,
                        },
                    )
                    &&& p.result@ == match env_pane_id(*env) {
                        Some(id) => id,
                        None => terminal_id(text::decimal(pid as nat)),
                    }
                },
            },
    {
        let dir_arg = match direction {
            SplitDirection::Horizontal => "right",
            SplitDirection::Vertical => "down",
        };
        match cwd {
            None => Err(BackendError::NonUtf8Path),
            Some(dir) => {
                let mut steps: Vec<Step> = Vec::new();
                steps.push(Step::must_or(new_pane_cmd(dir_arg, dir), "Failed to split pane"));
                let ghost head = steps@.map_values(|s: Step| s@);
                Self::push_directory(&mut steps, dir, command);
                let result = match Self::pane_id_from_env(env) {
                    Some(id) => id,
                    None => "terminal_".to_owned().concat(text::decimal_text(pid as u64).as_str()),
                };
                let p = Plan { steps, result };
                assert(head =~= seq![
                    plan::must_or(
                        new_pane(direction_arg(*direction), dir@),
                        "Failed to split pane"@,
                    ),
                ]);
                Ok(p)
            },
        }
    }

    // === State reconciliation ===

    /// What is known of a pane: nothing, unless it is the focused pane of a client.
    pub fn get_live_pane_info(
        &self,
        env: &Environment,
        pane_id: &str,
        reply: Option<&Reply<String>>,
    ) -> (r: Inquiry<Option<LivePaneInfo>>)
        ensures
            match reply {
                None => r matches Inquiry::Ask(c) && c@ == list_clients_command(),
                Some(Reply::Failed) => r == Inquiry::<Option<LivePaneInfo>>::Done(
                    Err(BackendError::CommandFailed),
                ),
                Some(Reply::Output(output)) => {
                    &&& r matches Inquiry::Done(Ok(info))
                    &&& match info {
                        Some(i) => Some(i@),
                        None => None,
                    } == live_pane(clients(output@), pane_id@, *env)
                },
            },
    {
        let output = match reply {
            None => {
                return Inquiry::Ask(list_clients_cmd());
            },
            Some(Reply::Failed) => {
                return Inquiry::Done(Err(BackendError::CommandFailed));
            },
            Some(Reply::Output(output)) => output,
        };
        let list = Self::list_clients(output.as_str());
        let ghost views = list@.map_values(|c: ClientInfo| c@);
        for i in 0..list.len()
            invariant
                views == list@.map_values(|c: ClientInfo| c@),
                views == clients(output@),
                reply == Some(&Reply::Output(*output)),
                client_in(views.take(i as int), pane_id@) is None,
        {
            proof {
                assert(views.take(i + 1).drop_last() =~= views.take(i as int));
                assert(views.take(i + 1).last() == list[i as int]@);
            }
            if text::same(list[i].pane_id.as_str(), pane_id) {
                let words = text::split_words(list[i].running_command.as_str());
                assert(words.deep_view().len() == words.len());
                let current_command = if words.len() > 0 {
                    words[0].clone()
                } else {
                    String::new()
                };
                proof {
                    lemma_client_in_prefix(views, i + 1, pane_id@);
                    assert(current_command@ =~= first_word(list[i as int]@.running_command));
                }
                return Inquiry::Done(
                    Ok(
                        Some(
                            LivePaneInfo {
                                pid: 0,
                                current_command,
                                working_dir: String::new(),
                                title: None,
                                session: Self::session_name(env),
                                window: env.tab_name.clone(),
                            },
                        ),
                    ),
                );
            }
        }
        assert(views.take(list.len() as int) =~= views);
        Inquiry::Done(Ok(None))
    }

    /// Plans the closing of a window after a delay, in a background process that then runs
    /// a script of the caller's. It outlives the window. `delay_secs` is the delay in
    /// seconds, as the `sleep` command takes it.
    pub fn schedule_cleanup_and_close(
        &self,
        source_window: &str,
        target_window: Option<&str>,
        cleanup_script: &str,
        delay_secs: &str,
    ) -> (r: Plan<()>)
        ensures
            r.script() == seq![
                plan::spawn_or(
                    shell_script(
                        cleanup_and_close_script(
                            source_window@,
                            match target_window {
                                Some(t) => Some(t@),
                                None => None,
                            },
                            cleanup_script@,
                            delay_secs@,
                        ),
                    ),
                    "Failed to spawn cleanup process"@,
                ),
            ],
    {
        let ghost target: Option<Seq<char>> = match target_window {
            Some(t) => Some(t@),
            None => None,
        };
        let mut script = "trap '' HUP; sleep ".to_owned().concat(delay_secs).concat(";");
        if let Some(t) = target_window {
            script.append(Self::go_to_tab_part(t).as_str());
        }
        script.append(Self::go_to_tab_part(source_window).as_str());
        script.append(" zellij action close-tab >/dev/null 2>&1;");
        assert(script@ =~= close_and_return_script(source_window@, target, delay_secs@));
        if !cleanup_script.is_empty() {
            script.append(" ");
            script.append(cleanup_script);
        }
        assert(script@ =~= cleanup_and_close_script(source_window@, target, cleanup_script@, delay_secs@));
        let mut steps: Vec<Step> = Vec::new();
        steps.push(
            Step::spawn_or(shell_script_cmd(script.as_str()), "Failed to spawn cleanup process"),
        );
        let p = Plan { steps, result: () };
        assert(p.script() =~= seq![
            plan::spawn_or(
                shell_script(cleanup_and_close_script(source_window@, target, cleanup_script@, delay_secs@)),
                "Failed to spawn cleanup process"@,
            ),
        ]);
        p
    }

    /// The part of a script that focuses a tab, without any output.
    fn go_to_tab_part(name: &str) -> (r: String)
        ensures
            r@ == go_to_tab_script(name@),
    {
        " zellij action go-to-tab-name ".to_owned().concat(
            shell::shell_escape(name).as_str(),
        ).concat(" >/dev/null 2>&1;")
    }
}

/// A client found in the first part of a list is the one found in the whole list.
proof fn lemma_client_in_prefix(list: Seq<ClientView>, n: int, pane_id: Seq<char>)
    requires
        0 <= n <= list.len(),
        client_in(list.take(n), pane_id) is Some,
    ensures
        client_in(list, pane_id) == client_in(list.take(n), pane_id),
    decreases list.len() - n,
{
    if n == list.len() {
        assert(list.take(n) =~= list);
    } else {
        assert(list.take(n + 1).drop_last() =~= list.take(n));
        lemma_client_in_prefix(list, n + 1, pane_id);
    }
}

/// A backend keeps no state: any two are equal.
pub proof fn law_backend_has_no_state(a: ZellijBackend, b: ZellijBackend)
    ensures
        a == b,
        a == ZellijBackend::value(),
{
}

} // verus!

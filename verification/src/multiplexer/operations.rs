//! What each operation of the backend is for: the commands that it has run, word by word,
//! and the answers that it gives, as laws about its results.

use crate::multiplexer::laws;
use crate::multiplexer::laws::Row;
use crate::multiplexer::types::{
    BackendError, CaptureAction, CaptureEvent, ClientInfo, ClientView, Environment, Inquiry,
    LivePaneInfo, Reply, SplitDirection, Wait,
};
use crate::multiplexer::zellij;
use crate::multiplexer::zellij::ZellijBackend;
use crate::plan::{FailureView, Plan, StepView};
use crate::shell;
use crate::text;
use vstd::prelude::*;

verus! {

/// The step types a text; where it fails, the plan does, with this message.
pub open spec fn types(step: StepView, s: Seq<char>, context: Option<Seq<char>>) -> bool {
    step == (StepView::Run {
        command: seq!["zellij"@, "action"@, "write-chars"@, s],
        on_failure: FailureView::Abort(context),
    })
}

/// The step sends one byte, given in decimal; where it fails, the plan does, with this
/// message.
pub open spec fn sends(step: StepView, code: Seq<char>, context: Option<Seq<char>>) -> bool {
    step == (StepView::Run {
        command: seq!["zellij"@, "action"@, "write"@, code],
        on_failure: FailureView::Abort(context),
    })
}

/// The step focuses a tab.
pub open spec fn focuses(step: StepView, tab: Seq<char>, on_failure: FailureView) -> bool {
    step == (StepView::Run { command: seq!["zellij"@, "action"@, "go-to-tab-name"@, tab], on_failure })
}

/// The argument vectors, word by word.
proof fn lemma_argv(a: Seq<char>, b: Seq<char>)
    ensures
        zellij::write_chars(a) == seq!["zellij"@, "action"@, "write-chars"@, a],
        zellij::write_byte(a) == seq!["zellij"@, "action"@, "write"@, a],
        zellij::press_enter() == seq!["zellij"@, "action"@, "write"@, "13"@],
        zellij::go_to_tab(a) == seq!["zellij"@, "action"@, "go-to-tab-name"@, a],
        zellij::close_tab() == seq!["zellij"@, "action"@, "close-tab"@],
        zellij::dump_screen(a) == seq!["zellij"@, "action"@, "dump-screen"@, a],
        zellij::query_tab_names_command() == seq!["zellij"@, "action"@, "query-tab-names"@],
        zellij::list_clients_command() == seq!["zellij"@, "action"@, "list-clients"@],
        zellij::new_tab(a, b) == seq![
            "zellij"@,
            "action"@,
            "new-tab"@,
            "--layout"@,
            "default"@,
            "--name"@,
            a,
            "--cwd"@,
            b,
        ],
        zellij::new_pane(a, b) == seq![
            "zellij"@,
            "action"@,
            "new-pane"@,
            "--direction"@,
            a,
            "--cwd"@,
            b,
        ],
{
    assert(zellij::write_chars(a) =~= seq!["zellij"@, "action"@, "write-chars"@, a]);
    assert(zellij::write_byte(a) =~= seq!["zellij"@, "action"@, "write"@, a]);
    assert(zellij::press_enter() =~= seq!["zellij"@, "action"@, "write"@, "13"@]);
    assert(zellij::go_to_tab(a) =~= seq!["zellij"@, "action"@, "go-to-tab-name"@, a]);
    assert(zellij::close_tab() =~= seq!["zellij"@, "action"@, "close-tab"@]);
    assert(zellij::dump_screen(a) =~= seq!["zellij"@, "action"@, "dump-screen"@, a]);
    assert(zellij::query_tab_names_command() =~= seq!["zellij"@, "action"@, "query-tab-names"@]);
    assert(zellij::list_clients_command() =~= seq!["zellij"@, "action"@, "list-clients"@]);
    assert(zellij::new_tab(a, b) =~= seq![
        "zellij"@,
        "action"@,
        "new-tab"@,
        "--layout"@,
        "default"@,
        "--name"@,
        a,
        "--cwd"@,
        b,
    ]);
    assert(zellij::new_pane(a, b) =~= seq![
        "zellij"@,
        "action"@,
        "new-pane"@,
        "--direction"@,
        a,
        "--cwd"@,
        b,
    ]);
}

// === Panes ===

/// The steps enter a directory and, behind that, run the command, if there is one.
pub open spec fn enters(script: Seq<StepView>, cwd: Seq<char>, command: Option<&str>) -> bool {
    &&& script.len() == if command is Some {
        4int
    } else {
        2int
    }
    &&& types(script[0], "cd "@ + shell::escaped(cwd), None)
    &&& sends(script[1], "13"@, None)
    &&& command matches Some(c) ==> types(script[2], c@, None) && sends(script[3], "13"@, None)
    &&& laws::typed(script) == ("cd "@ + shell::escaped(cwd)).push('\r') + match command {
        Some(c) => c@.push('\r'),
        None => seq![],
    }
    &&& shell::shell_words("cd "@ + shell::escaped(cwd)) == seq!["cd"@, cwd]
}

/// The steps for a directory enter it.
proof fn lemma_enters(cwd: Seq<char>, command: Option<&str>)
    ensures
        enters(
            zellij::enter_directory(
                cwd,
                match command {
                    Some(c) => Some(c@),
                    None => None,
                },
            ),
            cwd,
            command,
        ),
{
    let c: Option<Seq<char>> = match command {
        Some(c) => Some(c@),
        None => None,
    };
    lemma_argv(zellij::cd_command(cwd), seq![]);
    if let Some(s) = c {
        lemma_argv(s, seq![]);
    }
    laws::law_directory_is_entered_first(cwd, c);
    laws::law_cd_takes_the_directory(cwd);
}

/// The identifier of the current pane, or another where the environment names none.
pub open spec fn pane_or(env: &Environment, other: Seq<char>) -> Seq<char> {
    match env.pane_id {
        Some(id) => "terminal_"@ + id@,
        None => other,
    }
}

/// A split opens a pane to the right or below, in the directory, enters the directory and
/// runs the command there, and names the pane. A path that is no valid Unicode is refused.
pub proof fn law_split_pane(
    b: &ZellijBackend,
    env: &Environment,
    target: &str,
    direction: &SplitDirection,
    cwd: Option<&str>,
    size: Option<u16>,
    percentage: Option<u8>,
    command: Option<&str>,
    pid: u32,
    r: Result<Plan<String>, BackendError>,
)
    requires
        call_ensures(
            ZellijBackend::split_pane,
            (b, env, target, direction, cwd, size, percentage, command, pid),
            r,
        ),
    ensures
        cwd is None ==> r is Err && r->Err_0 is NonUtf8Path,
        cwd matches Some(dir) ==> {
            &&& r matches Ok(p)
            &&& p.script().len() > 0
            &&& p.script()[0] == (StepView::Run {
                command: seq![
                    "zellij"@,
                    "action"@,
                    "new-pane"@,
                    "--direction"@,
                    if *direction is Horizontal {
                        "right"@
                    } else {
                        "down"@
                    },
                    "--cwd"@,
                    dir@,
                ],
                on_failure: FailureView::Abort(Some("Failed to split pane"@)),
            })
            &&& enters(p.script().skip(1), dir@, command)
            &&& laws::typed(p.script()) == laws::typed(p.script().skip(1))
            &&& p.result@ == pane_or(env, "terminal_"@ + text::decimal(pid as nat))
        },
{
    if let Some(dir) = cwd {
        let script = r->Ok_0.script();
        lemma_enters(dir@, command);
        lemma_argv("right"@, dir@);
        lemma_argv("down"@, dir@);
        let c: Option<Seq<char>> = match command {
            Some(c) => Some(c@),
            None => None,
        };
        assert(script.skip(1) =~= zellij::enter_directory(dir@, c));
        assert(script =~= seq![script[0]] + script.skip(1));
        laws::lemma_typed_concat(seq![script[0]], script.skip(1));
        laws::lemma_typed_step(script[0]);
        assert(laws::typed(seq![script[0]]) =~= seq![]);
        assert(laws::typed(script) =~= laws::typed(script.skip(1)));
    }
}

/// Splits differ in their first step only, however they are directed, sized or targeted.
/// The rest is what starts a pane afresh in that directory with that command.
pub proof fn law_split_is_a_new_pane_started_afresh(
    b: &ZellijBackend,
    env: &Environment,
    target: &str,
    direction: &SplitDirection,
    cwd: &str,
    size: Option<u16>,
    percentage: Option<u8>,
    command: Option<&str>,
    pid: u32,
    pane: &str,
    split: Result<Plan<String>, BackendError>,
    respawn: Result<Plan<String>, BackendError>,
)
    requires
        call_ensures(
            ZellijBackend::split_pane,
            (b, env, target, direction, Some(cwd), size, percentage, command, pid),
            split,
        ),
        call_ensures(ZellijBackend::respawn_pane, (b, env, pane, Some(cwd), command), respawn),
    ensures
        split matches Ok(s) && respawn matches Ok(p) && s.script().skip(1) == p.script(),
{
    assert(split->Ok_0.script().skip(1) =~= respawn->Ok_0.script());
}

/// Starting a pane afresh enters the directory, runs the command, and names the pane.
pub proof fn law_respawn_pane(
    b: &ZellijBackend,
    env: &Environment,
    pane: &str,
    cwd: Option<&str>,
    command: Option<&str>,
    r: Result<Plan<String>, BackendError>,
)
    requires
        call_ensures(ZellijBackend::respawn_pane, (b, env, pane, cwd, command), r),
    ensures
        cwd is None ==> r is Err && r->Err_0 is NonUtf8Path,
        cwd matches Some(dir) ==> {
            &&& r matches Ok(p)
            &&& enters(p.script(), dir@, command)
            &&& p.result@ == pane_or(env, "terminal_0"@)
        },
{
    if let Some(dir) = cwd {
        lemma_enters(dir@, command);
    }
}

/// A capture dumps the screen to the file, reads the file only if that worked, removes it
/// whether or not it could be read, and yields what was read.
pub proof fn law_capture_pane(
    b: &ZellijBackend,
    pane: &str,
    lines: u16,
    path: &str,
    event: CaptureEvent,
    r: CaptureAction,
)
    requires
        call_ensures(ZellijBackend::capture_pane, (b, pane, lines, path, event), r),
    ensures
        r is Dump <==> event is Start,
        r matches CaptureAction::Dump(c) ==> c@ == seq![
            "zellij"@,
            "action"@,
            "dump-screen"@,
            path@,
        ],
        r is ReadDump <==> event == CaptureEvent::Dumped(true),
        r is GiveUp <==> event == CaptureEvent::Dumped(false),
        r is RemoveDump <==> event is Read,
        r matches CaptureAction::RemoveDump(content) ==> event == CaptureEvent::Read(content),
{
    lemma_argv(path@, seq![]);
}

/// Processes capture to files of their own.
pub proof fn law_captures_do_not_collide(p: u32, q: u32, a: String, b: String)
    requires
        call_ensures(ZellijBackend::capture_file_name, (p,), a),
        call_ensures(ZellijBackend::capture_file_name, (q,), b),
    ensures
        a@ == "zellij_capture_"@ + text::decimal(p as nat),
        a@ == b@ ==> p == q,
{
    text::law_decimal_reads_back(p as nat);
    text::law_decimal_reads_back(q as nat);
    if a@ == b@ {
        let n = "zellij_capture_"@.len() as int;
        assert(a@.skip(n) =~= text::decimal(p as nat));
        assert(b@.skip(n) =~= text::decimal(q as nat));
    }
}

/// What is not supported has nothing run: panes are not selected, and no status is shown.
pub proof fn law_unsupported_requests_run_nothing(
    b: &ZellijBackend,
    pane: &str,
    icon: &str,
    clear: bool,
    p: Plan<()>,
)
    requires
        ({
            ||| call_ensures(ZellijBackend::select_pane, (b, pane), p)
            ||| call_ensures(ZellijBackend::switch_to_pane, (b, pane), p)
            ||| call_ensures(ZellijBackend::set_status, (b, pane, icon, clear), p)
            ||| call_ensures(ZellijBackend::clear_status, (b, pane), p)
            ||| call_ensures(ZellijBackend::ensure_status_format, (b, pane), p)
        }),
    ensures
        p.script().len() == 0,
        p.steps@.len() == 0,
{
    assert(p.script().len() == p.steps@.len());
}

// === Text input ===

/// Keys are the command and Enter, each with its own message.
pub proof fn law_send_keys(b: &ZellijBackend, pane: &str, command: &str, p: Plan<()>)
    requires
        call_ensures(ZellijBackend::send_keys, (b, pane, command), p),
    ensures
        p.script().len() == 2,
        types(p.script()[0], command@, Some("Failed to send keys"@)),
        sends(p.script()[1], "13"@, Some("Failed to send Enter"@)),
        laws::typed(p.script()) == command@.push('\r'),
{
    lemma_argv(command@, seq![]);
    laws::law_send_keys_types_the_command(command@);
}

/// An agent that needs it gets a pause of 50 ms between a leading `!` and the rest; in
/// every other case there is no pause. The whole command and Enter are typed either way.
pub proof fn law_send_keys_to_agent(
    b: &ZellijBackend,
    pane: &str,
    command: &str,
    needs_bang_delay: bool,
    p: Plan<()>,
)
    requires
        call_ensures(ZellijBackend::send_keys_to_agent, (b, pane, command, needs_bang_delay), p),
    ensures
        needs_bang_delay && command@.len() > 0 && command@[0] == '!' ==> {
            &&& p.script().len() == 4
            &&& types(p.script()[0], seq!['!'], None)
            &&& p.script()[1] == (StepView::Sleep { millis: 50 })
            &&& types(p.script()[2], command@.skip(1), None)
            &&& sends(p.script()[3], "13"@, None)
        },
        !(needs_bang_delay && command@.len() > 0 && command@[0] == '!') ==> {
            &&& p.script().len() == 2
            &&& types(p.script()[0], command@, Some("Failed to send keys"@))
            &&& sends(p.script()[1], "13"@, Some("Failed to send Enter"@))
            &&& forall|i: int| 0 <= i < p.script().len() ==> !(#[trigger] p.script()[i] is Sleep)
        },
        laws::typed(p.script()) == command@.push('\r'),
{
    reveal_strlit("!");
    assert("!"@ =~= seq!['!']);
    lemma_argv("!"@, seq![]);
    lemma_argv(command@, seq![]);
    lemma_argv(command@.skip(1), seq![]);
    laws::law_agent_gets_the_whole_command(command@, needs_bang_delay);
}

/// A key is one step: a byte for a named key, else the key itself is typed.
pub proof fn law_send_key(b: &ZellijBackend, pane: &str, key: &str, p: Plan<()>)
    requires
        call_ensures(ZellijBackend::send_key, (b, pane, key), p),
    ensures
        p.script().len() == 1,
        key@ == "Enter"@ ==> sends(p.script()[0], "13"@, Some("Failed to send key"@)),
        key@ == "Escape"@ ==> sends(p.script()[0], "27"@, Some("Failed to send key"@)),
        key@ == "Tab"@ ==> sends(p.script()[0], "9"@, Some("Failed to send key"@)),
        key@ != "Enter"@ && key@ != "Escape"@ && key@ != "Tab"@ ==> types(
            p.script()[0],
            key@,
            Some("Failed to send key"@),
        ),
{
    reveal_strlit("Enter");
    reveal_strlit("Escape");
    reveal_strlit("Tab");
    assert("Enter"@.len() != "Escape"@.len());
    assert("Enter"@.len() != "Tab"@.len());
    assert("Escape"@.len() != "Tab"@.len());
    lemma_argv("13"@, seq![]);
    lemma_argv("27"@, seq![]);
    lemma_argv("9"@, seq![]);
    lemma_argv(key@, seq![]);
}

/// The steps enter the lines one by one: each is typed whole, with Enter behind it.
pub open spec fn enters_lines(script: Seq<StepView>, lines: Seq<Seq<char>>) -> bool {
    &&& script.len() == 2 * lines.len()
    &&& forall|i: int|
        #![trigger lines[i]]
        0 <= i < lines.len() ==> types(script[2 * i], lines[i], None) && sends(
            script[2 * i + 1],
            "13"@,
            None,
        )
}

/// The steps for some lines enter them.
proof fn lemma_paste_steps(lines: Seq<Seq<char>>)
    ensures
        enters_lines(zellij::paste_steps(lines), lines),
    decreases lines.len(),
{
    let script = zellij::paste_steps(lines);
    if lines.len() > 0 {
        let front = lines.drop_last();
        let before = zellij::paste_steps(front);
        lemma_paste_steps(front);
        lemma_argv(lines.last(), seq![]);
        assert forall|i: int| #![trigger lines[i]] 0 <= i < lines.len() implies types(
            script[2 * i],
            lines[i],
            None,
        ) && sends(script[2 * i + 1], "13"@, None) by {
            if i < front.len() {
                assert(front[i] == lines[i]);
                assert(script[2 * i] == before[2 * i]);
                assert(script[2 * i + 1] == before[2 * i + 1]);
            } else {
                assert(script[2 * i] == zellij::enter_line(lines.last())[0]);
                assert(script[2 * i + 1] == zellij::enter_line(lines.last())[1]);
            }
        }
    }
}

/// Pasting types every line whole, in order, with Enter behind it, whether or not the last
/// one ends in a newline.
pub proof fn law_paste_multiline(
    b: &ZellijBackend,
    pane: &str,
    content: &str,
    ls: Seq<Seq<char>>,
    last: Seq<char>,
    p: Plan<()>,
)
    requires
        call_ensures(ZellijBackend::paste_multiline, (b, pane, content), p),
        content@ == text::terminated(ls) + last,
        forall|i: int|
            0 <= i < ls.len() ==> !(#[trigger] ls[i]).contains('\n') && (ls[i].len() == 0
                || ls[i].last() != '\r'),
        !last.contains('\n'),
    ensures
        ({
            let all = if last.len() > 0 {
                ls.push(last)
            } else {
                ls
            };
            &&& enters_lines(p.script(), all)
            &&& laws::typed(p.script()) == laws::all_entered(all)
        }),
{
    text::law_lines_keep_an_unterminated_end(ls, last);
    let all = if last.len() > 0 {
        ls.push(last)
    } else {
        ls
    };
    lemma_paste_steps(all);
    laws::law_paste_types_every_line(all);
}

/// Pasting lines that are joined by newlines types every one of them, with or without a
/// newline behind the last. An empty last line takes one to be seen.
pub proof fn law_paste_types_joined_lines(
    b: &ZellijBackend,
    pane: &str,
    content: &str,
    all: Seq<Seq<char>>,
    p: Plan<()>,
)
    requires
        call_ensures(ZellijBackend::paste_multiline, (b, pane, content), p),
        all.len() > 0,
        forall|i: int|
            0 <= i < all.len() ==> !(#[trigger] all[i]).contains('\n') && (all[i].len() == 0
                || all[i].last() != '\r'),
        ({
            ||| content@ == text::join(all, seq!['\n']) && all.last().len() > 0
            ||| content@ == text::join(all, seq!['\n']).push('\n')
        }),
    ensures
        enters_lines(p.script(), all),
        laws::typed(p.script()) == laws::all_entered(all),
{
    let ls = all.drop_last();
    let last = all.last();
    let none: Seq<char> = seq![];
    assert(ls.push(last) =~= all);
    text::lemma_joined_lines(ls, last);
    assert(!all[all.len() - 1].contains('\n'));
    assert forall|i: int| 0 <= i < ls.len() implies !(#[trigger] ls[i]).contains('\n') && (
    ls[i].len() == 0 || ls[i].last() != '\r') by {
        assert(ls[i] == all[i]);
    }
    if content@ == text::join(all, seq!['\n']) && last.len() > 0 {
        law_paste_multiline(b, pane, content, ls, last, p);
    } else {
        assert(text::terminated(all) + none =~= text::terminated(all));
        law_paste_multiline(b, pane, content, all, none, p);
    }
}

/// Any content is pasted as its lines.
pub proof fn law_paste_types_the_lines_of_any_content(
    b: &ZellijBackend,
    pane: &str,
    content: &str,
    p: Plan<()>,
)
    requires
        call_ensures(ZellijBackend::paste_multiline, (b, pane, content), p),
    ensures
        enters_lines(p.script(), text::lines(content@)),
{
    lemma_paste_steps(text::lines(content@));
}

// === Windows ===

/// Creating a window always opens a tab of the full name in the directory, whatever the
/// environment says; only where that names a tab, a second step goes back to it, whose
/// failure does not matter. The plan yields the full name.
pub proof fn law_create_window(
    b: &ZellijBackend,
    env: &Environment,
    prefix: &str,
    name: &str,
    cwd: Option<&str>,
    r: Result<Plan<String>, BackendError>,
)
    requires
        call_ensures(ZellijBackend::create_window, (b, env, prefix, name, cwd), r),
    ensures
        cwd is None ==> r is Err && r->Err_0 is NonUtf8Path,
        cwd matches Some(dir) ==> {
            &&& r matches Ok(p)
            &&& p.result@ == prefix@ + name@
            &&& p.script().len() == if env.tab_name is Some {
                2int
            } else {
                1int
            }
            &&& p.script()[0] == (StepView::Run {
                command: seq![
                    "zellij"@,
                    "action"@,
                    "new-tab"@,
                    "--layout"@,
                    "default"@,
                    "--name"@,
                    prefix@ + name@,
                    "--cwd"@,
                    dir@,
                ],
                on_failure: FailureView::Abort(
                    Some("Failed to create zellij tab '"@ + (prefix@ + name@) + "'"@),
                ),
            })
            &&& env.tab_name matches Some(tab) ==> focuses(
                p.script()[1],
                tab@,
                FailureView::Ignore,
            )
        },
{
    if let Some(dir) = cwd {
        lemma_argv(prefix@ + name@, dir@);
        if let Some(tab) = env.tab_name {
            lemma_argv(tab@, seq![]);
        }
    }
}

/// Killing a window focuses it and then closes the focused tab; both have to succeed.
pub proof fn law_kill_window(b: &ZellijBackend, name: &str, p: Plan<()>)
    requires
        call_ensures(ZellijBackend::kill_window, (b, name), p),
    ensures
        p.script().len() == 2,
        focuses(
            p.script()[0],
            name@,
            FailureView::Abort(Some("Failed to switch to tab for closing"@)),
        ),
        p.script()[1] == (StepView::Run {
            command: seq!["zellij"@, "action"@, "close-tab"@],
            on_failure: FailureView::Abort(Some("Failed to close zellij tab"@)),
        }),
{
    lemma_argv(name@, seq![]);
}

/// Selecting a window focuses the tab of its full name.
pub proof fn law_select_window(b: &ZellijBackend, prefix: &str, name: &str, p: Plan<()>)
    requires
        call_ensures(ZellijBackend::select_window, (b, prefix, name), p),
    ensures
        p.script().len() == 1,
        focuses(
            p.script()[0],
            prefix@ + name@,
            FailureView::Abort(Some("Failed to select zellij tab"@)),
        ),
{
    lemma_argv(prefix@ + name@, seq![]);
}

/// The one step starts a shell with this script in the background.
pub open spec fn starts_script(
    script: Seq<StepView>,
    text: Seq<char>,
    context: Seq<char>,
) -> bool {
    script == seq![
        StepView::Spawn {
            command: seq!["sh"@, "-c"@, text],
            on_failure: FailureView::Abort(Some(context)),
        },
    ]
}

/// The scheduled closing waits for the seconds, then focuses the tab, then closes it, each
/// only if what came before went well. The name is the only quoted part.
pub proof fn law_schedule_window_close(b: &ZellijBackend, name: &str, secs: u64, p: Plan<()>)
    requires
        call_ensures(ZellijBackend::schedule_window_close, (b, name, secs), p),
    ensures
        ({
            let script = "sleep "@ + text::decimal(secs as nat)
                + " && zellij action go-to-tab-name "@ + shell::escaped(name@)
                + " && zellij action close-tab"@;
            &&& starts_script(p.script(), script, "Failed to spawn delayed close"@)
            &&& shell::shell_words(script) == seq![
                "sleep"@,
                text::decimal(secs as nat),
                "&&"@,
                "zellij"@,
                "action"@,
                "go-to-tab-name"@,
                name@,
                "&&"@,
                "zellij"@,
                "action"@,
                "close-tab"@,
            ]
        }),
{
    laws::law_close_script_names_the_tab(name@, secs as nat);
}

/// The focusing of a tab in a script, without any output.
pub open spec fn focus_text(name: Seq<char>) -> Seq<char> {
    " zellij action go-to-tab-name "@ + shell::escaped(name) + " >/dev/null 2>&1;"@
}

/// The cleanup ignores the end of its terminal, waits, focuses the target tab if there is
/// one, focuses and closes the source tab, and runs the caller's script last.
pub proof fn law_schedule_cleanup_and_close(
    b: &ZellijBackend,
    source: &str,
    target: Option<&str>,
    cleanup: &str,
    secs: &str,
    p: Plan<()>,
)
    requires
        call_ensures(
            ZellijBackend::schedule_cleanup_and_close,
            (b, source, target, cleanup, secs),
            p,
        ),
    ensures
        ({
            let head = "trap '' HUP; sleep "@ + secs@ + ";"@;
            let there = match target {
                Some(t) => head + focus_text(t@),
                None => head,
            };
            let closed = there + focus_text(source@)
                + " zellij action close-tab >/dev/null 2>&1;"@;
            starts_script(
                p.script(),
                if cleanup@.len() > 0 {
                    closed + (" "@ + cleanup@)
                } else {
                    closed
                },
                "Failed to spawn cleanup process"@,
            )
        }),
{
    let t: Option<Seq<char>> = match target {
        Some(t) => Some(t@),
        None => None,
    };
    let head = "trap '' HUP; sleep "@ + secs@ + ";"@;
    let there = match target {
        Some(t) => head + focus_text(t@),
        None => head,
    };
    let closed = there + focus_text(source@) + " zellij action close-tab >/dev/null 2>&1;"@;
    assert(closed =~= zellij::close_and_return_script(source@, t, secs@));
    assert((if cleanup@.len() > 0 {
        closed + (" "@ + cleanup@)
    } else {
        closed
    }) =~= zellij::cleanup_and_close_script(source@, t, cleanup@, secs@));
}

/// The questions about windows run one and the same command, and only inside a session and
/// without a reply; a failed command is an error; outside a session there is no window.
pub proof fn law_window_questions_ask_for_the_tabs(
    b: &ZellijBackend,
    env: &Environment,
    prefix: &str,
    name: &str,
    windows: &[String],
    reply: Option<&Reply<String>>,
    exists: Inquiry<bool>,
    exists_full: Inquiry<bool>,
    all: Inquiry<Vec<String>>,
    active: Inquiry<Vec<String>>,
    wait: Wait,
)
    requires
        call_ensures(ZellijBackend::window_exists, (b, env, prefix, name, reply), exists),
        call_ensures(ZellijBackend::window_exists_by_full_name, (b, env, name, reply), exists_full),
        call_ensures(ZellijBackend::get_all_window_names, (b, env, reply), all),
        call_ensures(ZellijBackend::filter_active_windows, (b, env, windows, reply), active),
        call_ensures(ZellijBackend::wait_until_windows_closed, (b, env, windows, reply), wait),
    ensures
        ({
            let asks = env.session is Some && reply is None;
            let command = seq!["zellij"@, "action"@, "query-tab-names"@];
            &&& exists is Ask <==> asks
            &&& exists_full is Ask <==> asks
            &&& all is Ask <==> asks
            &&& active is Ask <==> asks
            &&& wait is Ask <==> asks
            &&& asks ==> {
                &&& exists->Ask_0@ == command
                &&& exists_full->Ask_0@ == command
                &&& all->Ask_0@ == command
                &&& active->Ask_0@ == command
                &&& wait->Ask_0@ == command
            }
        }),
        env.session is Some ==> (reply matches Some(Reply::Failed) ==> {
            &&& exists == Inquiry::<bool>::Done(Err(BackendError::CommandFailed))
            &&& exists_full == Inquiry::<bool>::Done(Err(BackendError::CommandFailed))
            &&& all == Inquiry::<Vec<String>>::Done(Err(BackendError::CommandFailed))
            &&& active == Inquiry::<Vec<String>>::Done(Err(BackendError::CommandFailed))
            &&& wait == Wait::Done(Err(BackendError::CommandFailed))
        }),
        env.session is None ==> {
            &&& exists == Inquiry::<bool>::Done(Ok(false))
            &&& exists_full == Inquiry::<bool>::Done(Ok(false))
            &&& all matches Inquiry::Done(Ok(list)) && list@.len() == 0
            &&& active matches Inquiry::Done(Ok(list)) && list@.len() == 0
            &&& wait == Wait::Done(Ok(()))
        },
{
    lemma_argv(seq![], seq![]);
    if env.session is None {
        laws::law_no_windows_outside_session(*env, reply, windows.deep_view());
        assert(all->Done_0->Ok_0.deep_view().len() == all->Done_0->Ok_0@.len());
        assert(active->Done_0->Ok_0.deep_view().len() == active->Done_0->Ok_0@.len());
    }
}

/// Inside a session the answers follow from the listed tabs: a window exists if its full
/// name is listed; all windows are the listed names, each once; the active ones are those
/// of the given that are listed; the wait goes on, in rounds of 100 ms, as long as one of
/// the given is listed.
pub proof fn law_window_answers_follow_the_listing(
    b: &ZellijBackend,
    env: &Environment,
    prefix: &str,
    name: &str,
    windows: &[String],
    output: String,
    n: Seq<char>,
    exists: Inquiry<bool>,
    exists_full: Inquiry<bool>,
    all: Inquiry<Vec<String>>,
    active: Inquiry<Vec<String>>,
    wait: Wait,
)
    requires
        env.session is Some,
        call_ensures(
            ZellijBackend::window_exists,
            (b, env, prefix, name, Some(&Reply::Output(output))),
            exists,
        ),
        call_ensures(
            ZellijBackend::window_exists_by_full_name,
            (b, env, name, Some(&Reply::Output(output))),
            exists_full,
        ),
        call_ensures(
            ZellijBackend::get_all_window_names,
            (b, env, Some(&Reply::Output(output))),
            all,
        ),
        call_ensures(
            ZellijBackend::filter_active_windows,
            (b, env, windows, Some(&Reply::Output(output))),
            active,
        ),
        call_ensures(
            ZellijBackend::wait_until_windows_closed,
            (b, env, windows, Some(&Reply::Output(output))),
            wait,
        ),
    ensures
        ({
            let tabs = zellij::tab_names(output@);
            &&& exists == Inquiry::<bool>::Done(Ok(tabs.contains(prefix@ + name@)))
            &&& exists_full == Inquiry::<bool>::Done(Ok(tabs.contains(name@)))
            &&& all matches Inquiry::Done(Ok(list)) && list.deep_view() == zellij::distinct(tabs)
                && list.deep_view().no_duplicates() && list.deep_view().contains(n)
                == tabs.contains(n)
            &&& active matches Inquiry::Done(Ok(list)) && list.deep_view()
                == zellij::active_windows(tabs, windows.deep_view()) && list.deep_view().contains(n)
                == (windows.deep_view().contains(n) && tabs.contains(n))
            &&& if exists|i: int|
                0 <= i < windows@.len() && tabs.contains((#[trigger] windows@[i])@) {
                wait == Wait::Sleep { millis: 100 }
            } else {
                wait == Wait::Done(Ok(()))
            }
        }),
{
    let tabs = zellij::tab_names(output@);
    laws::law_all_windows_exist(tabs, n);
    laws::law_active_windows_exist(tabs, windows.deep_view(), n);
    assert(windows.deep_view().len() == windows@.len());
    assert forall|i: int| 0 <= i < windows@.len() implies windows.deep_view()[i] == (
    #[trigger] windows@[i])@ by {}
    if exists|i: int| 0 <= i < windows@.len() && tabs.contains((#[trigger] windows@[i])@) {
        let i = choose|i: int| 0 <= i < windows@.len() && tabs.contains(#[trigger] windows@[i]@);
        assert(tabs.contains(windows.deep_view()[i]));
    } else {
        assert forall|i: int| 0 <= i < windows.deep_view().len() implies !tabs.contains(
            #[trigger] windows.deep_view()[i],
        ) by {
            assert(!tabs.contains(windows@[i]@));
        }
    }
}

/// The windows are listed in the order in which they first occur: more tabs only add to the
/// end, and tabs without repetitions are listed as they are.
pub proof fn law_windows_are_listed_in_order(tabs: Seq<Seq<char>>, more: Seq<Seq<char>>)
    ensures
        zellij::distinct(tabs).is_prefix_of(zellij::distinct(tabs + more)),
        tabs.no_duplicates() ==> zellij::distinct(tabs) == tabs,
    decreases tabs.len() + more.len(),
{
    if more.len() > 0 {
        law_windows_are_listed_in_order(tabs, more.drop_last());
        assert((tabs + more).drop_last() =~= tabs + more.drop_last());
    } else {
        assert(tabs + more =~= tabs);
        if tabs.len() > 0 && tabs.no_duplicates() {
            let front = tabs.drop_last();
            law_windows_are_listed_in_order(front, more);
            if front.contains(tabs.last()) {
                let i = choose|i: int| 0 <= i < front.len() && front[i] == tabs.last();
                assert(tabs[i] == tabs[tabs.len() - 1]);
            }
            assert(front.push(tabs.last()) =~= tabs);
        }
    }
}

/// Active windows are picked one by one: each of the given is kept or dropped by itself, in
/// its place, as often as it is given.
pub proof fn law_active_windows_are_picked_one_by_one(
    tabs: Seq<Seq<char>>,
    a: Seq<Seq<char>>,
    b: Seq<Seq<char>>,
    w: Seq<char>,
)
    ensures
        zellij::active_windows(tabs, a + b) == zellij::active_windows(tabs, a)
            + zellij::active_windows(tabs, b),
        zellij::active_windows(tabs, seq![w]) == if tabs.contains(w) {
            seq![w]
        } else {
            seq![]
        },
        zellij::active_windows(tabs, seq![]) == Seq::<Seq<char>>::empty(),
{
    let p = |w: Seq<char>| tabs.contains(w);
    let none: Seq<Seq<char>> = seq![];
    Seq::filter_distributes_over_add(a, b, p);
    reveal(Seq::filter);
    assert(seq![w].drop_last() =~= none);
    assert(none.filter(p) =~= none);
    assert(none.push(w) =~= seq![w]);
}

/// No window order is known, so none is the last.
pub proof fn law_no_last_window(
    b: &ZellijBackend,
    prefix: &str,
    handle: &str,
    r: Option<String>,
)
    requires
        call_ensures(ZellijBackend::find_last_window_with_prefix, (b, prefix), r) || call_ensures(
            ZellijBackend::find_last_window_with_base_handle,
            (b, prefix, handle),
            r,
        ),
    ensures
        r is None,
{
}

// === Environment ===

/// What the environment says is taken as it is: the session, its name, the pane, the tab
/// and the shell, with fixed values where it says nothing.
pub proof fn law_environment(
    b: &ZellijBackend,
    env: &Environment,
    is_inside: bool,
    session: Option<String>,
    from_env: Option<String>,
    current: Option<String>,
    active: Option<String>,
    instance: String,
    window: Option<String>,
    shell: String,
)
    requires
        call_ensures(ZellijBackend::is_inside_session, (env,), is_inside),
        call_ensures(ZellijBackend::session_name, (env,), session),
        call_ensures(ZellijBackend::pane_id_from_env, (env,), from_env),
        call_ensures(ZellijBackend::current_pane_id, (b, env), current),
        call_ensures(ZellijBackend::active_pane_id, (b, env), active),
        call_ensures(ZellijBackend::instance_id, (b, env), instance),
        call_ensures(ZellijBackend::current_window_name, (b, env), window),
        call_ensures(ZellijBackend::get_default_shell, (b, env), shell),
    ensures
        is_inside <==> env.session is Some,
        session.deep_view() == env.session_name.deep_view(),
        from_env is Some <==> env.pane_id is Some,
        env.pane_id matches Some(id) ==> from_env->0@ == "terminal_"@ + id@,
        current.deep_view() == from_env.deep_view(),
        active.deep_view() == current.deep_view(),
        env.session_name matches Some(name) ==> instance@ == name@,
        env.session_name is None ==> instance@ == "default"@,
        window.deep_view() == env.tab_name.deep_view(),
        env.shell matches Some(path) ==> shell@ == path@,
        env.shell is None ==> shell@ == "/bin/sh"@,
{
    assert(from_env.deep_view() is Some <==> from_env is Some);
    assert(env.pane_id.deep_view() is Some <==> env.pane_id is Some);
}

/// Inside a session Zellij runs; elsewhere the exit status of a harmless command tells, and
/// an error if that could not be run.
pub proof fn law_is_running(
    b: &ZellijBackend,
    env: &Environment,
    reply: Option<&Reply<bool>>,
    r: Inquiry<bool>,
)
    requires
        call_ensures(ZellijBackend::is_running, (b, env, reply), r),
    ensures
        env.session is Some ==> r == Inquiry::<bool>::Done(Ok(true)),
        r is Ask <==> env.session is None && reply is None,
        r matches Inquiry::Ask(c) ==> c@ == seq![
            "zellij"@,
            "action"@,
            "dump-screen"@,
            "/dev/null"@,
        ],
        env.session is None ==> (reply matches Some(Reply::Output(status)) ==> r == Inquiry::<
            bool,
        >::Done(Ok(*status))),
        env.session is None ==> (reply matches Some(Reply::Failed) ==> r == Inquiry::<bool>::Done(
            Err(BackendError::CommandFailed),
        )),
{
    lemma_argv("/dev/null"@, seq![]);
}

/// The backend goes by the name of the program, and a path error has a message of its own.
pub proof fn law_names_and_messages(
    b: &ZellijBackend,
    name: &'static str,
    error: &BackendError,
    message: Option<&'static str>,
)
    requires
        call_ensures(ZellijBackend::name, (b,), name),
        call_ensures(BackendError::message, (error,), message),
    ensures
        name@ == "zellij"@,
        message is Some <==> *error is NonUtf8Path,
        message matches Some(m) ==> m@ == "Path contains non-UTF8 characters"@,
{
}

// === Output of Zellij ===

/// Tab names are read line by line: each is its line without the white space around it. The
/// last line may lack its ending.
pub proof fn law_tab_names_line_by_line(
    a: Seq<char>,
    name: Seq<char>,
    b: Seq<char>,
    rest: Seq<char>,
)
    requires
        text::is_gap(a),
        text::is_gap(b),
        text::is_trimmed(name),
        name.len() == 0 ==> b.len() == 0,
        !(a + name + b).contains('\n'),
    ensures
        zellij::tab_names(a + name + b + seq!['\n'] + rest) == seq![name] + zellij::tab_names(rest),
        (a + name + b).len() > 0 ==> zellij::tab_names(a + name + b) == seq![name],
        zellij::tab_names(seq![]) == Seq::<Seq<char>>::empty(),
{
    let line = a + name + b;
    let f = |l: Seq<char>| text::trim(l);
    text::law_trim_removes_padding(a, name, b);
    text::law_lines_follow_line_endings(line, rest);
    text::lemma_lines_cons(line, rest);
    assert(text::trim(text::without_cr(line)) == name) by {
        if line.len() > 0 && line.last() == '\r' {
            if b.len() > 0 {
                let c = b.drop_last();
                assert(line.drop_last() =~= a + name + c);
                assert(text::is_gap(c));
                text::law_trim_removes_padding(a, name, c);
            } else if name.len() > 0 {
                assert(line.last() == name.last());
            } else {
                let c = a.drop_last();
                assert(line.drop_last() =~= c + name + b);
                assert(text::is_gap(c));
                text::law_trim_removes_padding(c, name, b);
            }
        }
    }
    assert(zellij::tab_names(line + seq!['\n'] + rest) =~= seq![name] + zellij::tab_names(rest));
    if line.len() > 0 {
        assert(zellij::tab_names(line) =~= seq![name]);
    }
    assert(zellij::tab_names(seq![]) =~= seq![]);
}

/// What is kept of a first line and of the rest.
proof fn lemma_filter_map_front(
    x: Seq<char>,
    s: Seq<Seq<char>>,
    f: spec_fn(Seq<char>) -> Option<ClientView>,
)
    ensures
        (seq![x] + s).filter_map(f) == match f(x) {
            Some(c) => seq![c],
            None => seq![],
        } + s.filter_map(f),
    decreases s.len(),
{
    reveal(Seq::filter_map);
    let all = seq![x] + s;
    let none: Seq<Seq<char>> = seq![];
    if s.len() == 0 {
        assert(all.drop_last() =~= none);
        assert(none.filter_map(f) =~= seq![]);
        assert(all.filter_map(f) =~= match f(x) {
            Some(c) => seq![c],
            None => seq![],
        } + s.filter_map(f));
    } else {
        lemma_filter_map_front(x, s.drop_last(), f);
        assert(all.drop_last() =~= seq![x] + s.drop_last());
        assert(all.filter_map(f) =~= match f(x) {
            Some(c) => seq![c],
            None => seq![],
        } + s.filter_map(f));
    }
}

/// Clients are read line by line behind the header, whatever that says.
proof fn lemma_clients_front(header: Seq<char>, line: Seq<char>, rest: Seq<char>)
    requires
        !header.contains('\n'),
        !line.contains('\n'),
    ensures
        zellij::clients(header + seq!['\n'] + line + seq!['\n'] + rest) == match zellij::client_of(
            line,
        ) {
            Some(c) => seq![c],
            None => seq![],
        } + zellij::clients(header + seq!['\n'] + rest),
{
    let f = |l: Seq<char>| zellij::client_of(l);
    let tail = line + seq!['\n'] + rest;
    text::lemma_lines_cons(header, tail);
    text::lemma_lines_cons(line, rest);
    text::lemma_lines_cons(header, rest);
    assert(header + seq!['\n'] + line + seq!['\n'] + rest =~= header + seq!['\n'] + tail);
    let h = text::without_cr(header);
    let l = text::without_cr(line);
    assert((seq![h] + text::lines(tail)).skip(1) =~= text::lines(tail));
    assert((seq![h] + text::lines(rest)).skip(1) =~= text::lines(rest));
    lemma_filter_map_front(l, text::lines(rest), f);
    text::lemma_words_without_cr(line);
}

/// A row of at least two words stands for one client: its pane is the second word, and its
/// command the words behind that with single blanks between them. It comes before the
/// clients of the rows below it. The header stands for none.
pub proof fn law_row_is_a_client(header: Seq<char>, row: Row, rest: Seq<char>)
    requires
        !header.contains('\n'),
        row.is_valid(),
    ensures
        zellij::clients(header + seq!['\n'] + row.line() + seq!['\n'] + rest) == seq![
            ClientView {
                pane_id: row.pane_id,
                running_command: text::join(row.command, seq![' ']),
            },
        ] + zellij::clients(header + seq!['\n'] + rest),
        zellij::clients(header + seq!['\n']) == Seq::<ClientView>::empty(),
        zellij::clients(header) == Seq::<ClientView>::empty(),
{
    let none: Seq<char> = seq![];
    lemma_clients_front(header, row.line(), rest);
    laws::law_row_is_read_back(row);
    reveal_strlit(" ");
    assert(" "@ =~= seq![' ']);
    text::lemma_lines_cons(header, none);
    text::law_lines_follow_line_endings(header, none);
    reveal(Seq::filter_map);
    let f = |l: Seq<char>| zellij::client_of(l);
    assert(header + seq!['\n'] + none =~= header + seq!['\n']);
    let one = seq![text::without_cr(header)] + Seq::<Seq<char>>::empty();
    assert(one.skip(1) =~= seq![]);
    assert(seq![header].skip(1) =~= seq![]);
    assert(Seq::<Seq<char>>::empty().filter_map(f) =~= seq![]);
    if header.len() == 0 {
        assert(header =~= none);
    }
}

/// A row of fewer than two words stands for no client.
pub proof fn law_short_row_is_no_client(
    header: Seq<char>,
    gaps: Seq<Seq<char>>,
    ws: Seq<Seq<char>>,
    rest: Seq<char>,
)
    requires
        !header.contains('\n'),
        ws.len() < 2,
        text::are_gaps(gaps, ws.len()),
        forall|i: int| 0 <= i < ws.len() ==> text::is_word(#[trigger] ws[i]),
        !text::spaced(gaps, ws).contains('\n'),
    ensures
        zellij::clients(header + seq!['\n'] + text::spaced(gaps, ws) + seq!['\n'] + rest)
            == zellij::clients(header + seq!['\n'] + rest),
{
    lemma_clients_front(header, text::spaced(gaps, ws), rest);
    text::law_words_ignore_spacing(gaps, ws);
    assert(Seq::<ClientView>::empty() + zellij::clients(header + seq!['\n'] + rest)
        =~= zellij::clients(header + seq!['\n'] + rest));
}

/// The last line of an output needs no ending: tabs and clients are the same without it.
pub proof fn law_output_needs_no_final_newline(s: Seq<char>)
    requires
        s.len() > 0,
        s.last() != '\n',
        s.last() != '\r',
    ensures
        zellij::tab_names(s.push('\n')) == zellij::tab_names(s),
        zellij::clients(s.push('\n')) == zellij::clients(s),
{
    text::law_final_line_ending_is_optional(s);
}

/// The lists that are handed out are those that the output holds, item by item.
pub proof fn law_output_is_handed_out(
    output: &str,
    names: Vec<String>,
    list: Vec<ClientInfo>,
    i: int,
)
    requires
        call_ensures(ZellijBackend::query_tab_names, (output,), names),
        call_ensures(ZellijBackend::list_clients, (output,), list),
    ensures
        names@.len() == zellij::tab_names(output@).len(),
        0 <= i < names@.len() ==> names@[i]@ == zellij::tab_names(output@)[i],
        list@.len() == zellij::clients(output@).len(),
        0 <= i < list@.len() ==> list@[i].pane_id@ == zellij::clients(output@)[i].pane_id
            && list@[i].running_command@ == zellij::clients(output@)[i].running_command,
{
    assert(names.deep_view().len() == names@.len());
    if 0 <= i < names@.len() {
        assert(names.deep_view()[i] == names@[i]@);
    }
    let views = list@.map_values(|c: ClientInfo| c@);
    assert(views.len() == list@.len());
    if 0 <= i < list@.len() {
        assert(views[i] == list@[i]@);
    }
}

// === State reconciliation ===

/// The first client in a pane is the first of the list that is in it.
proof fn lemma_client_in(list: Seq<ClientView>, pane: Seq<char>)
    ensures
        (forall|i: int| 0 <= i < list.len() ==> (#[trigger] list[i]).pane_id != pane)
            ==> zellij::client_in(list, pane) is None,
        forall|k: int|
            0 <= k < list.len() && (#[trigger] list[k]).pane_id == pane && (forall|j: int|
                0 <= j < k ==> (#[trigger] list[j]).pane_id != pane) ==> zellij::client_in(
                list,
                pane,
            ) == Some(list[k]),
    decreases list.len(),
{
    if list.len() > 0 {
        let front = list.drop_last();
        lemma_client_in(front, pane);
        if forall|i: int| 0 <= i < list.len() ==> (#[trigger] list[i]).pane_id != pane {
            assert forall|i: int| 0 <= i < front.len() implies (#[trigger] front[i]).pane_id
                != pane by {
                assert(list[i].pane_id != pane);
            }
            assert(list[list.len() - 1].pane_id != pane);
        }
        assert forall|k: int|
            0 <= k < list.len() && (#[trigger] list[k]).pane_id == pane && (forall|j: int|
                0 <= j < k ==> (#[trigger] list[j]).pane_id != pane) implies zellij::client_in(
            list,
            pane,
        ) == Some(list[k]) by {
            assert forall|j: int| 0 <= j < k implies (#[trigger] front[j]).pane_id != pane by {
                assert(list[j].pane_id != pane);
            }
            if k < front.len() {
                assert(front[k] == list[k]);
            } else {
                assert(zellij::client_in(front, pane) is None);
            }
        }
    }
}

/// The information holds this command, the session and window of the environment, and
/// nothing that Zellij does not tell.
pub open spec fn describes(
    info: Option<LivePaneInfo>,
    env: &Environment,
    command: Seq<char>,
) -> bool {
    &&& info matches Some(i)
    &&& i.current_command@ == command
    &&& i.session.deep_view() == env.session_name.deep_view()
    &&& i.window.deep_view() == env.tab_name.deep_view()
    &&& i.pid == 0
    &&& i.working_dir@.len() == 0
    &&& i.title is None
}

/// A pane is asked for with one command, whose failure is an error. It is described by the
/// first client that is in it, by the first word of what that runs; a pane without a client
/// is not described.
pub proof fn law_live_pane_of_clients(
    b: &ZellijBackend,
    env: &Environment,
    pane: &str,
    reply: Option<&Reply<String>>,
    k: int,
    r: Inquiry<Option<LivePaneInfo>>,
)
    requires
        call_ensures(ZellijBackend::get_live_pane_info, (b, env, pane, reply), r),
    ensures
        r is Ask <==> reply is None,
        r matches Inquiry::Ask(c) ==> c@ == seq!["zellij"@, "action"@, "list-clients"@],
        reply matches Some(Reply::Failed) ==> r == Inquiry::<Option<LivePaneInfo>>::Done(
            Err(BackendError::CommandFailed),
        ),
        reply matches Some(Reply::Output(output)) ==> {
            let list = zellij::clients(output@);
            &&& r matches Inquiry::Done(Ok(info))
            &&& (forall|i: int| 0 <= i < list.len() ==> (#[trigger] list[i]).pane_id != pane@)
                ==> info is None
            &&& 0 <= k < list.len() && list[k].pane_id == pane@ && (forall|j: int|
                0 <= j < k ==> (#[trigger] list[j]).pane_id != pane@) ==> describes(
                info,
                env,
                if text::words(list[k].running_command).len() > 0 {
                    text::words(list[k].running_command)[0]
                } else {
                    seq![]
                },
            )
        },
{
    lemma_argv(seq![], seq![]);
    if let Some(Reply::Output(output)) = reply {
        let list = zellij::clients(output@);
        lemma_client_in(list, pane@);
        if 0 <= k < list.len() && list[k].pane_id == pane@ && (forall|j: int|
            0 <= j < k ==> (#[trigger] list[j]).pane_id != pane@) {
            assert(zellij::client_in(list, pane@) == Some(list[k]));
            let info = r->Done_0->Ok_0;
            let view = info->0@;
            assert(info is Some);
            assert(view.title == info->0.title.deep_view());
        }
    }
}

/// For a table of clients, a header and a row for each, a pane is described by the first
/// row that names it: by the first word of the command in that row, or an empty text if it
/// has none. A pane that no row names is not described.
pub proof fn law_live_pane_of_table(
    b: &ZellijBackend,
    env: &Environment,
    pane: &str,
    output: String,
    header: Seq<char>,
    rows: Seq<Row>,
    k: int,
    r: Inquiry<Option<LivePaneInfo>>,
)
    requires
        call_ensures(
            ZellijBackend::get_live_pane_info,
            (b, env, pane, Some(&Reply::Output(output))),
            r,
        ),
        output@ == text::terminated(seq![header] + laws::row_lines(rows)),
        !header.contains('\n'),
        forall|i: int| 0 <= i < rows.len() ==> (#[trigger] rows[i]).is_valid(),
    ensures
        r matches Inquiry::Done(Ok(info)) && {
            &&& (forall|i: int| 0 <= i < rows.len() ==> (#[trigger] rows[i]).pane_id != pane@)
                ==> info is None
            &&& 0 <= k < rows.len() && rows[k].pane_id == pane@ && (forall|j: int|
                0 <= j < k ==> (#[trigger] rows[j]).pane_id != pane@) ==> describes(
                info,
                env,
                if rows[k].command.len() > 0 {
                    rows[k].command[0]
                } else {
                    seq![]
                },
            )
        },
{
    laws::law_clients_are_read_back(header, rows);
    let list = zellij::clients(output@);
    law_live_pane_of_clients(b, env, pane, Some(&Reply::Output(output)), k, r);
    assert forall|i: int| 0 <= i < rows.len() implies (#[trigger] list[i]).pane_id
        == rows[i].pane_id by {}
    if forall|i: int| 0 <= i < rows.len() ==> (#[trigger] rows[i]).pane_id != pane@ {
        assert forall|i: int| 0 <= i < list.len() implies (#[trigger] list[i]).pane_id
            != pane@ by {
            assert(rows[i].pane_id != pane@);
        }
    }
    if 0 <= k < rows.len() && rows[k].pane_id == pane@ && (forall|j: int|
        0 <= j < k ==> (#[trigger] rows[j]).pane_id != pane@) {
        assert forall|j: int| 0 <= j < k implies (#[trigger] list[j]).pane_id != pane@ by {
            assert(rows[j].pane_id != pane@);
        }
        assert(rows[k].is_valid());
        laws::law_current_command_is_first_word(rows[k]);
        assert(list[k] == rows[k].client());
    }
}

} // verus!

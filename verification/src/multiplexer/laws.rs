//! What holds of the backend as a whole.

use crate::multiplexer::types::{ClientView, Environment, Reply, SplitDirection};
use crate::multiplexer::zellij;
use crate::plan;
use crate::plan::{Progress, StepView};
use crate::shell;
use crate::text;
use vstd::prelude::*;

verus! {

// === Windows ===

/// The list of all windows holds exactly the windows that exist, each once.
pub proof fn law_all_windows_exist(tabs: Seq<Seq<char>>, name: Seq<char>)
    ensures
        zellij::distinct(tabs).contains(name) <==> tabs.contains(name),
        zellij::distinct(tabs).no_duplicates(),
{
    zellij::lemma_distinct(tabs);
}

/// The active windows are those of the given windows that exist.
pub proof fn law_active_windows_exist(
    tabs: Seq<Seq<char>>,
    windows: Seq<Seq<char>>,
    name: Seq<char>,
)
    ensures
        zellij::active_windows(tabs, windows).contains(name) <==> windows.contains(name)
            && tabs.contains(name),
{
    let p = |w: Seq<char>| tabs.contains(w);
    let active = windows.filter(p);
    broadcast use vstd::seq_lib::group_filter_ensures;

    if active.contains(name) {
        let i = choose|i: int| 0 <= i < active.len() && active[i] == name;
        assert(p(active[i]));
        lemma_filter_subset(windows, p, i);
    }
    if windows.contains(name) && tabs.contains(name) {
        let i = choose|i: int| 0 <= i < windows.len() && windows[i] == name;
        assert(p(windows[i]));
    }
}

/// What a filter keeps was there before.
proof fn lemma_filter_subset(s: Seq<Seq<char>>, p: spec_fn(Seq<char>) -> bool, i: int)
    requires
        0 <= i < s.filter(p).len(),
    ensures
        s.contains(s.filter(p)[i]),
    decreases s.len(),
{
    reveal(Seq::filter);
    if s.len() > 0 {
        let t = s.drop_last();
        if i < t.filter(p).len() {
            lemma_filter_subset(t, p, i);
            let j = choose|j: int| 0 <= j < t.len() && t[j] == t.filter(p)[i];
            assert(s[j] == s.filter(p)[i]);
        } else {
            assert(s[s.len() - 1] == s.filter(p)[i]);
        }
    }
}

/// The wait for windows to close ends exactly when none of them is active.
pub proof fn law_wait_ends_when_none_is_active(tabs: Seq<Seq<char>>, windows: Seq<Seq<char>>)
    ensures
        zellij::all_closed(tabs, windows) <==> zellij::active_windows(tabs, windows).len() == 0,
{
    let active = zellij::active_windows(tabs, windows);
    if active.len() > 0 {
        law_active_windows_exist(tabs, windows, active[0]);
        assert(active.contains(active[0]));
        let i = choose|i: int| 0 <= i < windows.len() && windows[i] == active[0];
        assert(tabs.contains(windows[i]));
    } else if !zellij::all_closed(tabs, windows) {
        let i = choose|i: int| 0 <= i < windows.len() && tabs.contains(#[trigger] windows[i]);
        law_active_windows_exist(tabs, windows, windows[i]);
        assert(windows.contains(windows[i]));
    }
}

/// Outside a session nothing has to be asked: no window exists, none is active, and there
/// is none to wait for.
pub proof fn law_no_windows_outside_session(
    env: Environment,
    reply: Option<&Reply<String>>,
    windows: Seq<Seq<char>>,
)
    requires
        !zellij::inside(env),
    ensures
        zellij::tabs_seen(env, reply) matches zellij::Tabs::Known(tabs) && {
            &&& tabs.len() == 0
            &&& zellij::distinct(tabs).len() == 0
            &&& zellij::active_windows(tabs, windows).len() == 0
            &&& zellij::all_closed(tabs, windows)
        },
{
    let none: Seq<Seq<char>> = seq![];
    law_wait_ends_when_none_is_active(none, windows);
}

// === Output of Zellij ===

/// A listing of tab names, one per line, gives back those names, whatever they are, as
/// long as they hold no newline and no white space at their ends.
pub proof fn law_tab_names_are_read_back(names: Seq<Seq<char>>)
    requires
        forall|i: int|
            0 <= i < names.len() ==> text::is_trimmed(#[trigger] names[i])
                && !names[i].contains('\n'),
    ensures
        zellij::tab_names(text::terminated(names)) == names,
{
    text::law_lines_of_terminated(names);
    let read = zellij::tab_names(text::terminated(names));
    assert forall|i: int| 0 <= i < names.len() implies read[i] == names[i] by {
        assert(text::is_trimmed(names[i]));
        text::lemma_trim_trimmed(names[i]);
    }
    assert(read =~= names);
}

/// A row in the table of clients: the words in it, and the white space around them.
pub struct Row {
    pub client_id: Seq<char>,
    pub pane_id: Seq<char>,
    pub command: Seq<Seq<char>>,
    pub gaps: Seq<Seq<char>>,
}

impl Row {
    /// The words of the row.
    pub open spec fn words(self) -> Seq<Seq<char>> {
        seq![self.client_id, self.pane_id] + self.command
    }

    /// The row as a line.
    pub open spec fn line(self) -> Seq<char> {
        text::spaced(self.gaps, self.words())
    }

    /// The words are words, the gaps are gaps, and the row is on one line.
    pub open spec fn is_valid(self) -> bool {
        &&& forall|i: int| 0 <= i < self.words().len() ==> text::is_word(#[trigger] self.words()[i])
        &&& text::are_gaps(self.gaps, self.words().len())
        &&& !self.line().contains('\n')
    }

    /// The client that the row describes.
    pub open spec fn client(self) -> ClientView {
        ClientView { pane_id: self.pane_id, running_command: text::join(self.command, " "@) }
    }
}

/// The lines of some rows.
pub open spec fn row_lines(rows: Seq<Row>) -> Seq<Seq<char>> {
    rows.map_values(|r: Row| r.line())
}

/// A line that is a row describes the client of that row, however wide the gaps are.
pub proof fn law_row_is_read_back(row: Row)
    requires
        row.is_valid(),
    ensures
        zellij::client_of(row.line()) == Some(row.client()),
        zellij::client_of(text::without_cr(row.line())) == Some(row.client()),
{
    text::law_words_ignore_spacing(row.gaps, row.words());
    text::lemma_words_without_cr(row.line());
    assert(row.words().skip(2) =~= row.command);
}

/// The table of clients, a header and one row per client, gives back the clients in their
/// order, however the columns are spaced.
pub proof fn law_clients_are_read_back(header: Seq<char>, rows: Seq<Row>)
    requires
        !header.contains('\n'),
        forall|i: int| 0 <= i < rows.len() ==> (#[trigger] rows[i]).is_valid(),
    ensures
        zellij::clients(text::terminated(seq![header] + row_lines(rows))) == rows.map_values(
            |r: Row| r.client(),
        ),
{
    let all = seq![header] + row_lines(rows);
    assert forall|i: int| 0 <= i < all.len() implies !(#[trigger] all[i]).contains('\n') by {
        if i > 0 {
            assert(rows[i - 1].is_valid());
            assert(all[i] == rows[i - 1].line());
        }
    }
    text::law_lines_of_terminated(all);
    let read = text::lines(text::terminated(all)).skip(1);
    assert(read.len() == rows.len());
    assert forall|i: int| 0 <= i < rows.len() implies zellij::client_of(#[trigger] read[i]) == Some(
        rows[i].client(),
    ) by {
        assert(rows[i].is_valid());
        law_row_is_read_back(rows[i]);
        assert(all[i + 1] == rows[i].line());
    }
    lemma_filter_map_all(read, rows);
}

/// Where every line describes a client, the clients come out one for one.
proof fn lemma_filter_map_all(lines: Seq<Seq<char>>, rows: Seq<Row>)
    requires
        lines.len() == rows.len(),
        forall|i: int|
            0 <= i < rows.len() ==> zellij::client_of(#[trigger] lines[i]) == Some(rows[i].client()),
    ensures
        lines.filter_map(|l: Seq<char>| zellij::client_of(l)) == rows.map_values(
            |r: Row| r.client(),
        ),
    decreases lines.len(),
{
    let f = |l: Seq<char>| zellij::client_of(l);
    let g = |r: Row| r.client();
    reveal(Seq::filter_map);
    if lines.len() > 0 {
        let t = lines.drop_last();
        let u = rows.drop_last();
        assert forall|i: int| 0 <= i < u.len() implies zellij::client_of(#[trigger] t[i]) == Some(
            u[i].client(),
        ) by {
            assert(t[i] == lines[i]);
        }
        lemma_filter_map_all(t, u);
        assert(zellij::client_of(lines[lines.len() - 1]) == Some(rows.last().client()));
        assert(u.map_values(g) + seq![rows.last().client()] =~= rows.map_values(g));
    } else {
        assert(rows.map_values(g) =~= seq![]);
    }
}

/// The current command of a client is the first word of the command that it runs.
pub proof fn law_current_command_is_first_word(row: Row)
    requires
        row.is_valid(),
    ensures
        zellij::first_word(row.client().running_command) == if row.command.len() > 0 {
            row.command[0]
        } else {
            seq![]
        },
{
    assert forall|i: int| 0 <= i < row.command.len() implies text::is_word(
        #[trigger] row.command[i],
    ) by {
        assert(row.words()[i + 2] == row.command[i]);
    }
    text::law_words_of_joined(row.command);
    reveal_strlit(" ");
    assert(" "@ =~= seq![' ']);
}

// === What is typed ===

/// What a command types into the focused pane.
pub open spec fn typed_by(command: Seq<Seq<char>>) -> Seq<char> {
    if command.len() == 4 && command == seq![
        "zellij"@,
        "action"@,
        "write-chars"@,
        command[3],
    ] {
        command[3]
    } else if command.len() == 4 && command == seq![
        "zellij"@,
        "action"@,
        "write"@,
        command[3],
    ] {
        seq![text::number(command[3]) as char]
    } else {
        seq![]
    }
}

/// What the steps of a plan type into the focused pane.
pub open spec fn typed(script: Seq<StepView>) -> Seq<char>
    decreases script.len(),
{
    if script.len() == 0 {
        seq![]
    } else {
        typed(script.drop_last()) + match script.last() {
            StepView::Run { command, on_failure } => typed_by(command),
            _ => seq![],
        }
    }
}

/// A text and the Enter key.
pub open spec fn entered(s: Seq<char>) -> Seq<char> {
    s.push('\r')
}

/// Lines, each with the Enter key behind it.
pub open spec fn all_entered(lines: Seq<Seq<char>>) -> Seq<char>
    decreases lines.len(),
{
    if lines.len() == 0 {
        seq![]
    } else {
        all_entered(lines.drop_last()) + entered(lines.last())
    }
}

/// What is typed by two lists of steps, one behind the other.
pub proof fn lemma_typed_concat(a: Seq<StepView>, b: Seq<StepView>)
    ensures
        typed(a + b) == typed(a) + typed(b),
    decreases b.len(),
{
    if b.len() == 0 {
        assert(a + b =~= a);
        assert(typed(a) + typed(b) =~= typed(a));
    } else {
        lemma_typed_concat(a, b.drop_last());
        assert((a + b).drop_last() =~= a + b.drop_last());
        assert(typed(a + b) =~= typed(a) + typed(b));
    }
}

/// What is typed by one step.
pub proof fn lemma_typed_step(step: StepView)
    ensures
        typed(seq![step]) == match step {
            StepView::Run { command, on_failure } => typed_by(command),
            _ => seq![],
        },
{
    assert(seq![step].drop_last() =~= Seq::<StepView>::empty());
    assert(typed(Seq::<StepView>::empty()) =~= seq![]);
    assert(typed(seq![step]) =~= match step {
        StepView::Run { command, on_failure } => typed_by(command),
        _ => seq![],
    });
}

proof fn lemma_typed_by(s: Seq<char>)
    ensures
        typed_by(zellij::write_chars(s)) == s,
        typed_by(zellij::write_byte(s)) == seq![text::number(s) as char],
        text::number("13"@) == 13,
        text::number("27"@) == 27,
        text::number("9"@) == 9,
{
    reveal_strlit("write-chars");
    reveal_strlit("write");
    reveal_strlit("13");
    reveal_strlit("27");
    reveal_strlit("9");
    assert(zellij::write_chars(s)[3] == s);
    assert(zellij::write_byte(s)[3] == s);
    assert(zellij::write_byte(s)[2] == "write"@);
    assert(zellij::write_chars(s)[2] == "write-chars"@);
    assert(zellij::write_chars(s) =~= seq!["zellij"@, "action"@, "write-chars"@, s]);
    assert(zellij::write_byte(s) =~= seq!["zellij"@, "action"@, "write"@, s]);
    reveal_with_fuel(text::number, 3);
}

/// Two steps that type a text and press Enter.
proof fn lemma_typed_line(first: StepView, second: StepView, s: Seq<char>)
    requires
        first matches StepView::Run { command, on_failure } && command == zellij::write_chars(s),
        second matches StepView::Run { command, on_failure } && command == zellij::press_enter(),
    ensures
        typed(seq![first, second]) == entered(s),
{
    lemma_typed_step(first);
    lemma_typed_step(second);
    lemma_typed_concat(seq![first], seq![second]);
    lemma_typed_by(s);
    lemma_typed_by("13"@);
    assert(seq![first] + seq![second] =~= seq![first, second]);
    assert(typed(seq![first, second]) =~= entered(s));
}

/// Sending keys types the command and Enter.
pub proof fn law_send_keys_types_the_command(command: Seq<char>)
    ensures
        typed(zellij::send_keys_steps(command)) == entered(command),
{
    let script = zellij::send_keys_steps(command);
    lemma_typed_line(script[0], script[1], command);
    assert(script =~= seq![script[0], script[1]]);
}

/// An agent gets the same keys with and without the pause behind a leading `!`.
pub proof fn law_agent_gets_the_whole_command(command: Seq<char>, needs_bang_delay: bool)
    ensures
        typed(zellij::agent_keys_steps(command, needs_bang_delay)) == entered(command),
{
    if needs_bang_delay && command.len() > 0 && command[0] == '!' {
        let bang = plan::must(zellij::write_chars("!"@));
        let pause = StepView::Sleep { millis: 50 };
        let rest = zellij::enter_line(command.skip(1));
        lemma_typed_step(bang);
        lemma_typed_step(pause);
        lemma_typed_by("!"@);
        lemma_typed_concat(seq![bang], seq![pause]);
        assert(seq![bang] + seq![pause] =~= seq![bang, pause]);
        lemma_typed_concat(seq![bang, pause], rest);
        lemma_typed_line(rest[0], rest[1], command.skip(1));
        assert(rest =~= seq![rest[0], rest[1]]);
        reveal_strlit("!");
        assert(typed(zellij::agent_keys_steps(command, needs_bang_delay)) =~= entered(command));
    } else {
        law_send_keys_types_the_command(command);
    }
}

/// Pasting types each line with Enter behind it.
pub proof fn law_paste_types_every_line(lines: Seq<Seq<char>>)
    ensures
        typed(zellij::paste_steps(lines)) == all_entered(lines),
    decreases lines.len(),
{
    if lines.len() > 0 {
        law_paste_types_every_line(lines.drop_last());
        let line = zellij::enter_line(lines.last());
        lemma_typed_concat(zellij::paste_steps(lines.drop_last()), line);
        lemma_typed_line(line[0], line[1], lines.last());
        assert(line =~= seq![line[0], line[1]]);
    }
}

/// A pane that is set up is told to change its directory and then to run the command, and
/// nothing else.
pub proof fn law_directory_is_entered_first(cwd: Seq<char>, command: Option<Seq<char>>)
    ensures
        typed(zellij::enter_directory(cwd, command)) == entered(zellij::cd_command(cwd))
            + match command {
            Some(c) => entered(c),
            None => seq![],
        },
{
    let cd = zellij::enter_line(zellij::cd_command(cwd));
    lemma_typed_line(cd[0], cd[1], zellij::cd_command(cwd));
    assert(cd =~= seq![cd[0], cd[1]]);
    match command {
        Some(c) => {
            let line = zellij::enter_line(c);
            lemma_typed_line(line[0], line[1], c);
            assert(line =~= seq![line[0], line[1]]);
            lemma_typed_concat(cd, line);
        },
        None => {
            assert(cd + Seq::<StepView>::empty() =~= cd);
            assert(entered(zellij::cd_command(cwd)) + Seq::<char>::empty() =~= entered(
                zellij::cd_command(cwd),
            ));
        },
    }
}

/// A named key sends its control character; any other key types itself.
pub proof fn law_key_types_its_character(key: Seq<char>)
    ensures
        key == "Enter"@ ==> typed_by(zellij::key_command(key)) == seq!['\r'],
        key == "Escape"@ ==> typed_by(zellij::key_command(key)) == seq!['\u{1b}'],
        key == "Tab"@ ==> typed_by(zellij::key_command(key)) == seq!['\t'],
        key != "Enter"@ && key != "Escape"@ && key != "Tab"@ ==> typed_by(zellij::key_command(key))
            == key,
{
    reveal_strlit("Enter");
    reveal_strlit("Escape");
    reveal_strlit("Tab");
    lemma_typed_by("13"@);
    lemma_typed_by("27"@);
    lemma_typed_by("9"@);
    lemma_typed_by(key);
}

// === Focus and order ===

/// Creating a window goes back to the tab in which it began, as its last step, and does not
/// fail if only that fails.
pub proof fn law_create_window_goes_back(
    name: Seq<char>,
    cwd: Seq<char>,
    tab: Seq<char>,
    replies: Seq<bool>,
)
    requires
        replies.len() >= 2,
    ensures
        zellij::create_window_steps(name, cwd, Some(tab)).last() == plan::attempt(
            zellij::go_to_tab(tab),
        ),
        Progress::after(zellij::create_window_steps(name, cwd, Some(tab)), replies).is_complete(
            zellij::create_window_steps(name, cwd, Some(tab)),
        ) <==> replies[0],
{
    let script = zellij::create_window_steps(name, cwd, Some(tab));
    assert(script.len() == 2);
    assert(script[0].is_mandatory());
    assert(script[1] == plan::attempt(zellij::go_to_tab(tab)));
    assert(!script[1].is_mandatory());
    plan::law_plan_completes(script, replies);
    if replies[0] {
        assert(plan::passes(script, replies, 0));
        assert(plan::passes(script, replies, 1));
    } else {
        assert(!plan::passes(script, replies, 0));
    }
}

/// A tab that cannot be focused is not closed: the failed switch ends the plan before the
/// closing, with its own message.
pub proof fn law_unfocused_tab_is_not_closed(name: Seq<char>, replies: Seq<bool>)
    requires
        replies.len() > 0,
        !replies[0],
    ensures
        ({
            let script = zellij::kill_window_steps(name);
            let p = Progress::after(script, replies);
            &&& p.done == 0
            &&& p.failure == Some(Some("Failed to switch to tab for closing"@))
            &&& !p.is_pending(script)
        }),
{
    let script = zellij::kill_window_steps(name);
    plan::law_plan_stops_at_first_failure(script, replies, 0);
}

/// Nothing is typed when a pane cannot be split: the text would reach another pane.
pub proof fn law_failed_split_types_nothing(
    direction: SplitDirection,
    cwd: Seq<char>,
    command: Option<Seq<char>>,
    replies: Seq<bool>,
)
    requires
        replies.len() > 0,
        !replies[0],
    ensures
        ({
            let script = zellij::split_pane_steps(direction, cwd, command);
            let p = Progress::after(script, replies);
            &&& p.done == 0
            &&& p.failure == Some(Some("Failed to split pane"@))
            &&& !p.is_pending(script)
        }),
{
    let script = zellij::split_pane_steps(direction, cwd, command);
    plan::law_plan_stops_at_first_failure(script, replies, 0);
}

// === Shell scripts ===

/// The typed change of directory is the command `cd` with the directory as its one
/// argument, whatever characters the directory holds.
pub proof fn law_cd_takes_the_directory(cwd: Seq<char>)
    ensures
        shell::shell_words(zellij::cd_command(cwd)) == seq!["cd"@, cwd],
{
    reveal_strlit("cd ");
    reveal_strlit("cd");
    shell::law_literal_is_one_word("cd"@);
    shell::law_escaped_is_one_word(cwd);
    shell::law_words_side_by_side("cd"@, shell::escaped(cwd));
    assert(zellij::cd_command(cwd) =~= "cd"@ + seq![' '] + shell::escaped(cwd));
    assert(seq!["cd"@] + seq![cwd] =~= seq!["cd"@, cwd]);
}

/// A blank.
spec fn sp() -> Seq<char> {
    seq![' ']
}

/// Four literal words with blanks between them.
proof fn lemma_four_words(a: Seq<char>, b: Seq<char>, c: Seq<char>, d: Seq<char>)
    requires
        shell::is_literal(a) && a.len() > 0,
        shell::is_literal(b) && b.len() > 0,
        shell::is_literal(c) && c.len() > 0,
        shell::is_literal(d) && d.len() > 0,
    ensures
        shell::shell_words(a + sp() + b + sp() + c + sp() + d) == seq![a, b, c, d],
        shell::is_closed(a + sp() + b + sp() + c + sp() + d),
{
    let ws = seq![a, b, c, d];
    shell::law_words_of_literals(ws);
    reveal_with_fuel(text::join, 5);
    assert(ws.drop_last() =~= seq![a, b, c]);
    assert(ws.drop_last().drop_last() =~= seq![a, b]);
    assert(ws.drop_last().drop_last().drop_last() =~= seq![a]);
    assert(text::join(ws, seq![' ']) =~= a + sp() + b + sp() + c + sp() + d);
}

/// Closed texts `a` and `b` with known words, side by side.
proof fn lemma_beside(a: Seq<char>, b: Seq<char>, ws: Seq<Seq<char>>, vs: Seq<Seq<char>>)
    requires
        shell::is_closed(a),
        shell::is_closed(b),
        shell::shell_words(a) == ws,
        shell::shell_words(b) == vs,
    ensures
        shell::is_closed(a + sp() + b),
        shell::shell_words(a + sp() + b) == ws + vs,
{
    shell::law_words_side_by_side(a, b);
}

/// The words of the script that closes a tab after a delay: the tab name is one argument,
/// whatever characters it holds.
pub proof fn law_close_script_names_the_tab(name: Seq<char>, delay_secs: nat)
    ensures
        shell::shell_words(zellij::close_script(name, delay_secs)) == seq![
            "sleep"@,
            text::decimal(delay_secs),
            "&&"@,
            "zellij"@,
            "action"@,
            "go-to-tab-name"@,
            name,
            "&&"@,
            "zellij"@,
            "action"@,
            "close-tab"@,
        ],
{
    let n = text::decimal(delay_secs);
    let q = shell::escaped(name);
    lemma_script_words();
    text::law_decimal_reads_back(delay_secs);
    shell::law_literal_is_one_word("sleep"@);
    shell::law_literal_is_one_word(n);
    shell::law_escaped_is_one_word(name);
    let go = "&&"@ + sp() + "zellij"@ + sp() + "action"@ + sp() + "go-to-tab-name"@;
    let close = "&&"@ + sp() + "zellij"@ + sp() + "action"@ + sp() + "close-tab"@;
    lemma_four_words("&&"@, "zellij"@, "action"@, "go-to-tab-name"@);
    lemma_four_words("&&"@, "zellij"@, "action"@, "close-tab"@);
    let w1 = seq!["sleep"@] + seq![n];
    let go_words = seq!["&&"@, "zellij"@, "action"@, "go-to-tab-name"@];
    let close_words = seq!["&&"@, "zellij"@, "action"@, "close-tab"@];
    let s1 = "sleep"@ + sp() + n;
    let s2 = s1 + sp() + go;
    let s3 = s2 + sp() + q;
    let s4 = s3 + sp() + close;
    lemma_beside("sleep"@, n, seq!["sleep"@], seq![n]);
    lemma_beside(s1, go, w1, go_words);
    lemma_beside(s2, q, w1 + go_words, seq![name]);
    lemma_beside(s3, close, w1 + go_words + seq![name], close_words);
    assert("sleep "@ =~= "sleep"@ + sp()) by {
        reveal_strlit("sleep ");
        reveal_strlit("sleep");
    }
    assert(" && zellij action go-to-tab-name "@ =~= sp() + go + sp()) by {
        reveal_strlit(" && zellij action go-to-tab-name ");
        reveal_strlit("&&");
        reveal_strlit("zellij");
        reveal_strlit("action");
        reveal_strlit("go-to-tab-name");
    }
    assert(" && zellij action close-tab"@ =~= sp() + close) by {
        reveal_strlit(" && zellij action close-tab");
        reveal_strlit("&&");
        reveal_strlit("zellij");
        reveal_strlit("action");
        reveal_strlit("close-tab");
    }
    assert(zellij::close_script(name, delay_secs) =~= s4);
    assert(w1 + go_words + seq![name] + close_words =~= seq![
        "sleep"@,
        n,
        "&&"@,
        "zellij"@,
        "action"@,
        "go-to-tab-name"@,
        name,
        "&&"@,
        "zellij"@,
        "action"@,
        "close-tab"@,
    ]);
}

/// The fixed words of the scripts need no quoting.
proof fn lemma_script_words()
    ensures
        shell::is_literal("sleep"@) && "sleep"@.len() > 0,
        shell::is_literal("&&"@) && "&&"@.len() > 0,
        shell::is_literal("zellij"@) && "zellij"@.len() > 0,
        shell::is_literal("action"@) && "action"@.len() > 0,
        shell::is_literal("go-to-tab-name"@) && "go-to-tab-name"@.len() > 0,
        shell::is_literal("close-tab"@) && "close-tab"@.len() > 0,
        shell::is_literal(">/dev/null"@) && ">/dev/null"@.len() > 0,
        shell::is_literal("2>&1;"@) && "2>&1;"@.len() > 0,
        shell::is_literal("trap"@) && "trap"@.len() > 0,
        shell::is_literal("HUP;"@) && "HUP;"@.len() > 0,
{
    reveal_strlit("sleep");
    reveal_strlit("&&");
    reveal_strlit("zellij");
    reveal_strlit("action");
    reveal_strlit("go-to-tab-name");
    reveal_strlit("close-tab");
    reveal_strlit(">/dev/null");
    reveal_strlit("2>&1;");
    reveal_strlit("trap");
    reveal_strlit("HUP;");
}

/// The words of the part of a script that focuses a tab.
pub open spec fn go_to_tab_words(name: Seq<char>) -> Seq<Seq<char>> {
    seq!["zellij"@, "action"@, "go-to-tab-name"@, name, ">/dev/null"@, "2>&1;"@]
}

/// The words of the script that closes one tab and returns to another.
pub open spec fn close_and_return_words(
    source: Seq<char>,
    target: Option<Seq<char>>,
    delay_secs: Seq<char>,
) -> Seq<Seq<char>> {
    seq!["trap"@, ""@, "HUP;"@, "sleep"@, delay_secs + ";"@] + match target {
        Some(t) => go_to_tab_words(t),
        None => seq![],
    } + go_to_tab_words(source) + seq![
        "zellij"@,
        "action"@,
        "close-tab"@,
        ">/dev/null"@,
        "2>&1;"@,
    ]
}

/// The part that focuses a tab, behind closed text.
proof fn lemma_go_to_tab_behind(a: Seq<char>, ws: Seq<Seq<char>>, name: Seq<char>)
    requires
        shell::is_closed(a),
        shell::shell_words(a) == ws,
    ensures
        shell::is_closed(a + zellij::go_to_tab_script(name)),
        shell::shell_words(a + zellij::go_to_tab_script(name)) == ws + go_to_tab_words(name),
{
    lemma_script_words();
    let q = shell::escaped(name);
    shell::law_escaped_is_one_word(name);
    shell::law_literal_is_one_word("zellij"@);
    shell::law_literal_is_one_word("action"@);
    shell::law_literal_is_one_word("go-to-tab-name"@);
    shell::law_literal_is_one_word(">/dev/null"@);
    shell::law_literal_is_one_word("2>&1;"@);
    let s1 = "zellij"@ + sp() + "action"@;
    let s2 = s1 + sp() + "go-to-tab-name"@;
    let s3 = s2 + sp() + q;
    let s4 = s3 + sp() + ">/dev/null"@;
    let s5 = s4 + sp() + "2>&1;"@;
    let w1 = seq!["zellij"@] + seq!["action"@];
    let w2 = w1 + seq!["go-to-tab-name"@];
    let w3 = w2 + seq![name];
    let w4 = w3 + seq![">/dev/null"@];
    lemma_beside("zellij"@, "action"@, seq!["zellij"@], seq!["action"@]);
    lemma_beside(s1, "go-to-tab-name"@, w1, seq!["go-to-tab-name"@]);
    lemma_beside(s2, q, w2, seq![name]);
    lemma_beside(s3, ">/dev/null"@, w3, seq![">/dev/null"@]);
    lemma_beside(s4, "2>&1;"@, w4, seq!["2>&1;"@]);
    let w5 = w4 + seq!["2>&1;"@];
    assert(w5 =~= go_to_tab_words(name));
    lemma_beside(a, s5, ws, w5);
    assert(" zellij action go-to-tab-name "@ =~= sp() + s2 + sp()) by {
        reveal_strlit(" zellij action go-to-tab-name ");
        reveal_strlit("zellij");
        reveal_strlit("action");
        reveal_strlit("go-to-tab-name");
    }
    assert(" >/dev/null 2>&1;"@ =~= sp() + ">/dev/null"@ + sp() + "2>&1;"@) by {
        reveal_strlit(" >/dev/null 2>&1;");
        reveal_strlit(">/dev/null");
        reveal_strlit("2>&1;");
    }
    assert(a + zellij::go_to_tab_script(name) =~= a + sp() + s5);
}

/// The words of the script that closes one tab and returns to another: the tab names are
/// one argument each, whatever characters they hold, and no quote is left open for what
/// follows.
pub proof fn law_close_and_return_names_the_tabs(
    source: Seq<char>,
    target: Option<Seq<char>>,
    delay_secs: Seq<char>,
)
    requires
        shell::is_literal(delay_secs),
    ensures
        shell::shell_words(zellij::close_and_return_script(source, target, delay_secs))
            == close_and_return_words(source, target, delay_secs),
        shell::is_closed(zellij::close_and_return_script(source, target, delay_secs)),
{
    lemma_script_words();
    reveal_strlit("");
    reveal_strlit(";");
    let none: Seq<char> = seq![];
    let delay = delay_secs + ";"@;
    assert(""@ =~= none);
    shell::law_literal_is_one_word("trap"@);
    shell::law_escaped_is_one_word(none);
    shell::law_literal_is_one_word("HUP;"@);
    shell::law_literal_is_one_word("sleep"@);
    shell::law_literal_is_one_word(delay);
    let q = shell::escaped(none);
    let s1 = "trap"@ + sp() + q;
    let s2 = s1 + sp() + "HUP;"@;
    let s3 = s2 + sp() + "sleep"@;
    let s4 = s3 + sp() + delay;
    let w1 = seq!["trap"@] + seq![none];
    let w2 = w1 + seq!["HUP;"@];
    let w3 = w2 + seq!["sleep"@];
    let w4 = w3 + seq![delay];
    lemma_beside("trap"@, q, seq!["trap"@], seq![none]);
    lemma_beside(s1, "HUP;"@, w1, seq!["HUP;"@]);
    lemma_beside(s2, "sleep"@, w2, seq!["sleep"@]);
    lemma_beside(s3, delay, w3, seq![delay]);
    assert("trap '' HUP; sleep "@ =~= s3 + sp()) by {
        reveal_strlit("trap '' HUP; sleep ");
        reveal_strlit("trap");
        reveal_strlit("HUP;");
        reveal_strlit("sleep");
        assert(q =~= seq!['\'', '\'']);
    }
    let (s5, w5) = match target {
        Some(t) => (s4 + zellij::go_to_tab_script(t), w4 + go_to_tab_words(t)),
        None => (s4, w4),
    };
    if let Some(t) = target {
        lemma_go_to_tab_behind(s4, w4, t);
    }
    lemma_go_to_tab_behind(s5, w5, source);
    let s6 = s5 + zellij::go_to_tab_script(source);
    let w6 = w5 + go_to_tab_words(source);
    let close = "zellij"@ + sp() + "action"@ + sp() + "close-tab"@ + sp() + ">/dev/null"@;
    let close_words = seq!["zellij"@, "action"@, "close-tab"@, ">/dev/null"@];
    lemma_four_words("zellij"@, "action"@, "close-tab"@, ">/dev/null"@);
    shell::law_literal_is_one_word("2>&1;"@);
    lemma_beside(s6, close, w6, close_words);
    lemma_beside(s6 + sp() + close, "2>&1;"@, w6 + close_words, seq!["2>&1;"@]);
    let s7 = s6 + sp() + close + sp() + "2>&1;"@;
    assert(" zellij action close-tab >/dev/null 2>&1;"@ =~= sp() + close + sp() + "2>&1;"@) by {
        reveal_strlit(" zellij action close-tab >/dev/null 2>&1;");
        reveal_strlit("zellij");
        reveal_strlit("action");
        reveal_strlit("close-tab");
        reveal_strlit(">/dev/null");
        reveal_strlit("2>&1;");
    }
    assert(zellij::close_and_return_script(source, target, delay_secs) =~= s7);
    assert(w6 + close_words + seq!["2>&1;"@] =~= close_and_return_words(
        source,
        target,
        delay_secs,
    ));
}

/// The caller's script is read behind the closing of the tab as it is read alone.
pub proof fn law_cleanup_runs_as_given(
    source: Seq<char>,
    target: Option<Seq<char>>,
    cleanup: Seq<char>,
    delay_secs: Seq<char>,
)
    requires
        shell::is_literal(delay_secs),
    ensures
        shell::shell_words(
            zellij::cleanup_and_close_script(source, target, cleanup, delay_secs),
        ) == close_and_return_words(source, target, delay_secs) + shell::shell_words(cleanup),
{
    law_close_and_return_names_the_tabs(source, target, delay_secs);
    let script = zellij::close_and_return_script(source, target, delay_secs);
    reveal_strlit(" ");
    if cleanup.len() > 0 {
        shell::law_words_side_by_side(script, cleanup);
        assert(zellij::cleanup_and_close_script(source, target, cleanup, delay_secs) =~= script
            + seq![' '] + cleanup);
    } else {
        assert(script + Seq::<char>::empty() =~= script);
        assert(shell::shell_words(cleanup) =~= seq![]);
    }
}

} // verus!

//! Decision and rendering logic of the tab-centric (Zellij) backend.
//!
//! The backend addresses panes as `terminal_<N>`; every query result that the
//! multiplexer prints is handed to these functions as plain values.
use vstd::prelude::*;
use vstd::string::*;
use crate::agents::{AgentState, LivePaneInfo};
use crate::shell::{escape_seq, shell_escape};
use crate::text::{
    views, basename, basename_of, contains, decimal, eq_str, first_index, first_word, first_word_of,
    has_prefix, has_sub, lemma_first_index_at, lemma_first_index_none, lines, parse_u32,
    parse_u32_spec, push_decimal, split_lines, starts_with, name_in,
};

verus! {

/// Zellij multiplexer backend.
pub struct ZellijBackend {
    _private: (),
}

impl ZellijBackend {
    pub fn new() -> (r: ZellijBackend) {
        ZellijBackend { _private: () }
    }
}

/// A pane as `list-panes --json --tab --command` reports it.
pub struct PaneInfo {
    pub id: u32,
    pub is_plugin: bool,
    pub is_focused: bool,
    pub terminal_command: Option<String>,
    /// Running command (more reliable than `terminal_command`).
    pub pane_command: Option<String>,
    /// The pane's current working directory.
    pub pane_cwd: Option<String>,
    /// Stable id of the tab holding the pane.
    pub tab_id: Option<u32>,
    pub tab_name: String,
    pub title: String,
}

/// A tab as `list-tabs --json` reports it.
pub struct TabInfo {
    pub tab_id: u32,
    pub position: u32,
    pub name: String,
    pub active: bool,
}

impl TabInfo {
    /// Stable tab id.
    pub fn tab_id(&self) -> (r: u32)
        ensures
            r == self.tab_id,
    {
        self.tab_id
    }
}

/// The prefix of every terminal pane id.
pub open spec fn terminal_prefix() -> Seq<char> {
    seq!['t', 'e', 'r', 'm', 'i', 'n', 'a', 'l', '_']
}

/// The pane id string of terminal pane `n`.
pub open spec fn pane_key(n: nat) -> Seq<char> {
    terminal_prefix() + decimal(n)
}

/// The numeric id in a `terminal_<N>` string.
pub open spec fn parse_pane_id_spec(s: Seq<char>) -> Option<u32> {
    if has_prefix(s, terminal_prefix()) {
        parse_u32_spec(s.subrange(terminal_prefix().len() as int, s.len() as int))
    } else {
        None
    }
}

/// Parses a numeric pane id from a `terminal_<N>` string.
pub fn parse_pane_id(pane_id: &str) -> (r: Option<u32>)
    ensures
        r == parse_pane_id_spec(pane_id@),
{
    let prefix = "terminal_";
    proof {
        reveal_strlit("terminal_");
    }
    assert(prefix@ =~= terminal_prefix());
    if !starts_with(pane_id, prefix) {
        return None;
    }
    let n = pane_id.unicode_len();
    let rest = pane_id.substring_char(9, n);
    parse_u32(rest)
}

/// Renders the pane id string of terminal pane `n`.
pub fn pane_id_string(n: u32) -> (r: String)
    ensures
        r@ == pane_key(n as nat),
{
    proof {
        reveal_strlit("terminal_");
    }
    let mut out = String::from_str("terminal_");
    assert(out@ =~= terminal_prefix());
    push_decimal(&mut out, n as u64);
    out
}

/// A pane id rendered from a number parses back to that number.
pub proof fn lemma_pane_id_round_trip(n: u32)
    ensures
        parse_pane_id_spec(pane_key(n as nat)) == Some(n),
{
    let k = pane_key(n as nat);
    assert(k.subrange(0, 9) =~= terminal_prefix());
    assert(k.subrange(9, k.len() as int) =~= decimal(n as nat));
    crate::text::lemma_parse_decimal(n);
}

/// The base name of the command a pane runs: the last `/`-separated
/// segment of the first word, preferring `pane_command` when present.
pub open spec fn base_command_spec(
    pane_command: Option<Seq<char>>,
    terminal_command: Option<Seq<char>>,
) -> Seq<char> {
    let chosen = match pane_command {
        Some(c) => Some(c),
        None => terminal_command,
    };
    match chosen {
        Some(c) => basename(first_word(c)),
        None => Seq::empty(),
    }
}

pub open spec fn opt_view(o: Option<&str>) -> Option<Seq<char>> {
    match o {
        Some(s) => Some(s@),
        None => None,
    }
}

pub open spec fn opt_string_view(o: Option<String>) -> Option<Seq<char>> {
    match o {
        Some(s) => Some(s@),
        None => None,
    }
}

/// Extracts the base command name from a full command line.
pub fn extract_base_command(pane_command: Option<&str>, terminal_command: Option<&str>) -> (r:
    String)
    ensures
        r@ == base_command_spec(opt_view(pane_command), opt_view(terminal_command)),
{
    let chosen = match pane_command {
        Some(c) => Some(c),
        None => terminal_command,
    };
    match chosen {
        Some(c) => {
            let w = first_word_of(c);
            String::from_str(basename_of(w))
        },
        None => String::new(),
    }
}

/// The rest of the first line that starts with `name: `.
pub open spec fn tab_name_in(ls: Seq<Seq<char>>) -> Option<Seq<char>>
    decreases ls.len(),
{
    if ls.len() == 0 {
        None
    } else if has_prefix(ls[0], name_field()) {
        Some(ls[0].subrange(name_field().len() as int, ls[0].len() as int))
    } else {
        tab_name_in(ls.drop_first())
    }
}

pub open spec fn name_field() -> Seq<char> {
    seq!['n', 'a', 'm', 'e', ':', ' ']
}

/// Parses the focused tab name from `current-tab-info` output.
pub fn parse_tab_name_from_output(output: &str) -> (r: Option<String>)
    ensures
        opt_string_view(r) == tab_name_in(lines(output@)),
{
    let ls = split_lines(output);
    let field = "name: ";
    proof {
        reveal_strlit("name: ");
    }
    assert(field@ =~= name_field());
    assert(lines(output@).subrange(0, ls@.len() as int) =~= lines(output@));
    let mut i: usize = 0;
    while i < ls.len()
        invariant
            ls@.len() == lines(output@).len(),
            forall|k: int| 0 <= k < ls@.len() ==> (#[trigger] ls@[k])@ == lines(output@)[k],
            field@ == name_field(),
            i <= ls@.len(),
            tab_name_in(lines(output@)) == tab_name_in(lines(output@).subrange(
                i as int,
                ls@.len() as int,
            )),
        decreases ls.len() - i,
    {
        let ghost rest = lines(output@).subrange(i as int, ls@.len() as int);
        assert(rest[0] == ls@[i as int]@);
        let line = ls[i];
        if starts_with(line, field) {
            let n = line.unicode_len();
            return Some(String::from_str(line.substring_char(6, n)));
        }
        assert(rest.drop_first() =~= lines(output@).subrange(i + 1, ls@.len() as int));
        i = i + 1;
    }
    None
}

/// Captured screen content shows the dashboard itself.
pub open spec fn dashboard_ui_spec(content: Seq<char>) -> bool {
    has_sub(content, "Preview:"@) || (has_sub(content, "[i] input"@) && has_sub(
        content,
        "[d] diff"@,
    ))
}

impl ZellijBackend {
    /// Checks whether captured content contains the dashboard's own UI.
    pub fn contains_dashboard_ui(content: &str) -> (r: bool)
        ensures
            r == dashboard_ui_spec(content@),
    {
        contains(content, "Preview:") || (contains(content, "[i] input") && contains(
            content,
            "[d] diff",
        ))
    }
}

/// Why a backend operation could not be carried out.
pub enum MuxError {
    /// A pane id that is not of the form `terminal_<N>`.
    InvalidPaneId { pane_id: String },
    /// No focused terminal pane, in the named tab when one is known.
    NoFocusedPane { tab: Option<String> },
    /// The pane is not in the focused tab.
    PaneNotInTab { pane_id: String },
    /// No tab carries this name.
    WindowNotFound { name: String },
    /// The freshly created tab holds no terminal pane.
    NoPaneInTab { tab_id: u32 },
    /// No agent record names this pane.
    NotInStateStore { pane_id: String },
    /// The pane does not exist.
    PaneNotFound { pane_id: String },
}

/// A terminal pane in the focused tab (or in any tab when none is known) that has focus.
pub open spec fn focus_candidate(p: PaneInfo, tab: Option<Seq<char>>) -> bool {
    p.is_focused && !p.is_plugin && match tab {
        Some(t) => p.tab_name@ == t,
        None => true,
    }
}

/// Picks the focused terminal pane, restricted to the focused tab when it is known.
pub fn find_focused_pane(panes: &Vec<PaneInfo>, focused_tab: Option<&str>) -> (r: Result<
    u32,
    MuxError,
>)
    ensures
        match r {
            Ok(id) => exists|k: int|
                first_index(panes@, |p: PaneInfo| focus_candidate(p, opt_view(focused_tab)))
                    == Some(k) && id == panes@[k].id,
            Err(MuxError::NoFocusedPane { tab }) => opt_string_view(tab) == opt_view(focused_tab)
                && first_index(panes@, |p: PaneInfo| focus_candidate(p, opt_view(focused_tab)))
                is None,
            Err(_) => false,
        },
{
    let ghost pred = |p: PaneInfo| focus_candidate(p, opt_view(focused_tab));
    let mut i: usize = 0;
    while i < panes.len()
        invariant
            i <= panes@.len(),
            forall|j: int| 0 <= j < i ==> !pred(#[trigger] panes@[j]),
            pred == (|p: PaneInfo| focus_candidate(p, opt_view(focused_tab))),
        decreases panes.len() - i,
    {
        let p = &panes[i];
        let hit = p.is_focused && !p.is_plugin && match focused_tab {
            Some(t) => eq_str(p.tab_name.as_str(), t),
            None => true,
        };
        if hit {
            proof {
                lemma_first_index_at(panes@, pred, i as int);
            }
            return Ok(p.id);
        }
        i = i + 1;
    }
    proof {
        lemma_first_index_none(panes@, pred);
    }
    let tab = match focused_tab {
        Some(t) => Some(String::from_str(t)),
        None => None,
    };
    Err(MuxError::NoFocusedPane { tab })
}

/// Finds the first tab named `name`.
pub fn find_tab(tabs: &Vec<TabInfo>, name: &str) -> (r: Option<usize>)
    ensures
        match r {
            Some(k) => first_index(tabs@, |t: TabInfo| t.name@ == name@) == Some(k as int) && k
                < tabs@.len(),
            None => first_index(tabs@, |t: TabInfo| t.name@ == name@) is None,
        },
{
    let ghost pred = |t: TabInfo| t.name@ == name@;
    let mut i: usize = 0;
    while i < tabs.len()
        invariant
            i <= tabs@.len(),
            forall|j: int| 0 <= j < i ==> !pred(#[trigger] tabs@[j]),
            pred == (|t: TabInfo| t.name@ == name@),
        decreases tabs.len() - i,
    {
        if eq_str(tabs[i].name.as_str(), name) {
            proof {
                lemma_first_index_at(tabs@, pred, i as int);
            }
            return Some(i);
        }
        i = i + 1;
    }
    proof {
        lemma_first_index_none(tabs@, pred);
    }
    None
}

/// The id of the first tab named `name`, if any.
pub open spec fn tab_id_of(tabs: Seq<TabInfo>, name: Seq<char>) -> Option<u32> {
    match first_index(tabs, |t: TabInfo| t.name@ == name) {
        Some(k) => Some(tabs[k].tab_id),
        None => None,
    }
}

/// How a tab is addressed: by its stable id, or by name when no id is known.
pub enum TabTarget {
    ById(u32),
    ByName(String),
}

pub open spec fn tab_target_spec(r: TabTarget, tabs: Seq<TabInfo>, name: Seq<char>) -> bool {
    match r {
        TabTarget::ById(id) => tab_id_of(tabs, name) == Some(id),
        TabTarget::ByName(n) => tab_id_of(tabs, name) is None && n@ == name,
    }
}

impl ZellijBackend {
    /// The stable id of the tab named `name`.
    pub fn get_tab_id_by_name(tabs: &Vec<TabInfo>, name: &str) -> (r: Option<u32>)
        ensures
            r == tab_id_of(tabs@, name@),
    {
        match find_tab(tabs, name) {
            Some(k) => Some(tabs[k].tab_id()),
            None => None,
        }
    }

    /// How to address the tab `full_name` for closing or selecting it.
    pub fn tab_target(tabs: &Vec<TabInfo>, full_name: &str) -> (r: TabTarget)
        ensures
            tab_target_spec(r, tabs@, full_name@),
    {
        match Self::get_tab_id_by_name(tabs, full_name) {
            Some(id) => TabTarget::ById(id),
            None => TabTarget::ByName(String::from_str(full_name)),
        }
    }

    /// The full window name: prefix followed by the handle.
    pub fn full_window_name(prefix: &str, name: &str) -> (r: String)
        ensures
            r@ == prefix@ + name@,
    {
        let mut out = String::from_str(prefix);
        out.append(name);
        out
    }

    /// Shell command that focuses the tab `full_name` by its id.
    pub fn shell_select_window_cmd(tabs: &Vec<TabInfo>, full_name: &str) -> (r: Result<
        String,
        MuxError,
    >)
        ensures
            match r {
                Ok(s) => exists|id: u32|
                    tab_id_of(tabs@, full_name@) == Some(id) && s@ == "zellij action go-to-tab-by-id "@
                        + decimal(id as nat) + " >/dev/null 2>&1"@,
                Err(MuxError::WindowNotFound { name }) => tab_id_of(tabs@, full_name@) is None
                    && name@ == full_name@,
                Err(_) => false,
            },
    {
        match Self::get_tab_id_by_name(tabs, full_name) {
            Some(id) => {
                let mut out = String::from_str("zellij action go-to-tab-by-id ");
                push_decimal(&mut out, id as u64);
                out.append(" >/dev/null 2>&1");
                Ok(out)
            },
            None => Err(MuxError::WindowNotFound { name: String::from_str(full_name) }),
        }
    }

    /// Shell command that closes the tab `full_name` by its id.
    pub fn shell_kill_window_cmd(tabs: &Vec<TabInfo>, full_name: &str) -> (r: Result<
        String,
        MuxError,
    >)
        ensures
            match r {
                Ok(s) => exists|id: u32|
                    tab_id_of(tabs@, full_name@) == Some(id) && s@
                        == "zellij action close-tab-by-id "@ + decimal(id as nat)
                        + " >/dev/null 2>&1"@,
                Err(MuxError::WindowNotFound { name }) => tab_id_of(tabs@, full_name@) is None
                    && name@ == full_name@,
                Err(_) => false,
            },
    {
        match Self::get_tab_id_by_name(tabs, full_name) {
            Some(id) => {
                let mut out = String::from_str("zellij action close-tab-by-id ");
                push_decimal(&mut out, id as u64);
                out.append(" >/dev/null 2>&1");
                Ok(out)
            },
            None => Err(MuxError::WindowNotFound { name: String::from_str(full_name) }),
        }
    }
}

/// The windows of `ws` that are among `active`, in their order.
pub open spec fn active_windows(ws: Seq<Seq<char>>, active: Seq<Seq<char>>) -> Seq<Seq<char>> {
    ws.filter(|w: Seq<char>| active.contains(w))
}

/// Every window kept by `filter_active_windows` is live and was asked about.
pub proof fn lemma_active_windows_subset(ws: Seq<Seq<char>>, active: Seq<Seq<char>>)
    ensures
        forall|k: int|
            0 <= k < active_windows(ws, active).len() ==> active.contains(
                #[trigger] active_windows(ws, active)[k],
            ) && ws.contains(active_windows(ws, active)[k]),
{
    let pred = |w: Seq<char>| active.contains(w);
    assert forall|k: int| 0 <= k < active_windows(ws, active).len() implies active.contains(
        #[trigger] active_windows(ws, active)[k],
    ) && ws.contains(active_windows(ws, active)[k]) by {
        let w = ws.filter(pred)[k];
        ws.lemma_filter_pred(pred, k);
        assert(ws.filter(pred).contains(w));
        ws.lemma_filter_contains_rev(pred, w);
    }
}

impl ZellijBackend {
    /// Names of all tabs, in order.
    pub fn window_names(tabs: &Vec<TabInfo>) -> (r: Vec<String>)
        ensures
            r@.len() == tabs@.len(),
            forall|k: int| 0 <= k < tabs@.len() ==> (#[trigger] r@[k])@ == tabs@[k].name@,
    {
        let mut out: Vec<String> = Vec::new();
        let mut i: usize = 0;
        while i < tabs.len()
            invariant
                i <= tabs@.len(),
                out@.len() == i,
                forall|k: int| 0 <= k < i ==> (#[trigger] out@[k])@ == tabs@[k].name@,
            decreases tabs.len() - i,
        {
            out.push(tabs[i].name.clone());
            i = i + 1;
        }
        out
    }

    /// The windows of `windows` that are currently open, given the open names.
    pub fn filter_active_windows(windows: &Vec<String>, active: &Vec<String>) -> (r: Vec<String>)
        ensures
            views(r@) == active_windows(views(windows@), views(active@)),
    {
        let ghost pred = |w: Seq<char>| views(active@).contains(w);
        let mut out: Vec<String> = Vec::new();
        let mut i: usize = 0;
        proof {
            reveal(Seq::filter);
            assert(views(windows@).subrange(0, 0) =~= Seq::<Seq<char>>::empty());
            assert(views(out@) =~= Seq::<Seq<char>>::empty());
        }
        while i < windows.len()
            invariant
                i <= windows@.len(),
                pred == (|w: Seq<char>| views(active@).contains(w)),
                views(out@) == views(windows@).subrange(0, i as int).filter(pred),
            decreases windows.len() - i,
        {
            let ghost before = views(windows@).subrange(0, i as int);
            let ghost after = views(windows@).subrange(0, i + 1);
            proof {
                reveal(Seq::filter);
                assert(after.drop_last() =~= before);
                assert(after.last() == windows@[i as int]@);
            }
            if name_in(active, windows[i].as_str()) {
                out.push(windows[i].clone());
                assert(views(out@) =~= before.filter(pred).push(windows@[i as int]@));
            }
            i = i + 1;
        }
        assert(views(windows@).subrange(0, windows@.len() as int) =~= views(windows@));
        out
    }

    /// Whether none of `names` is still open, given the open names.
    pub fn all_windows_closed(names: &Vec<String>, active: &Vec<String>) -> (r: bool)
        ensures
            r == forall|k: int| 0 <= k < names@.len() ==> !views(active@).contains(#[trigger] names@[k]@),
    {
        let mut i: usize = 0;
        while i < names.len()
            invariant
                i <= names@.len(),
                forall|k: int| 0 <= k < i ==> !views(active@).contains(#[trigger] names@[k]@),
            decreases names.len() - i,
        {
            if name_in(active, names[i].as_str()) {
                return false;
            }
            i = i + 1;
        }
        true
    }

    /// Whether the tab `full_name` is open; always false outside a session.
    pub fn window_exists_by_full_name(inside_session: bool, tabs: &Vec<TabInfo>, full_name: &str) -> (r:
        bool)
        ensures
            r == (inside_session && first_index(tabs@, |t: TabInfo| t.name@ == full_name@) is Some),
    {
        if !inside_session {
            return false;
        }
        find_tab(tabs, full_name).is_some()
    }

    /// Background command that closes the tab `full_name` after `delay_ms`
    /// milliseconds, by id when the tab is known and by name otherwise.
    pub fn window_close_script(tabs: &Vec<TabInfo>, full_name: &str, delay_ms: u64) -> (r: String)
        ensures
            r@ == "sleep "@ + seconds_text(delay_ms as nat) + match tab_id_of(tabs@, full_name@) {
                Some(id) => " && zellij action close-tab-by-id "@ + decimal(id as nat),
                None => " && zellij action go-to-tab-name '"@ + escape_seq(full_name@)
                    + "' && zellij action close-tab"@,
            },
    {
        let mut out = String::from_str("sleep ");
        push_seconds(&mut out, delay_ms);
        match Self::get_tab_id_by_name(tabs, full_name) {
            Some(id) => {
                out.append(" && zellij action close-tab-by-id ");
                push_decimal(&mut out, id as u64);
            },
            None => {
                out.append(" && zellij action go-to-tab-name '");
                let e = shell_escape(full_name);
                out.append(e.as_str());
                out.append("' && zellij action close-tab");
            },
        }
        out
    }

    /// Pane id of the first terminal pane in the tab `tab_id`.
    pub fn initial_pane_id(panes: &Vec<PaneInfo>, tab_id: u32) -> (r: Result<String, MuxError>)
        ensures
            match r {
                Ok(s) => exists|k: int|
                    first_index(panes@, |p: PaneInfo| !p.is_plugin && p.tab_id == Some(tab_id))
                        == Some(k) && s@ == pane_key(panes@[k].id as nat),
                Err(MuxError::NoPaneInTab { tab_id: t }) => t == tab_id && first_index(
                    panes@,
                    |p: PaneInfo| !p.is_plugin && p.tab_id == Some(tab_id),
                ) is None,
                Err(_) => false,
            },
    {
        let ghost pred = |p: PaneInfo| !p.is_plugin && p.tab_id == Some(tab_id);
        let mut i: usize = 0;
        while i < panes.len()
            invariant
                i <= panes@.len(),
                pred == (|p: PaneInfo| !p.is_plugin && p.tab_id == Some(tab_id)),
                forall|j: int| 0 <= j < i ==> !pred(#[trigger] panes@[j]),
            decreases panes.len() - i,
        {
            let hit = !panes[i].is_plugin && match panes[i].tab_id {
                Some(t) => t == tab_id,
                None => false,
            };
            if hit {
                proof {
                    lemma_first_index_at(panes@, pred, i as int);
                }
                return Ok(pane_id_string(panes[i].id));
            }
            i = i + 1;
        }
        proof {
            lemma_first_index_none(panes@, pred);
        }
        Err(MuxError::NoPaneInTab { tab_id })
    }
}

/// A duration of `ms` milliseconds in seconds with three decimals, as `sleep` takes it.
pub open spec fn seconds_text(ms: nat) -> Seq<char> {
    let f = ms % 1000;
    decimal(ms / 1000) + "."@ + (if f < 10 {
        "00"@
    } else if f < 100 {
        "0"@
    } else {
        ""@
    }) + decimal(f)
}

fn push_seconds(out: &mut String, ms: u64)
    ensures
        final(out)@ == old(out)@ + seconds_text(ms as nat),
{
    push_decimal(out, ms / 1000);
    out.append(".");
    let f = ms % 1000;
    if f < 10 {
        out.append("00");
    } else if f < 100 {
        out.append("0");
    } else {
        out.append("");
    }
    push_decimal(out, f);
    assert(final(out)@ =~= old(out)@ + seconds_text(ms as nat));
}

/// A terminal pane of the tab named `tab`.
pub open spec fn in_tab(p: PaneInfo, tab: Seq<char>) -> bool {
    !p.is_plugin && p.tab_name@ == tab
}

/// How many of the first `k` panes are terminal panes of `tab`.
pub open spec fn tab_rank(panes: Seq<PaneInfo>, tab: Seq<char>, k: int) -> nat
    decreases k,
{
    if k <= 0 {
        0
    } else {
        tab_rank(panes, tab, k - 1) + if in_tab(panes[k - 1], tab) {
            1nat
        } else {
            0nat
        }
    }
}

/// Position of the focused pane and of the target pane among the panes of the focused tab.
pub struct PaneNavigation {
    pub from: usize,
    pub to: usize,
}

impl PaneNavigation {
    /// Focus moves to following panes (`focus-next-pane`) rather than preceding ones.
    pub fn forward(&self) -> (r: bool)
        ensures
            r == (self.to > self.from),
    {
        self.to > self.from
    }

    /// How many single focus moves reach the target.
    pub fn steps(&self) -> (r: usize)
        ensures
            r == if self.to > self.from {
                self.to - self.from
            } else {
                self.from - self.to
            },
    {
        if self.to > self.from {
            self.to - self.from
        } else {
            self.from - self.to
        }
    }
}

pub open spec fn focused_in(tab: Seq<char>) -> spec_fn(PaneInfo) -> bool {
    |p: PaneInfo| in_tab(p, tab) && p.is_focused
}

pub open spec fn with_id_in(tab: Seq<char>, id: u32) -> spec_fn(PaneInfo) -> bool {
    |p: PaneInfo| in_tab(p, tab) && p.id == id
}

fn tab_rank_of(panes: &Vec<PaneInfo>, tab: &str, k: usize) -> (r: usize)
    requires
        k <= panes@.len(),
    ensures
        r == tab_rank(panes@, tab@, k as int),
{
    let mut i: usize = 0;
    let mut c: usize = 0;
    while i < k
        invariant
            k <= panes@.len(),
            i <= k,
            c == tab_rank(panes@, tab@, i as int),
            c <= i,
        decreases k - i,
    {
        if !panes[i].is_plugin && eq_str(panes[i].tab_name.as_str(), tab) {
            c = c + 1;
        }
        i = i + 1;
    }
    c
}

fn find_in_tab(panes: &Vec<PaneInfo>, tab: &str, id: Option<u32>) -> (r: Option<usize>)
    ensures
        match id {
            None => match r {
                Some(k) => first_index(panes@, focused_in(tab@)) == Some(k as int),
                None => first_index(panes@, focused_in(tab@)) is None,
            },
            Some(t) => match r {
                Some(k) => first_index(panes@, with_id_in(tab@, t)) == Some(k as int),
                None => first_index(panes@, with_id_in(tab@, t)) is None,
            },
        },
        r matches Some(k) ==> k < panes@.len(),
{
    let ghost pred = match id {
        None => focused_in(tab@),
        Some(t) => with_id_in(tab@, t),
    };
    let mut i: usize = 0;
    while i < panes.len()
        invariant
            i <= panes@.len(),
            pred == (match id {
                None => focused_in(tab@),
                Some(t) => with_id_in(tab@, t),
            }),
            forall|j: int| 0 <= j < i ==> !pred(#[trigger] panes@[j]),
        decreases panes.len() - i,
    {
        let p = &panes[i];
        let hit = !p.is_plugin && eq_str(p.tab_name.as_str(), tab) && match id {
            None => p.is_focused,
            Some(t) => p.id == t,
        };
        if hit {
            proof {
                lemma_first_index_at(panes@, pred, i as int);
            }
            return Some(i);
        }
        i = i + 1;
    }
    proof {
        lemma_first_index_none(panes@, pred);
    }
    None
}

/// The outcome of planning focus moves from the focused pane to `target`.
pub open spec fn navigation_spec(
    r: Result<PaneNavigation, MuxError>,
    panes: Seq<PaneInfo>,
    tab: Seq<char>,
    target: Seq<char>,
) -> bool {
    match parse_pane_id_spec(target) {
        None => r matches Err(MuxError::InvalidPaneId { pane_id }) && pane_id@ == target,
        Some(id) => match (first_index(panes, focused_in(tab)), first_index(panes, with_id_in(tab, id))) {
            (None, _) => r matches Err(MuxError::NoFocusedPane { tab: Some(t) }) && t@ == tab,
            (Some(_), None) => r matches Err(MuxError::PaneNotInTab { pane_id }) && pane_id@ == target,
            (Some(c), Some(t)) => r matches Ok(nav) && nav.from == tab_rank(panes, tab, c) && nav.to
                == tab_rank(panes, tab, t),
        },
    }
}

impl ZellijBackend {
    /// Plans how to focus `target` by stepping through the panes of the focused tab,
    /// the only way to focus a pane on this backend.
    pub fn plan_select_pane(panes: &Vec<PaneInfo>, focused_tab: &str, target: &str) -> (r: Result<
        PaneNavigation,
        MuxError,
    >)
        ensures
            navigation_spec(r, panes@, focused_tab@, target@),
    {
        let target_id = match parse_pane_id(target) {
            Some(id) => id,
            None => {
                return Err(MuxError::InvalidPaneId { pane_id: String::from_str(target) });
            },
        };
        let cur = match find_in_tab(panes, focused_tab, None) {
            Some(c) => c,
            None => {
                return Err(MuxError::NoFocusedPane { tab: Some(String::from_str(focused_tab)) });
            },
        };
        let tgt = match find_in_tab(panes, focused_tab, Some(target_id)) {
            Some(t) => t,
            None => {
                return Err(MuxError::PaneNotInTab { pane_id: String::from_str(target) });
            },
        };
        let from = tab_rank_of(panes, focused_tab, cur);
        let to = tab_rank_of(panes, focused_tab, tgt);
        Ok(PaneNavigation { from, to })
    }
}

/// Below this heartbeat age (seconds) an agent counts as alive without a pane query.
pub const HEARTBEAT_FRESH_SECS: u64 = 60;

/// Above this heartbeat age (seconds) an agent counts as gone without a pane query.
pub const HEARTBEAT_STALE_SECS: u64 = 300;

/// Above this age (seconds) of its last update, a record whose pane cannot be
/// told apart counts as gone.
pub const STALE_UPDATE_SECS: u64 = 3600;

/// What the heartbeat alone decides: alive, gone, or undecided (`None`).
pub open spec fn heartbeat_verdict_spec(last_heartbeat: Option<u64>, now: Option<u64>) -> Option<bool> {
    match (last_heartbeat, now) {
        (Some(h), Some(n)) => {
            let age = if n >= h {
                (n - h) as nat
            } else {
                0nat
            };
            if age < HEARTBEAT_FRESH_SECS {
                Some(true)
            } else if age > HEARTBEAT_STALE_SECS {
                Some(false)
            } else {
                None
            }
        },
        _ => None,
    }
}

/// The stored command still runs in the pane: the base names are equal.
pub open spec fn command_matches_spec(stored: Seq<char>, live: Seq<char>) -> bool {
    basename(stored) == basename(live)
}

/// The live info this backend derives from a listed pane.
pub open spec fn live_info_spec(
    i: LivePaneInfo,
    p: PaneInfo,
    session: Option<Seq<char>>,
    cwd: Seq<char>,
) -> bool {
    &&& i.pid == 0
    &&& i.current_command@ == base_command_spec(
        opt_string_view(p.pane_command),
        opt_string_view(p.terminal_command),
    )
    &&& i.working_dir@ == match p.pane_cwd {
        Some(c) => c@,
        None => cwd,
    }
    &&& opt_string_view(i.title) == if p.title@.len() == 0 {
        None
    } else {
        Some(p.title@)
    }
    &&& opt_string_view(i.session) == session
    &&& opt_string_view(i.window) == if p.tab_name@.len() == 0 {
        None
    } else {
        Some(p.tab_name@)
    }
}

/// The terminal pane with numeric id `id`.
pub open spec fn terminal_with_id(id: u32) -> spec_fn(PaneInfo) -> bool {
    |p: PaneInfo| !p.is_plugin && p.id == id
}

/// Decides `command_matches_spec`.
pub fn command_matches(stored: &str, live: &str) -> (r: bool)
    ensures
        r == command_matches_spec(stored@, live@),
{
    eq_str(basename_of(stored), basename_of(live))
}

fn opt_str(o: &Option<String>) -> (r: Option<&str>)
    ensures
        opt_view(r) == opt_string_view(*o),
{
    match o {
        Some(s) => Some(s.as_str()),
        None => None,
    }
}

fn nonempty(s: &String) -> (r: Option<String>)
    ensures
        opt_string_view(r) == if s@.len() == 0 {
            None
        } else {
            Some(s@)
        },
{
    if s.as_str().unicode_len() == 0 {
        None
    } else {
        Some(s.clone())
    }
}

fn owned(o: Option<&str>) -> (r: Option<String>)
    ensures
        opt_string_view(r) == opt_view(o),
{
    match o {
        Some(s) => Some(String::from_str(s)),
        None => None,
    }
}

impl ZellijBackend {
    /// What the heartbeat alone says of an agent's liveness, if anything.
    pub fn heartbeat_verdict(last_heartbeat: Option<u64>, now: Option<u64>) -> (r: Option<bool>)
        ensures
            r == heartbeat_verdict_spec(last_heartbeat, now),
    {
        match (last_heartbeat, now) {
            (Some(h), Some(n)) => {
                let age = if n >= h {
                    n - h
                } else {
                    0
                };
                if age < HEARTBEAT_FRESH_SECS {
                    Some(true)
                } else if age > HEARTBEAT_STALE_SECS {
                    Some(false)
                } else {
                    None
                }
            },
            _ => None,
        }
    }

    /// Live info of a listed pane. Panes report no pid; a pane without a reported
    /// directory gets `cwd`.
    pub fn live_info(pane: &PaneInfo, session: Option<&str>, cwd: &str) -> (r: LivePaneInfo)
        ensures
            live_info_spec(r, *pane, opt_view(session), cwd@),
    {
        let current_command = extract_base_command(
            opt_str(&pane.pane_command),
            opt_str(&pane.terminal_command),
        );
        let working_dir = match &pane.pane_cwd {
            Some(c) => c.clone(),
            None => String::from_str(cwd),
        };
        LivePaneInfo {
            pid: 0,
            current_command,
            working_dir,
            title: nonempty(&pane.title),
            session: owned(session),
            window: nonempty(&pane.tab_name),
        }
    }

    /// Live info of the terminal pane `pane_id`, `None` when it does not exist.
    pub fn get_live_pane_info(
        panes: &Vec<PaneInfo>,
        pane_id: &str,
        session: Option<&str>,
        cwd: &str,
    ) -> (r: Result<Option<LivePaneInfo>, MuxError>)
        ensures
            match parse_pane_id_spec(pane_id@) {
                None => r matches Err(MuxError::InvalidPaneId { pane_id: p }) && p@ == pane_id@,
                Some(id) => match first_index(panes@, terminal_with_id(id)) {
                    None => r matches Ok(None),
                    Some(k) => r matches Ok(Some(i)) && live_info_spec(
                        i,
                        panes@[k],
                        opt_view(session),
                        cwd@,
                    ),
                },
            },
    {
        let id = match parse_pane_id(pane_id) {
            Some(id) => id,
            None => {
                return Err(MuxError::InvalidPaneId { pane_id: String::from_str(pane_id) });
            },
        };
        let ghost pred = terminal_with_id(id);
        let mut i: usize = 0;
        while i < panes.len()
            invariant
                i <= panes@.len(),
                pred == terminal_with_id(id),
                parse_pane_id_spec(pane_id@) == Some(id),
                forall|j: int| 0 <= j < i ==> !pred(#[trigger] panes@[j]),
            decreases panes.len() - i,
        {
            if !panes[i].is_plugin && panes[i].id == id {
                proof {
                    lemma_first_index_at(panes@, pred, i as int);
                }
                let info = Self::live_info(&panes[i], session, cwd);
                assert(live_info_spec(info, panes@[i as int], opt_view(session), cwd@));
                return Ok(Some(info));
            }
            i = i + 1;
        }
        proof {
            lemma_first_index_none(panes@, pred);
        }
        Ok(None)
    }

    /// Live info of every terminal pane, keyed by pane id, in listing order.
    pub fn get_all_live_pane_info(panes: &Vec<PaneInfo>, session: Option<&str>, cwd: &str) -> (r:
        Vec<(String, LivePaneInfo)>)
        ensures
            r@.len() == panes@.filter(|p: PaneInfo| !p.is_plugin).len(),
            forall|k: int|
                0 <= k < r@.len() ==> {
                    let p = panes@.filter(|p: PaneInfo| !p.is_plugin)[k];
                    &&& (#[trigger] r@[k]).0@ == pane_key(p.id as nat)
                    &&& live_info_spec(r@[k].1, p, opt_view(session), cwd@)
                },
    {
        let ghost pred = |p: PaneInfo| !p.is_plugin;
        let mut out: Vec<(String, LivePaneInfo)> = Vec::new();
        let mut i: usize = 0;
        proof {
            reveal(Seq::filter);
            assert(panes@.subrange(0, 0) =~= Seq::<PaneInfo>::empty());
        }
        while i < panes.len()
            invariant
                i <= panes@.len(),
                pred == (|p: PaneInfo| !p.is_plugin),
                out@.len() == panes@.subrange(0, i as int).filter(pred).len(),
                forall|k: int|
                    0 <= k < out@.len() ==> {
                        let p = panes@.subrange(0, i as int).filter(pred)[k];
                        &&& (#[trigger] out@[k]).0@ == pane_key(p.id as nat)
                        &&& live_info_spec(out@[k].1, p, opt_view(session), cwd@)
                    },
            decreases panes.len() - i,
        {
            let ghost before = panes@.subrange(0, i as int);
            let ghost after = panes@.subrange(0, i + 1);
            proof {
                reveal(Seq::filter);
                assert(after.drop_last() =~= before);
            }
            if !panes[i].is_plugin {
                let key = pane_id_string(panes[i].id);
                let info = Self::live_info(&panes[i], session, cwd);
                out.push((key, info));
                assert(after.filter(pred) == before.filter(pred).push(panes@[i as int]));
            }
            i = i + 1;
        }
        assert(panes@.subrange(0, panes@.len() as int) =~= panes@);
        out
    }

    /// Whether the agent of `state` is still alive. A fresh or stale heartbeat
    /// decides alone; otherwise the pane must exist and still run the stored command.
    pub fn validate_agent_alive(
        state: &AgentState,
        now: Option<u64>,
        panes: &Vec<PaneInfo>,
        session: Option<&str>,
        cwd: &str,
    ) -> (r: Result<bool, MuxError>)
        ensures
            match heartbeat_verdict_spec(state.last_heartbeat, now) {
                Some(v) => r == Ok::<bool, MuxError>(v),
                None => match parse_pane_id_spec(state.pane_key.pane_id@) {
                    None => r is Err,
                    Some(id) => match first_index(panes@, terminal_with_id(id)) {
                        None => r == Ok::<bool, MuxError>(false),
                        Some(k) => r == Ok::<bool, MuxError>(
                            command_matches_spec(
                                state.command@,
                                base_command_spec(
                                    opt_string_view(panes@[k].pane_command),
                                    opt_string_view(panes@[k].terminal_command),
                                ),
                            ),
                        ),
                    },
                },
            },
    {
        if let Some(v) = Self::heartbeat_verdict(state.last_heartbeat, now) {
            return Ok(v);
        }
        match Self::get_live_pane_info(panes, state.pane_key.pane_id.as_str(), session, cwd) {
            Err(e) => Err(e),
            Ok(None) => Ok(false),
            Ok(Some(info)) => Ok(
                command_matches(state.command.as_str(), info.current_command.as_str()),
            ),
        }
    }
}

/// Direction of a split: side by side, or stacked.
pub enum SplitDirection {
    Horizontal,
    Vertical,
}

/// The script sent to a pane in place of respawning it: change to `cwd`,
/// then run `cmd` if given.
pub open spec fn respawn_script_spec(cwd: Seq<char>, cmd: Option<Seq<char>>) -> Seq<char> {
    let cd = "cd '"@ + escape_seq(cwd) + "'"@;
    match cmd {
        Some(c) => cd + " && "@ + c,
        None => cd,
    }
}

/// The ASCII code that `write` sends for a named key, if the key has one.
pub open spec fn key_code_spec(key: Seq<char>) -> Option<Seq<char>> {
    if key == "Enter"@ {
        Some("13"@)
    } else if key == "Escape"@ {
        Some("27"@)
    } else if key == "Tab"@ {
        Some("9"@)
    } else {
        None
    }
}

impl ZellijBackend {
    /// Checks that `pane_id` names an existing terminal pane.
    pub fn check_pane_exists(panes: &Vec<PaneInfo>, pane_id: &str) -> (r: Result<(), MuxError>)
        ensures
            match parse_pane_id_spec(pane_id@) {
                None => r matches Err(MuxError::InvalidPaneId { pane_id: p }) && p@ == pane_id@,
                Some(id) => match first_index(panes@, terminal_with_id(id)) {
                    None => r matches Err(MuxError::PaneNotFound { pane_id: p }) && p@ == pane_id@,
                    Some(_) => r is Ok,
                },
            },
    {
        match Self::get_live_pane_info(panes, pane_id, None, "") {
            Err(e) => Err(e),
            Ok(None) => Err(MuxError::PaneNotFound { pane_id: String::from_str(pane_id) }),
            Ok(Some(_)) => Ok(()),
        }
    }

    /// The script that stands in for respawning a pane.
    pub fn respawn_script(cwd: &str, cmd: Option<&str>) -> (r: String)
        ensures
            r@ == respawn_script_spec(cwd@, opt_view(cmd)),
    {
        let mut out = String::from_str("cd '");
        let e = shell_escape(cwd);
        out.append(e.as_str());
        out.append("'");
        if let Some(c) = cmd {
            out.append(" && ");
            out.append(c);
        }
        out
    }

    /// The code to `write` for a named key; `None` means the key is sent as characters.
    pub fn key_code(key: &str) -> (r: Option<&'static str>)
        ensures
            opt_view(r) == key_code_spec(key@),
    {
        if eq_str(key, "Enter") {
            Some("13")
        } else if eq_str(key, "Escape") {
            Some("27")
        } else if eq_str(key, "Tab") {
            Some("9")
        } else {
            None
        }
    }

    /// For agents that need a pause after a leading `!`, the rest of the command
    /// to send after it; `None` when the command goes in one write.
    pub fn bang_split(command: &str, needs_bang_delay: bool) -> (r: Option<&str>)
        ensures
            match r {
                Some(rest) => needs_bang_delay && command@.len() > 0 && command@[0] == '!'
                    && rest@ == command@.drop_first(),
                None => !(needs_bang_delay && command@.len() > 0 && command@[0] == '!'),
            },
    {
        let n = command.unicode_len();
        if needs_bang_delay && n > 0 && command.get_char(0) == '!' {
            let rest = command.substring_char(1, n);
            assert(rest@ =~= command@.drop_first());
            Some(rest)
        } else {
            None
        }
    }

    /// The `--direction` argument of `new-pane` for a split.
    pub fn direction_arg(direction: &SplitDirection) -> (r: &'static str)
        ensures
            r@ == match direction {
                SplitDirection::Horizontal => "right"@,
                SplitDirection::Vertical => "down"@,
            },
    {
        match direction {
            SplitDirection::Horizontal => "right",
            SplitDirection::Vertical => "down",
        }
    }

    /// Which tab to switch to for the agent pane `pane_id`, looked up among the
    /// reconciled agent records.
    pub fn switch_target(agents: &Vec<AgentState>, tabs: &Vec<TabInfo>, pane_id: &str) -> (r:
        Result<TabTarget, MuxError>)
        ensures
            match first_index(agents@, |a: AgentState| a.pane_key.pane_id@ == pane_id@) {
                None => r matches Err(MuxError::NotInStateStore { pane_id: p }) && p@ == pane_id@,
                Some(k) => r matches Ok(t) && tab_target_spec(t, tabs@, agents@[k].window_name@),
            },
    {
        let ghost pred = |a: AgentState| a.pane_key.pane_id@ == pane_id@;
        let mut i: usize = 0;
        while i < agents.len()
            invariant
                i <= agents@.len(),
                pred == (|a: AgentState| a.pane_key.pane_id@ == pane_id@),
                forall|j: int| 0 <= j < i ==> !pred(#[trigger] agents@[j]),
            decreases agents.len() - i,
        {
            if eq_str(agents[i].pane_key.pane_id.as_str(), pane_id) {
                proof {
                    lemma_first_index_at(agents@, pred, i as int);
                }
                return Ok(Self::tab_target(tabs, agents[i].window_name.as_str()));
            }
            i = i + 1;
        }
        proof {
            lemma_first_index_none(agents@, pred);
        }
        Err(MuxError::NotInStateStore { pane_id: String::from_str(pane_id) })
    }
}

impl ZellijBackend {
    /// Liveness when panes cannot be told apart: the agent's tab is open and its
    /// record was updated within the last hour.
    pub fn fallback_alive(state: &AgentState, open_tabs: &Vec<String>, now: u64) -> (r: bool)
        ensures
            r == (crate::text::views(open_tabs@).contains(state.window_name@) && (now
                < state.updated_ts || now - state.updated_ts <= STALE_UPDATE_SECS)),
    {
        name_in(open_tabs, state.window_name.as_str()) && (now < state.updated_ts || now
            - state.updated_ts <= STALE_UPDATE_SECS)
    }
}

} // verus!

//! The terminal session engine's state machine: one input buffer with a
//! cursor, one scroll offset, and one tagged mode — normal editing, waiting
//! for a response, the slash-command modal, or the resume modal — so two
//! modals can never be active at once. Key events map to pure state
//! transitions; everything the outside world must do comes back as an
//! explicit effect.

use vstd::prelude::*;
use vstd::string::StringExecFns;
use crate::text::str_eq;
use crate::text::chars_of;
use crate::text::string_from_chars;
use crate::level::spec_lower_seq;
use crate::level::lower_ascii;
use crate::session::ConversationInfo;

verus! {

/// Relies on core::mem::replace: moves `src` into `dest` and returns the
/// value that was there before.
pub assume_specification<T>[ core::mem::replace ](dest: &mut T, src: T) -> (r: T)
    ensures
        r == *old(dest),
        *final(dest) == src,
;

/// One entry of the static slash-command table.
#[derive(Clone, Copy, Debug)]
pub struct SlashCommand {
    pub name: &'static str,
    pub description: &'static str,
    pub shortcut: Option<&'static str>,
}

/// The abstract value of a table entry.
#[verifier::ext_equal]
pub struct SlashCommandView {
    pub name: Seq<char>,
    pub description: Seq<char>,
    pub shortcut: Option<Seq<char>>,
}

impl View for SlashCommand {
    type V = SlashCommandView;

    open spec fn view(&self) -> SlashCommandView {
        SlashCommandView {
            name: self.name@,
            description: self.description@,
            shortcut: match self.shortcut {
                Some(s) => Some(s@),
                None => None,
            },
        }
    }
}

/// The static command table, alphabetical by name.
pub open spec fn spec_slash_table() -> Seq<SlashCommandView> {
    seq![
        SlashCommandView {
            name: "backend"@,
            description: "Switch log backend (kibana/openobserve)"@,
            shortcut: Some("b"@),
        },
        SlashCommandView {
            name: "clear"@,
            description: "Clear current session history"@,
            shortcut: Some("c"@),
        },
        SlashCommandView {
            name: "copy"@,
            description: "Copy last AI response to clipboard"@,
            shortcut: Some("y"@),
        },
        SlashCommandView {
            name: "help"@,
            description: "Show available commands"@,
            shortcut: Some("h"@),
        },
        SlashCommandView {
            name: "index"@,
            description: "Change index pattern for this session"@,
            shortcut: Some("i"@),
        },
        SlashCommandView {
            name: "quit"@,
            description: "Exit the application"@,
            shortcut: Some("q"@),
        },
        SlashCommandView {
            name: "resume"@,
            description: "Resume a previous conversation"@,
            shortcut: Some("r"@),
        },
    ]
}

/// The static command table.
pub fn slash_commands() -> (r: Vec<SlashCommand>)
    ensures
        r@.map_values(|c: SlashCommand| c@) == spec_slash_table(),
{
    let mut out: Vec<SlashCommand> = Vec::new();
    out.push(
        SlashCommand {
            name: "backend",
            description: "Switch log backend (kibana/openobserve)",
            shortcut: Some("b"),
        },
    );
    out.push(
        SlashCommand {
            name: "clear",
            description: "Clear current session history",
            shortcut: Some("c"),
        },
    );
    out.push(
        SlashCommand {
            name: "copy",
            description: "Copy last AI response to clipboard",
            shortcut: Some("y"),
        },
    );
    out.push(
        SlashCommand { name: "help", description: "Show available commands", shortcut: Some("h") },
    );
    out.push(
        SlashCommand {
            name: "index",
            description: "Change index pattern for this session",
            shortcut: Some("i"),
        },
    );
    out.push(
        SlashCommand { name: "quit", description: "Exit the application", shortcut: Some("q") },
    );
    out.push(
        SlashCommand {
            name: "resume",
            description: "Resume a previous conversation",
            shortcut: Some("r"),
        },
    );
    assert(out@.map_values(|c: SlashCommand| c@) =~~= spec_slash_table());
    out
}

/// The commands that run immediately on selection, without arguments.
pub open spec fn spec_is_auto_execute(cmd: Seq<char>) -> bool {
    cmd == "quit"@ || cmd == "clear"@ || cmd == "help"@ || cmd == "resume"@ || cmd == "copy"@
}

/// True of the commands that run immediately on selection; `backend` and
/// `index` instead pre-fill the input buffer for an argument.
pub fn is_auto_execute_command(cmd: &str) -> (r: bool)
    ensures
        r == spec_is_auto_execute(cmd@),
{
    str_eq(cmd, "quit") || str_eq(cmd, "clear") || str_eq(cmd, "help") || str_eq(cmd, "resume")
        || str_eq(cmd, "copy")
}

/// True when `p` is a prefix of `s`.
pub open spec fn spec_is_prefix(p: Seq<char>, s: Seq<char>) -> bool {
    p.len() <= s.len() && s.subrange(0, p.len() as int) == p
}

/// Compares a candidate prefix against a string.
pub fn is_prefix(p: &str, s: &str) -> (r: bool)
    ensures
        r == spec_is_prefix(p@, s@),
{
    let n = p.unicode_len();
    let m = s.unicode_len();
    if n > m {
        return false;
    }
    let mut i: usize = 0;
    while i < n
        invariant
            0 <= i <= n,
            n == p@.len(),
            n <= s@.len(),
            m == s@.len(),
            forall|j: int| 0 <= j < i ==> p@[j] == s@[j],
        decreases n - i,
    {
        if p.get_char(i) != s.get_char(i) {
            assert(s@.subrange(0, p@.len() as int)[i as int] != p@[i as int]);
            return false;
        }
        i = i + 1;
    }
    assert(s@.subrange(0, p@.len() as int) =~= p@);
    true
}

/// A pure prefix-or-shortcut match: the empty filter matches everything; a
/// non-empty filter matches a command whose name it prefixes, or whose
/// shortcut it equals.
pub open spec fn spec_cmd_matches(c: SlashCommandView, f: Seq<char>) -> bool {
    f.len() == 0 || spec_is_prefix(f, c.name) || c.shortcut == Some(f)
}

/// What the modal shows under a filter: the table entries the lower-cased
/// filter matches, in table order; an unmatched filter yields the empty
/// list, without error.
pub open spec fn spec_filtered_commands(filter: Seq<char>) -> Seq<SlashCommandView> {
    spec_slash_table().filter(|c: SlashCommandView| spec_cmd_matches(c, spec_lower_seq(filter)))
}

/// Filters the command table by name-prefix or shortcut.
pub fn get_filtered_commands(filter: &str) -> (r: Vec<SlashCommand>)
    ensures
        r@.map_values(|c: SlashCommand| c@) == spec_filtered_commands(filter@),
{
    let low = lower_ascii(filter);
    let table = slash_commands();
    let ghost tv = table@.map_values(|c: SlashCommand| c@);
    let ghost pred = |c: SlashCommandView| spec_cmd_matches(c, spec_lower_seq(filter@));
    let mut out: Vec<SlashCommand> = Vec::new();
    assert(tv.subrange(0, 0) =~= Seq::<SlashCommandView>::empty());
    assert(Seq::<SlashCommandView>::empty().filter(pred) =~= Seq::<SlashCommandView>::empty())
        by {
        reveal(Seq::filter);
    }
    let mut i: usize = 0;
    while i < table.len()
        invariant
            0 <= i <= table@.len(),
            tv == table@.map_values(|c: SlashCommand| c@),
            low@ == spec_lower_seq(filter@),
            pred == (|c: SlashCommandView| spec_cmd_matches(c, spec_lower_seq(filter@))),
            out@.map_values(|c: SlashCommand| c@) == tv.subrange(0, i as int).filter(pred),
        decreases table@.len() - i,
    {
        let c = table[i];
        let keep = if low.as_str().is_empty() {
            true
        } else {
            let by_name = is_prefix(low.as_str(), c.name);
            let by_shortcut = match c.shortcut {
                Some(s) => str_eq(s, low.as_str()),
                None => false,
            };
            by_name || by_shortcut
        };
        proof {
            let pfx = tv.subrange(0, i as int);
            let nxt = tv.subrange(0, i + 1);
            assert(nxt.drop_last() =~= pfx);
            assert(nxt.last() == tv[i as int]);
            assert(tv[i as int] == table@[i as int]@);
            reveal(Seq::filter);
            assert(keep == pred(tv[i as int]));
        }
        if keep {
            let ghost old_map = out@.map_values(|c2: SlashCommand| c2@);
            out.push(c);
            proof {
                assert forall|j: int| 0 <= j < out@.len() implies out@.map_values(
                    |c2: SlashCommand| c2@,
                )[j] == #[trigger] old_map.push(tv[i as int])[j] by {
                    assert(out@.map_values(|c2: SlashCommand| c2@)[j] == out@[j]@);
                    if j < old_map.len() {
                        assert(old_map[j] == out@[j]@);
                    }
                }
                assert(out@.map_values(|c2: SlashCommand| c2@) =~= old_map.push(tv[i as int]));
                assert(out@.map_values(|c2: SlashCommand| c2@) =~= tv.subrange(0, i + 1).filter(
                    pred,
                ));
            }
        } else {
            assert(out@.map_values(|c2: SlashCommand| c2@) =~= tv.subrange(0, i + 1).filter(pred));
        }
        i = i + 1;
    }
    assert(tv.subrange(0, tv.len() as int) =~= tv);
    out
}


/// The modal's filtering is a pure prefix-or-shortcut match: everything it
/// shows matches the filter, and every matching table entry is shown — so an
/// unmatched filter yields zero candidates, without error.
pub proof fn lemma_filtered_commands_exact(f: Seq<char>)
    ensures
        forall|i: int|
            0 <= i < spec_filtered_commands(f).len() ==> spec_cmd_matches(
                #[trigger] spec_filtered_commands(f)[i],
                spec_lower_seq(f),
            ),
        forall|i: int|
            0 <= i < spec_slash_table().len() && spec_cmd_matches(
                #[trigger] spec_slash_table()[i],
                spec_lower_seq(f),
            ) ==> spec_filtered_commands(f).contains(spec_slash_table()[i]),
{
    let table = spec_slash_table();
    let pred = |c: SlashCommandView| spec_cmd_matches(c, spec_lower_seq(f));
    assert forall|i: int|
        0 <= i < spec_filtered_commands(f).len() implies spec_cmd_matches(
        #[trigger] spec_filtered_commands(f)[i],
        spec_lower_seq(f),
    ) by {
        table.lemma_filter_pred(pred, i);
    }
    assert forall|i: int|
        0 <= i < table.len() && spec_cmd_matches(
            #[trigger] table[i],
            spec_lower_seq(f),
        ) implies spec_filtered_commands(f).contains(table[i]) by {
        table.lemma_filter_contains(pred, i);
    }
}

/// The engine's mode: a single tagged union, so the two modals and the
/// waiting state are mutually exclusive by construction.
pub enum Mode {
    Idle,
    AwaitingResponse,
    SlashModal { filter: Vec<char>, selected: usize },
    ResumeModal { sessions: Vec<ConversationInfo>, selected: usize },
}

/// The engine's state: the mode, the input buffer with its cursor, the
/// scroll offset, and the assistant-message selection sub-mode.
pub struct SessionState {
    pub mode: Mode,
    pub input: Vec<char>,
    pub cursor: usize,
    pub scroll_offset: usize,
    pub selected_message: Option<usize>,
    pub show_welcome: bool,
    pub index_pattern: Option<String>,
}

impl SessionState {
    /// The state's structural invariant: the cursor stays inside the
    /// buffer, and an open resume modal always has a valid selection into a
    /// non-empty session list.
    pub open spec fn well_formed(&self) -> bool {
        &&& self.cursor <= self.input@.len()
        &&& match self.mode {
            Mode::ResumeModal { sessions, selected } => sessions@.len() > 0 && selected
                < sessions@.len(),
            _ => true,
        }
    }

    /// The initial state: idle, empty buffer, welcome screen shown.
    pub fn new() -> (r: SessionState)
        ensures
            r.well_formed(),
            r.mode is Idle,
            r.input@.len() == 0,
            r.cursor == 0,
            r.scroll_offset == 0,
            r.selected_message is None,
            r.show_welcome,
            r.index_pattern is None,
    {
        SessionState {
            mode: Mode::Idle,
            input: Vec::new(),
            cursor: 0,
            scroll_offset: 0,
            selected_message: None,
            show_welcome: true,
            index_pattern: None,
        }
    }

    /// Inserts one character at the cursor.
    pub fn insert_char(&mut self, c: char)
        requires
            old(self).well_formed(),
            old(self).input@.len() < usize::MAX,
        ensures
            final(self).well_formed(),
            final(self).input@ == old(self).input@.insert(old(self).cursor as int, c),
            final(self).cursor == old(self).cursor + 1,
            final(self).mode == old(self).mode,
            final(self).scroll_offset == old(self).scroll_offset,
    {
        let at = self.cursor;
        self.input.insert(at, c);
        self.cursor = self.cursor + 1;
    }

    /// Deletes the character before the cursor, if any.
    pub fn backspace(&mut self)
        requires
            old(self).well_formed(),
        ensures
            final(self).well_formed(),
            old(self).cursor == 0 ==> final(self).input@ == old(self).input@ && final(self).cursor
                == 0,
            old(self).cursor > 0 ==> final(self).input@ == old(self).input@.remove(
                old(self).cursor - 1,
            ) && final(self).cursor == old(self).cursor - 1,
            final(self).mode == old(self).mode,
    {
        if self.cursor > 0 {
            self.cursor = self.cursor - 1;
            let at = self.cursor;
            self.input.remove(at);
        }
    }

    /// Deletes the character under the cursor, if any.
    pub fn delete(&mut self)
        requires
            old(self).well_formed(),
        ensures
            final(self).well_formed(),
            old(self).cursor < old(self).input@.len() ==> final(self).input@ == old(self).input@.remove(old(self).cursor as int),
            old(self).cursor >= old(self).input@.len() ==> final(self).input@ == old(self).input@,
            final(self).cursor == old(self).cursor,
            final(self).mode == old(self).mode,
    {
        if self.cursor < self.input.len() {
            let at = self.cursor;
            self.input.remove(at);
        }
    }

    /// Moves the cursor one character left, saturating at the start.
    pub fn cursor_left(&mut self)
        requires
            old(self).well_formed(),
        ensures
            final(self).well_formed(),
            final(self).input@ == old(self).input@,
            final(self).cursor == if old(self).cursor > 0 {
                old(self).cursor - 1
            } else {
                0int
            },
            final(self).mode == old(self).mode,
    {
        if self.cursor > 0 {
            self.cursor = self.cursor - 1;
        }
    }

    /// Moves the cursor one character right, saturating at the end.
    pub fn cursor_right(&mut self)
        requires
            old(self).well_formed(),
        ensures
            final(self).well_formed(),
            final(self).input@ == old(self).input@,
            final(self).cursor == if old(self).cursor < old(self).input@.len() {
                old(self).cursor + 1
            } else {
                old(self).cursor as int
            },
            final(self).mode == old(self).mode,
    {
        if self.cursor < self.input.len() {
            self.cursor = self.cursor + 1;
        }
    }

    /// Moves the cursor to the start of the buffer.
    pub fn cursor_home(&mut self)
        requires
            old(self).well_formed(),
        ensures
            final(self).well_formed(),
            final(self).input@ == old(self).input@,
            final(self).cursor == 0,
            final(self).mode == old(self).mode,
    {
        self.cursor = 0;
    }

    /// Moves the cursor to the end of the buffer.
    pub fn cursor_end(&mut self)
        requires
            old(self).well_formed(),
        ensures
            final(self).well_formed(),
            final(self).input@ == old(self).input@,
            final(self).cursor == old(self).input@.len(),
            final(self).mode == old(self).mode,
    {
        self.cursor = self.input.len();
    }

    /// Scrolls by a signed number of lines, saturating at zero.
    pub fn scroll(&mut self, up: bool, lines: usize)
        requires
            old(self).well_formed(),
        ensures
            final(self).well_formed(),
            up ==> final(self).scroll_offset == if old(self).scroll_offset >= lines {
                old(self).scroll_offset - lines
            } else {
                0int
            },
            !up ==> final(self).scroll_offset == if old(self).scroll_offset + lines <= usize::MAX {
                old(self).scroll_offset + lines
            } else {
                usize::MAX as int
            },
            final(self).input@ == old(self).input@,
            final(self).cursor == old(self).cursor,
            final(self).mode == old(self).mode,
    {
        if up {
            if self.scroll_offset >= lines {
                self.scroll_offset = self.scroll_offset - lines;
            } else {
                self.scroll_offset = 0;
            }
        } else {
            if self.scroll_offset <= usize::MAX - lines {
                self.scroll_offset = self.scroll_offset + lines;
            } else {
                self.scroll_offset = usize::MAX;
            }
        }
    }
}

/// What pasted text flattens to before insertion: carriage returns vanish
/// and newlines become spaces, keeping the buffer single-line.
pub open spec fn spec_flatten_paste(s: Seq<char>) -> Seq<char> {
    s.filter(|c: char| c != '\r').map_values(
        |c: char|
            if c == '\n' {
                ' '
            } else {
                c
            },
    )
}

/// Flattens pasted text: drops carriage returns, turns newlines into
/// spaces.
pub fn flatten_paste(s: &str) -> (r: Vec<char>)
    ensures
        r@ == spec_flatten_paste(s@),
{
    let cs = chars_of(s);
    let ghost pred = |c: char| c != '\r';
    let ghost mapf = |c: char|
        if c == '\n' {
            ' '
        } else {
            c
        };
    let mut out: Vec<char> = Vec::new();
    assert(s@.subrange(0, 0) =~= Seq::<char>::empty());
    assert(Seq::<char>::empty().filter(pred).map_values(mapf) =~= Seq::<char>::empty()) by {
        reveal(Seq::filter);
    }
    let mut i: usize = 0;
    while i < cs.len()
        invariant
            0 <= i <= cs@.len(),
            cs@ == s@,
            pred == (|c: char| c != '\r'),
            mapf == (|c: char|
                if c == '\n' {
                    ' '
                } else {
                    c
                }),
            out@ == s@.subrange(0, i as int).filter(pred).map_values(mapf),
        decreases cs@.len() - i,
    {
        let c = cs[i];
        proof {
            let pfx = s@.subrange(0, i as int);
            let nxt = s@.subrange(0, i + 1);
            assert(nxt.drop_last() =~= pfx);
            assert(nxt.last() == s@[i as int]);
            reveal(Seq::filter);
        }
        if c != '\r' {
            if c == '\n' {
                out.push(' ');
            } else {
                out.push(c);
            }
            assert(out@ =~= s@.subrange(0, i + 1).filter(pred).map_values(mapf));
        } else {
            assert(out@ =~= s@.subrange(0, i + 1).filter(pred).map_values(mapf));
        }
        i = i + 1;
    }
    assert(s@.subrange(0, s@.len() as int) =~= s@);
    out
}

impl SessionState {
    /// Inserts pasted text at the cursor, flattened to a single line.
    pub fn paste(&mut self, text: &str)
        requires
            old(self).well_formed(),
            old(self).input@.len() + spec_flatten_paste(text@).len() < usize::MAX,
        ensures
            final(self).well_formed(),
            final(self).input@ == old(self).input@.subrange(0, old(self).cursor as int)
                + spec_flatten_paste(text@) + old(self).input@.subrange(
                old(self).cursor as int,
                old(self).input@.len() as int,
            ),
            final(self).cursor == old(self).cursor + spec_flatten_paste(text@).len(),
            final(self).mode == old(self).mode,
    {
        let flat = flatten_paste(text);
        let ghost fv = flat@;
        let ghost before = self.input@.subrange(0, self.cursor as int);
        let ghost after = self.input@.subrange(
            self.cursor as int,
            self.input@.len() as int,
        );
        let mut k: usize = 0;
        assert(self.input@ =~= before + fv.subrange(0, 0) + after);
        while k < flat.len()
            invariant
                0 <= k <= fv.len(),
                fv == flat@,
                self.cursor <= self.input@.len(),
                self.input@ == before + fv.subrange(0, k as int) + after,
                self.cursor == before.len() + k,
                before.len() + after.len() + fv.len() < usize::MAX,
                self.mode == old(self).mode,
                self.well_formed(),
            decreases fv.len() - k,
        {
            let at = self.cursor;
            self.input.insert(at, flat[k]);
            self.cursor = self.cursor + 1;
            assert(self.input@ =~= before + fv.subrange(0, k + 1) + after);
            k = k + 1;
        }
        proof {
            assert(before + fv.subrange(0, fv.len() as int) + after =~= before + fv + after);
            assert(old(self).input@.subrange(0, old(self).cursor as int) == before);
        }
    }

    /// Typing `/` into an empty buffer opens the slash modal with an empty
    /// filter; the slash itself enters the buffer.
    pub fn open_slash_modal(&mut self)
        requires
            old(self).well_formed(),
            old(self).input@.len() == 0,
        ensures
            final(self).well_formed(),
            final(self).input@ == seq!['/'],
            final(self).cursor == 1,
            final(self).mode matches Mode::SlashModal { filter, selected } && filter@ == Seq::<
                char,
            >::empty() && selected == 0,
    {
        self.input = Vec::new();
        self.input.push('/');
        self.cursor = 1;
        self.mode = Mode::SlashModal { filter: Vec::new(), selected: 0 };
        assert(self.input@ =~= seq!['/']);
    }

    /// A typed character in the slash modal extends both the filter and the
    /// buffer and resets the highlight.
    pub fn slash_char(&mut self, c: char)
        requires
            old(self).well_formed(),
            old(self).mode matches Mode::SlashModal { .. },
            old(self).input@.len() < usize::MAX,
        ensures
            final(self).well_formed(),
            final(self).input@ == old(self).input@.insert(old(self).cursor as int, c),
            final(self).cursor == old(self).cursor + 1,
            old(self).mode matches Mode::SlashModal { filter: f0, .. } ==> final(self).mode
                matches Mode::SlashModal { filter, selected } && filter@ == f0@.push(c) && selected
                == 0,
    {
        let at = self.cursor;
        self.input.insert(at, c);
        self.cursor = self.cursor + 1;
        let mode = core::mem::replace(&mut self.mode, Mode::Idle);
        match mode {
            Mode::SlashModal { filter, .. } => {
                let mut filter = filter;
                filter.push(c);
                self.mode = Mode::SlashModal { filter, selected: 0 };
            },
            _ => {
                assert(false);
            },
        }
    }

    /// Backspace in the slash modal shortens the filter and the buffer,
    /// resets the highlight, and closes the modal once the leading slash is
    /// gone.
    pub fn slash_backspace(&mut self)
        requires
            old(self).well_formed(),
            old(self).mode matches Mode::SlashModal { .. },
        ensures
            final(self).well_formed(),
            old(self).cursor > 0 ==> final(self).input@ == old(self).input@.remove(
                old(self).cursor - 1,
            ),
            old(self).cursor == 0 ==> final(self).input@ == old(self).input@,
            final(self).input@.len() == 0 || final(self).input@[0] != '/' ==> final(self).mode
                is Idle,
    {
        let mode = core::mem::replace(&mut self.mode, Mode::Idle);
        match mode {
            Mode::SlashModal { filter, .. } => {
                let mut filter = filter;
                if filter.len() > 0 {
                    filter.pop();
                }
                if self.cursor > 0 {
                    self.cursor = self.cursor - 1;
                    let at = self.cursor;
                    self.input.remove(at);
                }
                if self.input.len() == 0 || self.input[0] != '/' {
                    self.mode = Mode::Idle;
                } else {
                    self.mode = Mode::SlashModal { filter, selected: 0 };
                }
            },
            _ => {
                assert(false);
            },
        }
    }

    /// Escape closes the slash modal; a buffer holding only the lone slash
    /// is cleared.
    pub fn slash_escape(&mut self)
        requires
            old(self).well_formed(),
            old(self).mode matches Mode::SlashModal { .. },
        ensures
            final(self).well_formed(),
            final(self).mode is Idle,
            old(self).input@ == seq!['/'] ==> final(self).input@.len() == 0 && final(self).cursor
                == 0,
            old(self).input@ != seq!['/'] ==> final(self).input@ == old(self).input@,
    {
        self.mode = Mode::Idle;
        if self.input.len() == 1 && self.input[0] == '/' {
            assert(self.input@ =~= seq!['/']);
            self.input = Vec::new();
            self.cursor = 0;
        } else {
            assert(self.input@ != seq!['/']);
        }
    }

    /// Moves the slash-modal highlight up, saturating at the top.
    pub fn slash_up(&mut self)
        requires
            old(self).well_formed(),
            old(self).mode matches Mode::SlashModal { .. },
        ensures
            final(self).well_formed(),
            old(self).mode matches Mode::SlashModal { filter: f0, selected: s0 } ==> final(self).mode matches Mode::SlashModal { filter, selected } && filter@ == f0@ && selected
                == if s0 > 0 {
                s0 - 1
            } else {
                0int
            },
            final(self).input@ == old(self).input@,
    {
        let mode = core::mem::replace(&mut self.mode, Mode::Idle);
        match mode {
            Mode::SlashModal { filter, selected } => {
                let next = if selected > 0 {
                    selected - 1
                } else {
                    0
                };
                self.mode = Mode::SlashModal { filter, selected: next };
            },
            _ => {
                assert(false);
            },
        }
    }

    /// Moves the slash-modal highlight down, saturating at the last
    /// filtered entry.
    pub fn slash_down(&mut self)
        requires
            old(self).well_formed(),
            old(self).mode matches Mode::SlashModal { .. },
        ensures
            final(self).well_formed(),
            old(self).mode matches Mode::SlashModal { filter: f0, selected: s0 } ==> final(self).mode matches Mode::SlashModal { filter, selected } && filter@ == f0@ && selected
                as int == (if s0 + 1 < spec_filtered_commands(f0@).len() {
                s0 + 1
            } else {
                if spec_filtered_commands(f0@).len() > 0 {
                    spec_filtered_commands(f0@).len() - 1
                } else {
                    0int
                }
            }),
            final(self).input@ == old(self).input@,
    {
        let mode = core::mem::replace(&mut self.mode, Mode::Idle);
        match mode {
            Mode::SlashModal { filter, selected } => {
                let fs = string_from_chars(&filter);
                let filtered = get_filtered_commands(fs.as_str());
                let bound = filtered.len();
                let next = if bound > 0 && selected < bound - 1 {
                    selected + 1
                } else {
                    if bound > 0 {
                        bound - 1
                    } else {
                        0
                    }
                };
                self.mode = Mode::SlashModal { filter, selected: next };
            },
            _ => {
                assert(false);
            },
        }
    }
}

/// What committing the slash-modal highlight yields: nothing (no filtered
/// entry was selected), an auto-executing command to run at once, or an
/// argument-taking command pre-filled into the buffer.
pub enum SlashCommit {
    Stay,
    Auto(String),
    Prefill(String),
}

impl SessionState {
    /// Enter commits the highlighted command: the modal closes; an
    /// auto-executing command clears the buffer and is handed back to run;
    /// an argument-taking command pre-fills the buffer with `/name ` for
    /// completion. With nothing highlighted the modal stays open.
    pub fn slash_enter(&mut self) -> (r: SlashCommit)
        requires
            old(self).well_formed(),
            old(self).mode matches Mode::SlashModal { .. },
        ensures
            final(self).well_formed(),
            old(self).mode matches Mode::SlashModal { filter: f0, selected: s0 } ==> {
                let filtered = spec_filtered_commands(f0@);
                if s0 < filtered.len() {
                    let name = filtered[s0 as int].name;
                    &&& final(self).mode is Idle
                    &&& if spec_is_auto_execute(name) {
                        r matches SlashCommit::Auto(n) && n@ == name && final(self).input@.len()
                            == 0 && final(self).cursor == 0
                    } else {
                        r matches SlashCommit::Prefill(n) && n@ == name && final(self).input@
                            == seq!['/'] + name + seq![' '] && final(self).cursor == final(self).input@.len()
                    }
                } else {
                    r is Stay && *final(self) == *old(self)
                }
            },
    {
        let mode = core::mem::replace(&mut self.mode, Mode::Idle);
        match mode {
            Mode::SlashModal { filter, selected } => {
                let fs = string_from_chars(&filter);
                let filtered = get_filtered_commands(fs.as_str());
                if selected < filtered.len() {
                    let name = filtered[selected].name;
                    assert(name@ == spec_filtered_commands(filter@)[selected as int].name);
                    if is_auto_execute_command(name) {
                        self.input = Vec::new();
                        self.cursor = 0;
                        SlashCommit::Auto(name.to_owned())
                    } else {
                        let mut buf: Vec<char> = Vec::new();
                        buf.push('/');
                        let name_chars = chars_of(name);
                        let mut k: usize = 0;
                        while k < name_chars.len()
                            invariant
                                0 <= k <= name_chars@.len(),
                                buf@ == seq!['/'] + name_chars@.subrange(0, k as int),
                            decreases name_chars@.len() - k,
                        {
                            buf.push(name_chars[k]);
                            assert(buf@ =~= seq!['/'] + name_chars@.subrange(0, k + 1));
                            k = k + 1;
                        }
                        assert(name_chars@.subrange(0, name_chars@.len() as int) =~= name_chars@);
                        buf.push(' ');
                        assert(buf@ =~= seq!['/'] + name@ + seq![' ']);
                        self.cursor = buf.len();
                        self.input = buf;
                        SlashCommit::Prefill(name.to_owned())
                    }
                } else {
                    self.mode = Mode::SlashModal { filter, selected };
                    SlashCommit::Stay
                }
            },
            _ => {
                assert(false);
                SlashCommit::Stay
            },
        }
    }

    /// Applies a fetched session list: an empty list shows an informational
    /// message and does not open the modal; a non-empty list opens the
    /// resume modal over exactly those sessions with the first highlighted.
    pub fn apply_sessions_list(
        &mut self,
        history: &mut Vec<crate::providers::Message>,
        sessions: Vec<ConversationInfo>,
    )
        requires
            old(self).well_formed(),
        ensures
            final(self).well_formed(),
            sessions@.len() == 0 ==> (final(self).mode == old(self).mode
                && crate::providers::spec_msgs(final(history)@) == crate::providers::spec_msgs(
                old(history)@,
            ).push(crate::orchestrator::spec_assistant_msg("No previous conversations found."@))),
            sessions@.len() > 0 ==> (final(self).mode matches Mode::ResumeModal {
                sessions: s,
                selected,
            } && s@ == sessions@ && selected == 0 && crate::providers::spec_msgs(final(history)@)
                == crate::providers::spec_msgs(old(history)@)),
    {
        if sessions.len() == 0 {
            crate::orchestrator::record_assistant(
                history,
                "No previous conversations found.".to_owned(),
            );
        } else {
            self.mode = Mode::ResumeModal { sessions, selected: 0 };
        }
    }

    /// Escape closes the resume modal.
    pub fn resume_escape(&mut self)
        requires
            old(self).well_formed(),
            old(self).mode matches Mode::ResumeModal { .. },
        ensures
            final(self).well_formed(),
            final(self).mode is Idle,
            final(self).input@ == old(self).input@,
    {
        self.mode = Mode::Idle;
    }

    /// Moves the resume-modal highlight up, saturating at the top.
    pub fn resume_up(&mut self)
        requires
            old(self).well_formed(),
            old(self).mode matches Mode::ResumeModal { .. },
        ensures
            final(self).well_formed(),
            old(self).mode matches Mode::ResumeModal { sessions: s0, selected: sel0 } ==> final(self).mode matches Mode::ResumeModal { sessions, selected } && sessions@ == s0@ && selected
                == if sel0 > 0 {
                sel0 - 1
            } else {
                0int
            },
    {
        let mode = core::mem::replace(&mut self.mode, Mode::Idle);
        match mode {
            Mode::ResumeModal { sessions, selected } => {
                let next = if selected > 0 {
                    selected - 1
                } else {
                    0
                };
                self.mode = Mode::ResumeModal { sessions, selected: next };
            },
            _ => {
                assert(false);
            },
        }
    }

    /// Moves the resume-modal highlight down, saturating at the last
    /// session.
    pub fn resume_down(&mut self)
        requires
            old(self).well_formed(),
            old(self).mode matches Mode::ResumeModal { .. },
        ensures
            final(self).well_formed(),
            old(self).mode matches Mode::ResumeModal { sessions: s0, selected: sel0 } ==> final(self).mode matches Mode::ResumeModal { sessions, selected } && sessions@ == s0@ && selected
                as int == if sel0 + 1 < s0@.len() {
                sel0 + 1
            } else {
                s0@.len() - 1
            },
    {
        let mode = core::mem::replace(&mut self.mode, Mode::Idle);
        match mode {
            Mode::ResumeModal { sessions, selected } => {
                let next = if selected < sessions.len() - 1 {
                    selected + 1
                } else {
                    sessions.len() - 1
                };
                self.mode = Mode::ResumeModal { sessions, selected: next };
            },
            _ => {
                assert(false);
            },
        }
    }

    /// Enter in the resume modal commits the highlighted session: the modal
    /// closes and the chosen session's id is handed back to load.
    pub fn resume_enter(&mut self) -> (r: String)
        requires
            old(self).well_formed(),
            old(self).mode matches Mode::ResumeModal { .. },
        ensures
            final(self).well_formed(),
            final(self).mode is Idle,
            old(self).mode matches Mode::ResumeModal { sessions, selected } ==> r@
                == sessions@[selected as int].id@,
    {
        let mode = core::mem::replace(&mut self.mode, Mode::Idle);
        match mode {
            Mode::ResumeModal { sessions, selected } => sessions[selected].id.clone(),
            _ => {
                assert(false);
                String::new()
            },
        }
    }
}

/// Replaces the in-memory transcript wholesale with a loaded session's
/// stored messages; tool fields come back empty, since only roles and
/// content are persisted.
pub fn apply_loaded_session(
    history: &mut Vec<crate::providers::Message>,
    stored: Vec<crate::session::StoredMessage>,
)
    ensures
        final(history)@.map_values(|m: crate::providers::Message| m@) == stored@.map_values(
            |m: crate::session::StoredMessage| m@,
        ).map_values(
            |m: crate::session::StoredMessageView|
                crate::providers::MessageView {
                    role: m.role,
                    content: m.content,
                    tool_calls: None,
                    tool_call_id: None,
                },
    ),
{
    let ghost target = stored@.map_values(|m: crate::session::StoredMessage| m@).map_values(
        |m: crate::session::StoredMessageView|
            crate::providers::MessageView {
                role: m.role,
                content: m.content,
                tool_calls: None,
                tool_call_id: None,
            },
    );
    history.clear();
    let mut i: usize = 0;
    let n = stored.len();
    let mut stored = stored;
    while i < n
        invariant
            0 <= i <= n,
            n == target.len(),
            stored@.len() == n - i,
            forall|j: int|
                0 <= j < stored@.len() ==> target[i + j] == (crate::providers::MessageView {
                    role: (#[trigger] stored@[j]).role@,
                    content: stored@[j].content@,
                    tool_calls: None,
                    tool_call_id: None,
                }),
            history@.map_values(|m: crate::providers::Message| m@) == target.subrange(
                0,
                i as int,
            ),
        decreases n - i,
    {
        let sm = stored.remove(0);
        crate::providers::push_message(
            history,
            crate::providers::Message {
                role: sm.role,
                content: sm.content,
                tool_calls: None,
                tool_call_id: None,
            },
        );
        assert(history@.map_values(|m: crate::providers::Message| m@) =~= target.subrange(
            0,
            i + 1,
        ));
        i = i + 1;
    }
    assert(target.subrange(0, target.len() as int) =~= target);
}

/// The help message: every table entry as `**/name (shortcut)** - description`.
pub open spec fn spec_help_line(c: SlashCommandView) -> Seq<char> {
    "**/"@ + c.name + (match c.shortcut {
        Some(s) => " ("@ + s + ")"@,
        None => Seq::<char>::empty(),
    }) + "** - "@ + c.description
}

/// The whole help message shown by the `help` command.
pub open spec fn spec_help_text() -> Seq<char> {
    "## Available Commands\n\n"@ + crate::text::spec_join(
        spec_slash_table().map_values(|c: SlashCommandView| spec_help_line(c)),
        "\n"@,
    ) + "\n\n*Tip: Type `/` to see command suggestions*"@
}

fn render_help_line(c: &SlashCommand) -> (r: String)
    ensures
        r@ == spec_help_line(c@),
{
    let mut out = String::new();
    out.append("**/");
    out.append(c.name);
    match c.shortcut {
        Some(sc) => {
            out.append(" (");
            out.append(sc);
            out.append(")");
        },
        None => {},
    }
    out.append("** - ");
    out.append(c.description);
    assert(out@ =~= spec_help_line(c@));
    out
}

/// Builds the help message.
pub fn build_help_text() -> (r: String)
    ensures
        r@ == spec_help_text(),
{
    let table = slash_commands();
    let mut lines: Vec<String> = Vec::new();
    let mut i: usize = 0;
    while i < table.len()
        invariant
            0 <= i <= table@.len(),
            table@.map_values(|c: SlashCommand| c@) == spec_slash_table(),
            lines@.len() == i,
            forall|j: int|
                0 <= j < i ==> (#[trigger] lines@[j])@ == spec_help_line(spec_slash_table()[j]),
        decreases table@.len() - i,
    {
        let line = render_help_line(&table[i]);
        proof {
            assert(table@.map_values(|c: SlashCommand| c@)[i as int] == table@[i as int]@);
        }
        lines.push(line);
        i = i + 1;
    }
    proof {
        assert(lines@.map_values(|s: String| s@) =~= spec_slash_table().map_values(
            |c: SlashCommandView| spec_help_line(c),
        ));
    }
    let mut out = String::new();
    out.append("## Available Commands\n\n");
    let joined = crate::text::join_with(&lines, "\n");
    out.append(joined.as_str());
    out.append("\n\n*Tip: Type `/` to see command suggestions*");
    assert(out@ =~= spec_help_text());
    out
}

/// The confirmation shown after changing the index pattern.
pub open spec fn spec_index_set_text(p: Seq<char>) -> Seq<char> {
    "Index pattern changed to **"@ + p + "** for this session"@
}

/// The message shown when `resume` runs without a configured session store.
pub open spec fn spec_resume_unavailable_text() -> Seq<char> {
    "Redis not configured. Set REDIS_URL to enable session persistence."@
}

/// The confirmation shown after switching backends.
pub open spec fn spec_switched_text(name: Seq<char>) -> Seq<char> {
    "Switched to **"@ + name + "** backend"@
}

/// The error shown for a command outside the table.
pub open spec fn spec_unknown_text(cmd: Seq<char>) -> Seq<char> {
    "Unknown command: /"@ + cmd + ". Type /help for available commands."@
}

/// What a recognized slash command asks the surrounding program to do,
/// beyond the transcript entries recorded here.
pub enum CommandOutcome {
    Quit,
    Cleared,
    HelpShown,
    IndexShown,
    IndexSet(String),
    RequestSessions,
    ResumeUnavailable,
    Copy,
    BackendList,
    SwitchBackend(String),
    BackendNotFound,
    Unknown,
    Nothing,
}

/// The words of a submitted command line: the leading slashes dropped, the
/// rest split on whitespace.
pub open spec fn spec_command_words(input: Seq<char>) -> Seq<Seq<char>> {
    crate::text::spec_split_words(crate::text::spec_strip_slashes(input))
}

/// True of the command words and shortcuts the dispatcher recognizes.
pub open spec fn spec_known_command(c: Seq<char>) -> bool {
    ||| c == "quit"@
    ||| c == "q"@
    ||| c == "clear"@
    ||| c == "c"@
    ||| c == "help"@
    ||| c == "h"@
    ||| c == "index"@
    ||| c == "i"@
    ||| c == "resume"@
    ||| c == "r"@
    ||| c == "copy"@
    ||| c == "y"@
    ||| c == "backend"@
    ||| c == "b"@
}

proof fn lemma_command_literals()
    ensures
        "quit"@.len() == 4 && "quit"@[0] == 'q',
        "q"@.len() == 1 && "q"@[0] == 'q',
        "clear"@.len() == 5 && "clear"@[0] == 'c',
        "c"@.len() == 1 && "c"@[0] == 'c',
        "help"@.len() == 4 && "help"@[0] == 'h',
        "h"@.len() == 1 && "h"@[0] == 'h',
        "index"@.len() == 5 && "index"@[0] == 'i',
        "i"@.len() == 1 && "i"@[0] == 'i',
        "resume"@.len() == 6 && "resume"@[0] == 'r',
        "r"@.len() == 1 && "r"@[0] == 'r',
        "copy"@.len() == 4 && "copy"@[0] == 'c',
        "y"@.len() == 1 && "y"@[0] == 'y',
        "backend"@.len() == 7 && "backend"@[0] == 'b',
        "b"@.len() == 1 && "b"@[0] == 'b',
{
    reveal_strlit("quit");
    reveal_strlit("q");
    reveal_strlit("clear");
    reveal_strlit("c");
    reveal_strlit("help");
    reveal_strlit("h");
    reveal_strlit("index");
    reveal_strlit("i");
    reveal_strlit("resume");
    reveal_strlit("r");
    reveal_strlit("copy");
    reveal_strlit("y");
    reveal_strlit("backend");
    reveal_strlit("b");
}

/// Records the confirmation of a completed backend switch; the surrounding
/// program calls this only once the new client stands.
pub fn record_backend_switched(history: &mut Vec<crate::providers::Message>, name: &str)
    ensures
        crate::providers::spec_msgs(final(history)@) == crate::providers::spec_msgs(
            old(history)@,
        ).push(crate::orchestrator::spec_assistant_msg(spec_switched_text(name@))),
{
    let mut text = String::new();
    text.append("Switched to **");
    text.append(name);
    text.append("** backend");
    assert(text@ =~= spec_switched_text(name@));
    crate::orchestrator::record_assistant(history, text);
}

/// Executes one submitted slash command against the engine state and the
/// transcript: auto-executing commands act at once; `backend` and `index`
/// read their argument; anything unrecognized records a visible error. The
/// returned outcome names what the surrounding program must still do.
pub fn dispatch_command(
    state: &mut SessionState,
    history: &mut Vec<crate::providers::Message>,
    input: &str,
    backend_names: &Vec<String>,
    current_backend: &Option<String>,
    has_session_store: bool,
) -> (r: CommandOutcome)
    requires
        old(state).well_formed(),
    ensures
        final(state).well_formed(),
        r is Quit ==> crate::providers::spec_msgs(final(history)@) == crate::providers::spec_msgs(
            old(history)@,
        ),
        r is Cleared ==> final(history)@.len() == 0 && final(state).show_welcome && final(state).scroll_offset == 0,
        r is HelpShown ==> crate::providers::spec_msgs(final(history)@)
            == crate::providers::spec_msgs(old(history)@).push(
            crate::orchestrator::spec_assistant_msg(spec_help_text()),
        ),
        r matches CommandOutcome::IndexSet(p) ==> (final(state).index_pattern matches Some(q)
            && q@ == p@ && crate::providers::spec_msgs(final(history)@)
            == crate::providers::spec_msgs(old(history)@).push(
            crate::orchestrator::spec_assistant_msg(spec_index_set_text(p@)),
        )),
        r is RequestSessions ==> has_session_store && crate::providers::spec_msgs(final(history)@)
            == crate::providers::spec_msgs(old(history)@),
        r is ResumeUnavailable ==> !has_session_store && crate::providers::spec_msgs(
            final(history)@,
        ) == crate::providers::spec_msgs(old(history)@).push(
            crate::orchestrator::spec_error_msg(spec_resume_unavailable_text()),
        ),
        r is Copy ==> crate::providers::spec_msgs(final(history)@) == crate::providers::spec_msgs(
            old(history)@,
        ),
        r matches CommandOutcome::SwitchBackend(n) ==> (crate::tools::spec_vec_has_str(
            backend_names@,
            n@,
        ) && crate::providers::spec_msgs(final(history)@) == crate::providers::spec_msgs(
            old(history)@,
        )),
        r is Unknown || r is BackendNotFound ==> (crate::providers::spec_msgs(final(history)@).len()
            == crate::providers::spec_msgs(old(history)@).len() + 1 && crate::providers::spec_msgs(
            final(history)@,
        ).last().role == "error"@),
        r is IndexShown || r is BackendList ==> (crate::providers::spec_msgs(final(history)@).len()
            == crate::providers::spec_msgs(old(history)@).len() + 1 && crate::providers::spec_msgs(
            final(history)@,
        ).last().role == "assistant"@),
        r is Nothing ==> crate::providers::spec_msgs(final(history)@)
            == crate::providers::spec_msgs(old(history)@),
        ({
            let ws = spec_command_words(input@);
            &&& (ws.len() == 0 ==> r is Nothing)
            &&& (ws.len() > 0 && (ws[0] == "quit"@ || ws[0] == "q"@) ==> r is Quit)
            &&& (ws.len() > 0 && (ws[0] == "clear"@ || ws[0] == "c"@) ==> r is Cleared)
            &&& (ws.len() > 0 && (ws[0] == "help"@ || ws[0] == "h"@) ==> r is HelpShown)
            &&& (ws.len() == 1 && (ws[0] == "index"@ || ws[0] == "i"@) ==> r is IndexShown)
            &&& (ws.len() > 1 && (ws[0] == "index"@ || ws[0] == "i"@) ==> (r matches
            CommandOutcome::IndexSet(p) && p@ == crate::text::spec_join(ws.skip(1), " "@)))
            &&& (ws.len() > 0 && (ws[0] == "resume"@ || ws[0] == "r"@) && has_session_store
                ==> r is RequestSessions)
            &&& (ws.len() > 0 && (ws[0] == "resume"@ || ws[0] == "r"@) && !has_session_store
                ==> r is ResumeUnavailable)
            &&& (ws.len() > 0 && (ws[0] == "copy"@ || ws[0] == "y"@) ==> r is Copy)
            &&& (ws.len() == 1 && (ws[0] == "backend"@ || ws[0] == "b"@) ==> r is BackendList)
            &&& (ws.len() > 1 && (ws[0] == "backend"@ || ws[0] == "b"@)
                && crate::tools::spec_vec_has_str(
                backend_names@,
                crate::level::spec_lower_seq(ws[1]),
            ) ==> (r matches CommandOutcome::SwitchBackend(n) && n@ == crate::level::spec_lower_seq(
                ws[1],
            )))
            &&& (ws.len() > 1 && (ws[0] == "backend"@ || ws[0] == "b"@)
                && !crate::tools::spec_vec_has_str(
                backend_names@,
                crate::level::spec_lower_seq(ws[1]),
            ) ==> r is BackendNotFound)
            &&& (ws.len() > 0 && !spec_known_command(ws[0]) ==> r is Unknown)
        }),
{
    let stripped = crate::text::strip_slashes(input);
    let words = crate::text::split_words(stripped.as_str());
    let ghost ws = spec_command_words(input@);
    proof {
        lemma_command_literals();
        assert(words@.map_values(|w: String| w@) == ws);
        assert(words@.map_values(|w: String| w@).len() == words@.len());
        assert(ws.len() == words@.len());
    }
    if words.len() == 0 {
        return CommandOutcome::Nothing;
    }
    let cmd = &words[0];
    proof {
        assert(words@.map_values(|w: String| w@)[0] == words@[0]@);
        assert(cmd@ == ws[0]);
    }
    if str_eq(cmd.as_str(), "quit") || str_eq(cmd.as_str(), "q") {
        CommandOutcome::Quit
    } else if str_eq(cmd.as_str(), "clear") || str_eq(cmd.as_str(), "c") {
        history.clear();
        state.scroll_offset = 0;
        state.show_welcome = true;
        CommandOutcome::Cleared
    } else if str_eq(cmd.as_str(), "help") || str_eq(cmd.as_str(), "h") {
        let text = build_help_text();
        crate::orchestrator::record_assistant(history, text);
        CommandOutcome::HelpShown
    } else if str_eq(cmd.as_str(), "index") || str_eq(cmd.as_str(), "i") {
        if words.len() == 1 {
            let current = match &state.index_pattern {
                Some(p) => p.clone(),
                None => "not set".to_owned(),
            };
            let mut text = String::new();
            text.append("## Index Pattern\n\nCurrent: **");
            text.append(current.as_str());
            text.append(
                "**\n\n*Usage: `/index <pattern>` to change for this session*\n\n*Example: `/index logs-prod-*`*",
            );
            crate::orchestrator::record_assistant(history, text);
            CommandOutcome::IndexShown
        } else {
            let mut args: Vec<String> = Vec::new();
            let mut k: usize = 1;
            while k < words.len()
                invariant
                    1 <= k <= words@.len(),
                    args@.len() == k - 1,
                    forall|j: int| 0 <= j < k - 1 ==> (#[trigger] args@[j])@ == words@[j + 1]@,
                decreases words@.len() - k,
            {
                args.push(words[k].clone());
                k = k + 1;
            }
            proof {
                assert forall|j: int| 0 <= j < args@.len() implies args@.map_values(
                    |w: String| w@,
                )[j] == #[trigger] ws.skip(1)[j] by {
                    assert(args@.map_values(|w: String| w@)[j] == args@[j]@);
                    assert(words@.map_values(|w: String| w@)[j + 1] == words@[j + 1]@);
                }
                assert(args@.map_values(|w: String| w@) =~= ws.skip(1));
            }
            let pattern = crate::text::join_with(&args, " ");
            state.index_pattern = Some(pattern.clone());
            let mut text = String::new();
            text.append("Index pattern changed to **");
            text.append(pattern.as_str());
            text.append("** for this session");
            assert(text@ =~= spec_index_set_text(pattern@));
            crate::orchestrator::record_assistant(history, text);
            CommandOutcome::IndexSet(pattern)
        }
    } else if str_eq(cmd.as_str(), "resume") || str_eq(cmd.as_str(), "r") {
        if has_session_store {
            CommandOutcome::RequestSessions
        } else {
            crate::orchestrator::record_error(
                history,
                "Redis not configured. Set REDIS_URL to enable session persistence.".to_owned(),
            );
            CommandOutcome::ResumeUnavailable
        }
    } else if str_eq(cmd.as_str(), "copy") || str_eq(cmd.as_str(), "y") {
        CommandOutcome::Copy
    } else if str_eq(cmd.as_str(), "backend") || str_eq(cmd.as_str(), "b") {
        if words.len() == 1 {
            let mut text = String::new();
            text.append("## Log Backends\n\nCurrent: **");
            match current_backend {
                Some(b) => text.append(b.as_str()),
                None => text.append("none"),
            }
            text.append("**\n\nAvailable:\n");
            if backend_names.len() == 0 {
                text.append("No backends configured");
            } else {
                let mut items: Vec<String> = Vec::new();
                let mut k: usize = 0;
                while k < backend_names.len()
                    invariant
                        0 <= k <= backend_names@.len(),
                    decreases backend_names@.len() - k,
                {
                    let mut item = String::new();
                    item.append("- **");
                    item.append(backend_names[k].as_str());
                    item.append("**");
                    let active = match current_backend {
                        Some(b) => str_eq(b.as_str(), backend_names[k].as_str()),
                        None => false,
                    };
                    if active {
                        item.append(" (active)");
                    }
                    items.push(item);
                    k = k + 1;
                }
                let joined = crate::text::join_with(&items, "\n");
                text.append(joined.as_str());
            }
            text.append("\n\n*Usage: `/backend <name>` to switch*");
            crate::orchestrator::record_assistant(history, text);
            CommandOutcome::BackendList
        } else {
            proof {
                assert(words@.map_values(|w: String| w@)[1] == words@[1]@);
            }
            let name = crate::level::lower_ascii(words[1].as_str());
            if crate::tools::vec_contains_str(backend_names, name.as_str()) {
                CommandOutcome::SwitchBackend(name)
            } else {
                let mut text = String::new();
                text.append("Backend '");
                text.append(name.as_str());
                text.append("' not found. Available: ");
                let joined = crate::text::join_with(backend_names, ", ");
                text.append(joined.as_str());
                crate::orchestrator::record_error(history, text);
                CommandOutcome::BackendNotFound
            }
        }
    } else {
        let mut text = String::new();
        text.append("Unknown command: /");
        text.append(cmd.as_str());
        text.append(". Type /help for available commands.");
        assert(text@ =~= spec_unknown_text(cmd@));
        crate::orchestrator::record_error(history, text);
        CommandOutcome::Unknown
    }
}

/// The transcript indices holding non-empty assistant messages, in order.
pub fn assistant_indices(history: &Vec<crate::providers::Message>) -> (r: Vec<usize>)
    ensures
        forall|a: int, b: int| 0 <= a < b < r@.len() ==> (#[trigger] r@[a]) < (#[trigger] r@[b]),
        forall|a: int|
            0 <= a < r@.len() ==> (#[trigger] r@[a]) < history@.len()
                && history@[r@[a] as int]@.role == "assistant"@ && history@[r@[a] as int]@.content.len()
                > 0,
        forall|i: int|
            0 <= i < history@.len() && (#[trigger] history@[i])@.role == "assistant"@
                && history@[i]@.content.len() > 0 ==> r@.contains(i as usize),
{
    let mut out: Vec<usize> = Vec::new();
    let mut i: usize = 0;
    while i < history.len()
        invariant
            0 <= i <= history@.len(),
            forall|a: int, b: int|
                0 <= a < b < out@.len() ==> (#[trigger] out@[a]) < (#[trigger] out@[b]),
            forall|a: int|
                0 <= a < out@.len() ==> (#[trigger] out@[a]) < i
                    && history@[out@[a] as int]@.role == "assistant"@
                    && history@[out@[a] as int]@.content.len() > 0,
            forall|j: int|
                0 <= j < i && (#[trigger] history@[j])@.role == "assistant"@
                    && history@[j]@.content.len() > 0 ==> out@.contains(j as usize),
        decreases history@.len() - i,
    {
        let m = &history[i];
        let ghost old_out = out@;
        if str_eq(m.role.as_str(), "assistant") && !m.content.as_str().is_empty() {
            out.push(i);
            assert(out@[out@.len() - 1] == i);
            proof {
                assert forall|j: int|
                    0 <= j <= i && (#[trigger] history@[j])@.role == "assistant"@
                        && history@[j]@.content.len() > 0 implies out@.contains(j as usize) by {
                    if j < i {
                        let k = choose|k: int| 0 <= k < old_out.len() && old_out[k] == j as usize;
                        assert(out@[k] == j as usize);
                    } else {
                        assert(out@[out@.len() - 1] == j as usize);
                    }
                }
            }
        }
        i = i + 1;
    }
    out
}

/// The clipboard text for a copied exchange: the prompt and the response
/// under their headings, or the response alone when no prompt precedes it.
pub open spec fn spec_copy_text(prompt: Option<Seq<char>>, response: Seq<char>) -> Seq<char> {
    match prompt {
        Some(p) => "## Prompt\n\n"@ + p + "\n\n## Response\n\n"@ + response,
        None => response,
    }
}

/// Formats a copied exchange for the clipboard.
pub fn build_copy_text(prompt: &Option<String>, response: &str) -> (r: String)
    ensures
        r@ == spec_copy_text(crate::backends::view_opt(*prompt), response@),
{
    match prompt {
        Some(p) => {
            let mut out = String::new();
            out.append("## Prompt\n\n");
            out.append(p.as_str());
            out.append("\n\n## Response\n\n");
            out.append(response);
            assert(out@ =~= spec_copy_text(crate::backends::view_opt(*prompt), response@));
            out
        },
        None => response.to_owned(),
    }
}


/// Cycles the assistant-message selection backwards: with no selection the
/// last assistant message is selected; otherwise the nearest earlier one,
/// wrapping to the last; with no assistant messages nothing changes.
pub fn select_previous(selected: Option<usize>, indices: &Vec<usize>) -> (r: Option<usize>)
    ensures
        indices@.len() == 0 ==> r == selected,
        indices@.len() > 0 ==> (r matches Some(j) && indices@.contains(j)),
{
    if indices.len() == 0 {
        return selected;
    }
    let last = indices[indices.len() - 1];
    assert(indices@.contains(last));
    match selected {
        None => Some(last),
        Some(cur) => {
            let mut i: usize = indices.len();
            while i > 0
                invariant
                    0 <= i <= indices@.len(),
                decreases i,
            {
                i = i - 1;
                if indices[i] < cur {
                    let found = indices[i];
                    assert(indices@.contains(found));
                    return Some(found);
                }
            }
            Some(last)
        },
    }
}

/// Cycles the assistant-message selection forwards: with no selection the
/// first assistant message is selected; otherwise the nearest later one,
/// wrapping to the first; with no assistant messages nothing changes.
pub fn select_next(selected: Option<usize>, indices: &Vec<usize>) -> (r: Option<usize>)
    ensures
        indices@.len() == 0 ==> r == selected,
        indices@.len() > 0 ==> (r matches Some(j) && indices@.contains(j)),
{
    if indices.len() == 0 {
        return selected;
    }
    let first = indices[0];
    assert(indices@.contains(first));
    match selected {
        None => Some(first),
        Some(cur) => {
            let mut i: usize = 0;
            while i < indices.len()
                invariant
                    0 <= i <= indices@.len(),
                decreases indices@.len() - i,
            {
                if indices[i] > cur {
                    let found = indices[i];
                    assert(indices@.contains(found));
                    return Some(found);
                }
                i = i + 1;
            }
            Some(first)
        },
    }
}

} // verus!

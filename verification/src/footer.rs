//! The footer pane: the command line that claims key input in command
//! mode, commits or cancels with a structured result, cycles a bounded ring
//! of prior commands, and shows the status line otherwise.

use vstd::prelude::*;
use vstd::string::*;
use crate::action::{Action, EventResponse, Key};
use crate::state::{InputMode, State, strs_view, next_index, prev_index};

verus! {

/// How many prior commands the ring keeps.
pub const MAX_COMMAND_HISTORY: usize = 20;

/// The footer pane.
#[derive(Debug)]
pub struct FooterPane {
    pub focused: bool,
    pub input: String,
    pub command: String,
    pub status_line: String,
    pub timed_status_line: Option<(String, u64, u64)>,
    pub command_history: Vec<String>,
    pub command_history_index: Option<usize>,
}

/// Spec image of the footer: the timed status line is its text, its show
/// time in seconds and the second it was created.
#[verifier::ext_equal]
pub struct FooterModel {
    pub focused: bool,
    pub input: Seq<char>,
    pub command: Seq<char>,
    pub status_line: Seq<char>,
    pub timed: Option<(Seq<char>, u64, u64)>,
    pub history: Seq<Seq<char>>,
    pub hist_index: Option<int>,
}

impl View for FooterPane {
    type V = FooterModel;

    open spec fn view(&self) -> FooterModel {
        FooterModel {
            focused: self.focused,
            input: self.input@,
            command: self.command@,
            status_line: self.status_line@,
            timed: match self.timed_status_line {
                Option::None => None,
                Option::Some(t) => Some((t.0@, t.1, t.2)),
            },
            history: strs_view(self.command_history@),
            hist_index: match self.command_history_index {
                Option::None => None,
                Option::Some(i) => Some(i as int),
            },
        }
    }
}

/// The footer state after one key press in command mode: enter remembers a
/// non-empty line at the front of the bounded ring, escape forgets the ring
/// position, up and down cycle the ring into the line, and typing edits the
/// line. Keys outside command mode leave the footer alone.
pub open spec fn footer_key_model(m: FooterModel, key: Key, mode: InputMode) -> FooterModel {
    if mode != InputMode::Command {
        m
    } else {
        match key {
            Key::Enter => FooterModel {
                history: if m.input.len() > 0 {
                    (seq![m.input] + m.history).take(vstd::math::min(
                        m.history.len() as int + 1,
                        MAX_COMMAND_HISTORY as int,
                    ))
                } else {
                    m.history
                },
                hist_index: if m.input.len() > 0 {
                    None
                } else {
                    m.hist_index
                },
                ..m
            },
            Key::Esc => FooterModel { hist_index: None, ..m },
            Key::Up => {
                if m.history.len() > 0 {
                    let pos = match m.hist_index {
                        Option::Some(i) => next_index(i, m.history.len() as int),
                        Option::None => 0int,
                    };
                    FooterModel { input: m.history[pos], hist_index: Some(pos), ..m }
                } else {
                    m
                }
            },
            Key::Down => {
                if m.history.len() > 0 {
                    let pos = match m.hist_index {
                        Option::Some(i) => prev_index(i, m.history.len() as int),
                        Option::None => m.history.len() as int - 1,
                    };
                    FooterModel { input: m.history[pos], hist_index: Some(pos), ..m }
                } else {
                    m
                }
            },
            Key::Char(c) => FooterModel { input: m.input.push(c), ..m },
            Key::Backspace => FooterModel {
                input: if m.input.len() > 0 {
                    m.input.drop_last()
                } else {
                    m.input
                },
                ..m
            },
            _ => m,
        }
    }
}

/// What the footer answers to one key press: in command mode, enter commits
/// the line as a footer result and escape cancels with an empty one; every
/// other key, and every key outside command mode, passes through.
pub open spec fn footer_key_matches(m: FooterModel, key: Key, mode: InputMode, r: Option<EventResponse<Action>>) -> bool {
    if mode != InputMode::Command {
        r is None
    } else {
        match key {
            Key::Enter => (r matches Some(EventResponse::Stop(Action::FooterResult(c, a)))
                && c@ == m.command && (a matches Some(line) && line@ == m.input)),
            Key::Esc => (r matches Some(EventResponse::Stop(Action::FooterResult(c, a)))
                && c@ == m.command && a is None),
            _ => r is None,
        }
    }
}

impl FooterPane {
    /// A fresh, unfocused footer.
    pub fn new() -> (r: FooterPane)
        ensures
            r@.focused == false,
            r@.input == Seq::<char>::empty(),
            r@.command == Seq::<char>::empty(),
            r@.status_line == Seq::<char>::empty(),
            r@.timed is None,
            r@.history == Seq::<Seq<char>>::empty(),
            r@.hist_index is None,
    {
        let r = FooterPane {
            focused: false,
            input: String::new(),
            command: String::new(),
            status_line: String::new(),
            timed_status_line: None,
            command_history: Vec::new(),
            command_history_index: None,
        };
        proof {
            assert(r@.history =~= Seq::<Seq<char>>::empty());
        }
        r
    }

    /// Interpret one key press while the footer holds command mode: typing
    /// edits the line, enter commits it as a footer result and remembers a
    /// non-empty line at the front of the bounded ring, escape cancels, and
    /// up and down cycle the ring into the line. Keys outside command mode
    /// pass through.
    pub fn handle_key(&mut self, key: Key, state: &State) -> (r: Option<EventResponse<Action>>)
        ensures
            final(self)@ == footer_key_model(old(self)@, key, state.input_mode),
            footer_key_matches(old(self)@, key, state.input_mode, r),
    {
        let ghost m0 = self@;
        if !matches!(state.input_mode, InputMode::Command) {
            return None;
        }
        match key {
            Key::Enter => {
                let committed = self.input.clone();
                if committed.as_str().unicode_len() > 0 {
                    let ghost h0 = self.command_history@;
                    self.command_history.insert(0, self.input.clone());
                    proof {
                        assert(strs_view(self.command_history@)
                            =~= seq![m0.input] + m0.history);
                    }
                    self.command_history.truncate(MAX_COMMAND_HISTORY);
                    self.command_history_index = None;
                    proof {
                        assert(strs_view(self.command_history@)
                            =~= (seq![m0.input] + m0.history).take(vstd::math::min(
                                m0.history.len() as int + 1,
                                MAX_COMMAND_HISTORY as int,
                            )));
                        assert(self@ =~~= (FooterModel {
                            history: (seq![m0.input] + m0.history).take(vstd::math::min(
                                m0.history.len() as int + 1,
                                MAX_COMMAND_HISTORY as int,
                            )),
                            hist_index: None,
                            ..m0
                        }));
                    }
                }
                Some(EventResponse::Stop(Action::FooterResult(self.command.clone(), Some(committed))))
            },
            Key::Esc => {
                self.command_history_index = None;
                Some(EventResponse::Stop(Action::FooterResult(self.command.clone(), None)))
            },
            Key::Up => {
                let n = self.command_history.len();
                if n > 0 {
                    let pos = match self.command_history_index {
                        Some(i) => {
                            let c = i % n;
                            if c == n - 1 {
                                0
                            } else {
                                c + 1
                            }
                        },
                        None => 0,
                    };
                    self.input = self.command_history[pos].clone();
                    self.command_history_index = Some(pos);
                    proof {
                        assert(m0.history[pos as int] == self.command_history@[pos as int]@);
                    }
                }
                None
            },
            Key::Down => {
                let n = self.command_history.len();
                if n > 0 {
                    let pos = match self.command_history_index {
                        Some(i) => {
                            let c = i % n;
                            if c == 0 {
                                n - 1
                            } else {
                                c - 1
                            }
                        },
                        None => n - 1,
                    };
                    self.input = self.command_history[pos].clone();
                    self.command_history_index = Some(pos);
                    proof {
                        assert(m0.history[pos as int] == self.command_history@[pos as int]@);
                    }
                }
                None
            },
            Key::Char(c) => {
                crate::text::push_char(&mut self.input, c);
                None
            },
            Key::Backspace => {
                crate::text::pop_char(&mut self.input);
                None
            },
            _ => None,
        }
    }

    /// Apply one action: taking footer focus claims command mode and seeds
    /// the line, a footer result releases both, and status-line actions
    /// install their text; `now` is the current time in seconds, stamped
    /// onto timed status lines.
    pub fn update(&mut self, action: &Action, state: &mut State, now: u64) -> (r: Option<Action>)
        ensures
            final(state).openapi_operations == old(state).openapi_operations,
            final(state).active_operation_index == old(state).active_operation_index,
            final(state).active_tag_name == old(state).active_tag_name,
            final(state).active_filter == old(state).active_filter,
            final(state).responses == old(state).responses,
            final(state).servers == old(state).servers,
            final(state).tags == old(state).tags,
            final(state).openapi_input_source == old(state).openapi_input_source,
            match *action {
                Action::FocusFooter(cmd, args) => {
                    &&& final(self)@ == (FooterModel {
                        focused: true,
                        input: match args {
                            Option::Some(a) => a@,
                            Option::None => Seq::<char>::empty(),
                        },
                        command: cmd@,
                        ..old(self)@
                    })
                    &&& final(state).input_mode == InputMode::Command
                    &&& r == Some(Action::Update)
                },
                Action::FooterResult(_, _) => {
                    &&& final(self)@ == (FooterModel { focused: false, ..old(self)@ })
                    &&& final(state).input_mode == InputMode::Normal
                    &&& r == Some(Action::Update)
                },
                Action::StatusLine(s) => final(self)@ == (FooterModel {
                    status_line: s@,
                    ..old(self)@
                }) && final(state).input_mode == old(state).input_mode && r is None,
                Action::TimedStatusLine(s, t) => final(self)@ == (FooterModel {
                    timed: Some((s@, t, now)),
                    ..old(self)@
                }) && final(state).input_mode == old(state).input_mode && r is None,
                _ => final(self)@ == old(self)@
                    && final(state).input_mode == old(state).input_mode && r is None,
            },
    {
        let ghost m0 = self@;
        match action {
            Action::FocusFooter(cmd, args) => {
                self.focused = true;
                state.input_mode = InputMode::Command;
                match args {
                    Some(a) => {
                        self.input = a.clone();
                    },
                    None => {
                        self.input = String::new();
                    },
                }
                self.command = cmd.clone();
                Some(Action::Update)
            },
            Action::FooterResult(_, _) => {
                state.input_mode = InputMode::Normal;
                self.focused = false;
                Some(Action::Update)
            },
            Action::StatusLine(s) => {
                self.status_line = s.clone();
                None
            },
            Action::TimedStatusLine(s, t) => {
                self.timed_status_line = Some((s.clone(), *t, now));
                None
            },
            _ => None,
        }
    }

    /// The status line to show at `now`: the timed line while it is fresh,
    /// the plain line otherwise.
    pub fn status_line_text(&self, now: u64) -> (r: &String)
        ensures
            match self@.timed {
                Option::Some(t) => {
                    if now >= t.2 && now - t.2 < t.1 {
                        r@ == t.0
                    } else {
                        r@ == self@.status_line
                    }
                },
                Option::None => r@ == self@.status_line,
            },
    {
        match &self.timed_status_line {
            Some(t) => {
                if now >= t.2 && now - t.2 < t.1 {
                    &t.0
                } else {
                    &self.status_line
                }
            },
            None => &self.status_line,
        }
    }
}

} // verus!

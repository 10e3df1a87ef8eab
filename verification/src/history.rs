//! The history popup: the suspended sessions offered for resumption, a
//! circular selection over them, and the keys that pick or dismiss one.

use vstd::prelude::*;
use vstd::string::*;
use crate::action::{Action, EventResponse, Key};
use crate::state::{InputMode, next_index, prev_index};

verus! {

/// One selectable entry of the history popup.
#[derive(Debug)]
pub struct OperationHistoryItem {
    pub operation_id: String,
    pub method: String,
    pub path: String,
}

/// The history popup pane.
#[derive(Debug)]
pub struct HistoryPane {
    pub history: Vec<OperationHistoryItem>,
    pub history_item_index: Option<usize>,
}

/// Spec image of one entry.
#[verifier::ext_equal]
pub struct HistoryItemModel {
    pub operation_id: Seq<char>,
    pub method: Seq<char>,
    pub path: Seq<char>,
}

impl View for OperationHistoryItem {
    type V = HistoryItemModel;

    open spec fn view(&self) -> HistoryItemModel {
        HistoryItemModel {
            operation_id: self.operation_id@,
            method: self.method@,
            path: self.path@,
        }
    }
}

/// Spec image of the popup.
#[verifier::ext_equal]
pub struct HistoryModel {
    pub items: Seq<HistoryItemModel>,
    pub index: Option<int>,
}

impl View for HistoryPane {
    type V = HistoryModel;

    open spec fn view(&self) -> HistoryModel {
        HistoryModel {
            items: self.history@.map_values(|it: OperationHistoryItem| it@),
            index: match self.history_item_index {
                Option::None => None,
                Option::Some(i) => Some(i as int),
            },
        }
    }
}

/// What the history popup answers to one key press: movement, closing, a
/// resumption on the selected entry, and a swallow for everything else so
/// the page beneath stays frozen.
pub open spec fn history_key_matches(m: HistoryModel, key: Key, mode: InputMode, r: Option<EventResponse<Action>>) -> bool {
    if mode == InputMode::Normal {
        match key {
            Key::Down => r == Some(EventResponse::Stop(Action::Down)),
            Key::Up => r == Some(EventResponse::Stop(Action::Up)),
            Key::Esc => r == Some(EventResponse::Stop(Action::CloseHistory)),
            Key::Enter => (match m.index {
                Option::Some(i) => {
                    if 0 <= i < m.items.len() {
                        (r matches Some(EventResponse::Stop(Action::NewCall(Some(id))))
                            && id@ == m.items[i].operation_id)
                    } else {
                        (r matches Some(EventResponse::Stop(Action::NewCall(x)))
                            && x is None)
                    }
                },
                Option::None => r == Some(EventResponse::Stop(Action::Noop)),
            }),
            Key::Char(c) => {
                if c == 'j' || c == 'J' {
                    r == Some(EventResponse::Stop(Action::Down))
                } else if c == 'k' || c == 'K' {
                    r == Some(EventResponse::Stop(Action::Up))
                } else {
                    r == Some(EventResponse::Stop(Action::Noop))
                }
            },
            _ => r == Some(EventResponse::Stop(Action::Noop)),
        }
    } else {
        r == Some(EventResponse::Stop(Action::Noop))
    }
}

impl HistoryPane {
    /// A popup over the given entries, the first selected when any exists.
    pub fn new(history: Vec<OperationHistoryItem>) -> (r: HistoryPane)
        ensures
            r@.items == history@.map_values(|it: OperationHistoryItem| it@),
            history@.len() == 0 ==> r@.index is None,
            history@.len() > 0 ==> r@.index == Some(0int),
    {
        let history_item_index = if history.len() > 0 {
            Some(0usize)
        } else {
            None
        };
        HistoryPane { history, history_item_index }
    }

    /// Apply one action: up and down move the selection circularly and ask
    /// for a refresh.
    pub fn update(&mut self, action: &Action) -> (r: Option<Action>)
        ensures
            match *action {
                Action::Down => r == Some(Action::Update)
                    && final(self)@ == (HistoryModel {
                        index: if old(self)@.items.len() == 0 {
                            None
                        } else {
                            match old(self)@.index {
                                Option::Some(i) => Some(next_index(i, old(self)@.items.len() as int)),
                                Option::None => None,
                            }
                        },
                        ..old(self)@
                    }),
                Action::Up => r == Some(Action::Update)
                    && final(self)@ == (HistoryModel {
                        index: if old(self)@.items.len() == 0 {
                            None
                        } else {
                            match old(self)@.index {
                                Option::Some(i) => Some(prev_index(i, old(self)@.items.len() as int)),
                                Option::None => None,
                            }
                        },
                        ..old(self)@
                    }),
                _ => final(self)@ == old(self)@ && r is None,
            },
    {
        let ghost m0 = self@;
        match action {
            Action::Down => {
                let n = self.history.len();
                if n > 0 {
                    match self.history_item_index {
                        Some(i) => {
                            let c = i % n;
                            self.history_item_index = Some(if c == n - 1 { 0 } else { c + 1 });
                        },
                        None => {},
                    }
                } else {
                    self.history_item_index = None;
                }
                proof {
                    assert(self@ =~~= (HistoryModel {
                        index: if m0.items.len() == 0 {
                            None
                        } else {
                            match m0.index {
                                Option::Some(i) => Some(next_index(i, m0.items.len() as int)),
                                Option::None => None,
                            }
                        },
                        ..m0
                    }));
                }
                Some(Action::Update)
            },
            Action::Up => {
                let n = self.history.len();
                if n > 0 {
                    match self.history_item_index {
                        Some(i) => {
                            let c = i % n;
                            self.history_item_index = Some(if c == 0 { n - 1 } else { c - 1 });
                        },
                        None => {},
                    }
                } else {
                    self.history_item_index = None;
                }
                proof {
                    assert(self@ =~~= (HistoryModel {
                        index: if m0.items.len() == 0 {
                            None
                        } else {
                            match m0.index {
                                Option::Some(i) => Some(prev_index(i, m0.items.len() as int)),
                                Option::None => None,
                            }
                        },
                        ..m0
                    }));
                }
                Some(Action::Update)
            },
            _ => None,
        }
    }

    /// Interpret one key press while the popup is open: movement keys move,
    /// escape closes, enter resumes the selected session, and everything
    /// else is swallowed so the page beneath stays frozen.
    pub fn handle_key(&self, key: Key, mode: InputMode) -> (r: Option<EventResponse<Action>>)
        ensures
            history_key_matches(self@, key, mode, r),
    {
        match mode {
            InputMode::Normal => {
                match key {
                    Key::Down => Some(EventResponse::Stop(Action::Down)),
                    Key::Up => Some(EventResponse::Stop(Action::Up)),
                    Key::Esc => Some(EventResponse::Stop(Action::CloseHistory)),
                    Key::Enter => {
                        match self.history_item_index {
                            Some(i) => {
                                if i < self.history.len() {
                                    Some(EventResponse::Stop(Action::NewCall(Some(
                                        self.history[i].operation_id.clone(),
                                    ))))
                                } else {
                                    Some(EventResponse::Stop(Action::NewCall(None)))
                                }
                            },
                            None => Some(EventResponse::Stop(Action::Noop)),
                        }
                    },
                    Key::Char(c) => {
                        if c == 'j' || c == 'J' {
                            Some(EventResponse::Stop(Action::Down))
                        } else if c == 'k' || c == 'K' {
                            Some(EventResponse::Stop(Action::Up))
                        } else {
                            Some(EventResponse::Stop(Action::Noop))
                        }
                    },
                    _ => Some(EventResponse::Stop(Action::Noop)),
                }
            },
            _ => Some(EventResponse::Stop(Action::Noop)),
        }
    }
}

} // verus!

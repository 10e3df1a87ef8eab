//! The tags pane: a circular selection over the document's tags with a
//! leading all-tags entry; moving it installs the tag filter and resets the
//! catalog selection.

use vstd::prelude::*;
use vstd::string::*;
use crate::action::Action;
use crate::state::{State, next_index, prev_index};

verus! {

/// The tags pane.
#[derive(Debug)]
pub struct TagsPane {
    pub focused: bool,
    pub current_tag_index: usize,
}

/// Spec image of the pane.
#[verifier::ext_equal]
pub struct TagsModel {
    pub focused: bool,
    pub current: int,
}

impl View for TagsPane {
    type V = TagsModel;

    open spec fn view(&self) -> TagsModel {
        TagsModel { focused: self.focused, current: self.current_tag_index as int }
    }
}

/// The tag installed for one list position: the leading entry clears the
/// tag, every other position names the tag before it.
pub open spec fn tag_at(st: State, pos: int) -> Option<String> {
    if 1 <= pos <= st.tags@.len() {
        Some(st.tags@[pos - 1])
    } else {
        None
    }
}

/// One pane step: the next pane state and shared state after an action.
pub open spec fn tags_step(m: TagsModel, a: Action, st: State) -> (TagsModel, State) {
    match a {
        Action::Down => {
            let pos = next_index(m.current, st.tags@.len() as int + 1);
            (TagsModel { current: pos, ..m }, State {
                active_tag_name: tag_at(st, pos),
                active_operation_index: 0,
                ..st
            })
        },
        Action::Up => {
            let pos = prev_index(m.current, st.tags@.len() as int + 1);
            (TagsModel { current: pos, ..m }, State {
                active_tag_name: tag_at(st, pos),
                active_operation_index: 0,
                ..st
            })
        },
        Action::Focus => (TagsModel { focused: true, ..m }, st),
        Action::UnFocus => (TagsModel { focused: false, ..m }, st),
        _ => (m, st),
    }
}

impl TagsPane {
    /// A fresh pane with the all-tags entry selected.
    pub fn new(focused: bool) -> (r: TagsPane)
        ensures
            r@.focused == focused,
            r@.current == 0,
    {
        TagsPane { focused, current_tag_index: 0 }
    }

    /// Apply one action: up and down move over the list of the all-tags
    /// entry followed by the document's tags, install the tag at the new
    /// position, reset the selection and ask for a refresh.
    pub fn update(&mut self, action: &Action, state: &mut State) -> (r: Option<Action>)
        requires
            old(state).tags@.len() < usize::MAX,
        ensures
            (final(self)@, *final(state)) == tags_step(old(self)@, *action, *old(state)),
            match *action {
                Action::Down => r == Some(Action::Update),
                Action::Up => r == Some(Action::Update),
                _ => r is None,
            },
    {
        match action {
            Action::Down => {
                let n = self.tag_count(state);
                let c = self.current_tag_index % n;
                self.current_tag_index = if c == n - 1 {
                    0
                } else {
                    c + 1
                };
                self.install_tag(state);
                Some(Action::Update)
            },
            Action::Up => {
                let n = self.tag_count(state);
                let c = self.current_tag_index % n;
                self.current_tag_index = if c == 0 {
                    n - 1
                } else {
                    c - 1
                };
                self.install_tag(state);
                Some(Action::Update)
            },
            Action::Focus => {
                self.focused = true;
                None
            },
            Action::UnFocus => {
                self.focused = false;
                None
            },
            _ => None,
        }
    }

    /// The length of the displayed list: the all-tags entry plus the tags.
    fn tag_count(&self, state: &State) -> (n: usize)
        requires
            state.tags@.len() < usize::MAX,
        ensures
            n == state.tags@.len() + 1,
    {
        state.tags.len() + 1
    }

    /// Install the tag the selection rests on and reset the catalog
    /// selection.
    fn install_tag(&self, state: &mut State)
        ensures
            *final(state) == (State {
                active_tag_name: tag_at(*old(state), self@.current),
                active_operation_index: 0,
                ..*old(state)
            }),
    {
        if self.current_tag_index >= 1 && self.current_tag_index <= state.tags.len() {
            let t = state.tags[self.current_tag_index - 1].clone();
            state.set_tag(Some(t));
        } else {
            state.set_tag(None);
        }
    }
}

} // verus!

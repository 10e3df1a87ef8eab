//! The operations list pane: it moves the catalog selection circularly over
//! the visible operations and mirrors the selection for display.

use vstd::prelude::*;
use vstd::string::*;
use crate::action::Action;
use crate::state::{State, next_index, prev_index};

verus! {

/// The operations list pane.
#[derive(Debug)]
pub struct ApisPane {
    pub focused: bool,
    pub current_operation_index: usize,
}

/// Spec image of the pane.
#[verifier::ext_equal]
pub struct ApisModel {
    pub focused: bool,
    pub current: int,
}

impl View for ApisPane {
    type V = ApisModel;

    open spec fn view(&self) -> ApisModel {
        ApisModel { focused: self.focused, current: self.current_operation_index as int }
    }
}

/// One pane step: the next pane state and shared state after an action.
pub open spec fn apis_step(m: ApisModel, a: Action, st: State) -> (ApisModel, State) {
    match a {
        Action::Down => {
            let st2 = State {
                active_operation_index: if st.visible().len() == 0 {
                    st.active_operation_index
                } else {
                    next_index(
                        st.active_operation_index as int,
                        st.visible().len() as int,
                    ) as usize
                },
                ..st
            };
            (ApisModel { current: st2.active_operation_index as int, ..m }, st2)
        },
        Action::Up => {
            let st2 = State {
                active_operation_index: if st.visible().len() == 0 {
                    st.active_operation_index
                } else {
                    prev_index(
                        st.active_operation_index as int,
                        st.visible().len() as int,
                    ) as usize
                },
                ..st
            };
            (ApisModel { current: st2.active_operation_index as int, ..m }, st2)
        },
        Action::Update => (ApisModel { current: st.active_operation_index as int, ..m }, st),
        Action::Focus => (ApisModel { focused: true, ..m }, st),
        Action::UnFocus => (ApisModel { focused: false, ..m }, st),
        _ => (m, st),
    }
}

impl ApisPane {
    /// A fresh pane with the selection mirror at the top.
    pub fn new(focused: bool) -> (r: ApisPane)
        ensures
            r@.focused == focused,
            r@.current == 0,
    {
        ApisPane { focused, current_operation_index: 0 }
    }

    /// Apply one action: up and down move the catalog selection circularly
    /// over the visible operations and ask for a refresh; a refresh syncs
    /// the mirror with the catalog.
    pub fn update(&mut self, action: &Action, state: &mut State) -> (r: Option<Action>)
        ensures
            (final(self)@, *final(state)) == apis_step(old(self)@, *action, *old(state)),
            match *action {
                Action::Down => r == Some(Action::Update),
                Action::Up => r == Some(Action::Update),
                _ => r is None,
            },
    {
        let ghost m0 = self@;
        match action {
            Action::Down => {
                state.next_operation();
                self.current_operation_index = state.active_operation_index;
                Some(Action::Update)
            },
            Action::Up => {
                state.prev_operation();
                self.current_operation_index = state.active_operation_index;
                Some(Action::Update)
            },
            Action::Update => {
                self.current_operation_index = state.active_operation_index;
                None
            },
            Action::Focus => {
                self.focused = true;
                None
            },
            Action::UnFocus => {
                self.focused = false;
                None
            },
            _ => None,
        }
    }
}

} // verus!

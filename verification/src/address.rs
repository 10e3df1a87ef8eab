//! The address pane: the ring of candidate base URLs, rotated up and down,
//! whose front is prepended to the operation path when a request is built.

use vstd::prelude::*;
use vstd::string::*;
use crate::action::Action;
use crate::state::strs_view;

verus! {

/// The address pane.
#[derive(Debug)]
pub struct AddressPane {
    pub focused: bool,
    pub base_urls: Vec<String>,
}

/// Spec image of the address pane.
#[verifier::ext_equal]
pub struct AddressModel {
    pub focused: bool,
    pub base_urls: Seq<Seq<char>>,
}

impl View for AddressPane {
    type V = AddressModel;

    open spec fn view(&self) -> AddressModel {
        AddressModel { focused: self.focused, base_urls: strs_view(self.base_urls@) }
    }
}

/// The active base URL: the front of the ring, empty when the ring is.
pub open spec fn front_url(m: AddressModel) -> Seq<char> {
    if m.base_urls.len() > 0 {
        m.base_urls[0]
    } else {
        Seq::empty()
    }
}

/// One address-pane step: focus changes and ring rotation.
pub open spec fn addr_step(m: AddressModel, a: Action) -> AddressModel {
    match a {
        Action::Focus => AddressModel { focused: true, ..m },
        Action::UnFocus => AddressModel { focused: false, ..m },
        Action::Up => {
            if m.base_urls.len() > 0 {
                AddressModel { base_urls: m.base_urls.skip(1) + seq![m.base_urls[0]], ..m }
            } else {
                m
            }
        },
        Action::Down => {
            if m.base_urls.len() > 0 {
                AddressModel {
                    base_urls: seq![m.base_urls.last()] + m.base_urls.drop_last(),
                    ..m
                }
            } else {
                m
            }
        },
        _ => m,
    }
}

impl AddressPane {
    /// A fresh pane with an empty ring.
    pub fn new(focused: bool) -> (r: AddressPane)
        ensures
            r@.focused == focused,
            r@.base_urls == Seq::<Seq<char>>::empty(),
    {
        let r = AddressPane { focused, base_urls: Vec::new() };
        proof {
            assert(r@.base_urls =~= Seq::<Seq<char>>::empty());
        }
        r
    }

    /// Install the candidate base URLs.
    pub fn set_base_urls(&mut self, urls: Vec<String>)
        ensures
            final(self)@.base_urls == strs_view(urls@),
            final(self)@.focused == old(self)@.focused,
    {
        self.base_urls = urls;
    }

    /// Rotate the ring forward: the front URL moves to the back.
    pub fn rotate_up(&mut self)
        ensures
            old(self)@.base_urls.len() == 0 ==> final(self)@ == old(self)@,
            old(self)@.base_urls.len() > 0 ==> final(self)@ == (AddressModel {
                base_urls: old(self)@.base_urls.skip(1)
                    + seq![old(self)@.base_urls[0]],
                ..old(self)@
            }),
    {
        let ghost m0 = self@;
        if self.base_urls.len() > 0 {
            let front = self.base_urls.remove(0);
            self.base_urls.push(front);
            proof {
                assert(self@.base_urls =~= m0.base_urls.skip(1) + seq![m0.base_urls[0]]);
                assert(self@ =~~= (AddressModel {
                    base_urls: m0.base_urls.skip(1) + seq![m0.base_urls[0]],
                    ..m0
                }));
            }
        } else {
            proof {
                assert(self@ =~~= m0);
            }
        }
    }

    /// Rotate the ring backward: the back URL moves to the front.
    pub fn rotate_down(&mut self)
        ensures
            old(self)@.base_urls.len() == 0 ==> final(self)@ == old(self)@,
            old(self)@.base_urls.len() > 0 ==> final(self)@ == (AddressModel {
                base_urls: seq![old(self)@.base_urls.last()]
                    + old(self)@.base_urls.drop_last(),
                ..old(self)@
            }),
    {
        let ghost m0 = self@;
        if self.base_urls.len() > 0 {
            let back = self.base_urls.pop().unwrap();
            self.base_urls.insert(0, back);
            proof {
                assert(self@.base_urls =~= seq![m0.base_urls.last()] + m0.base_urls.drop_last());
                assert(self@ =~~= (AddressModel {
                    base_urls: seq![m0.base_urls.last()] + m0.base_urls.drop_last(),
                    ..m0
                }));
            }
        } else {
            proof {
                assert(self@ =~~= m0);
            }
        }
    }

    /// The active base URL prepended to a path.
    pub fn path(&self, url: &str) -> (r: String)
        ensures
            r@ == front_url(self@) + url@,
    {
        if self.base_urls.len() > 0 {
            let mut r = self.base_urls[0].clone();
            r.append(url);
            r
        } else {
            let r = String::from_str(url);
            proof {
                assert(Seq::<char>::empty() + url@ =~= url@);
            }
            r
        }
    }

    /// Apply one action to the address pane: focus changes and ring
    /// rotation; focusing emits a transient status-line hint.
    pub fn update(&mut self, action: &Action) -> (r: Option<Action>)
        ensures
            final(self)@ == addr_step(old(self)@, *action),
            match *action {
                Action::Focus => (r matches Some(a) && a is TimedStatusLine),
                _ => r is None,
            },
    {
        let ghost m0 = self@;
        match action {
            Action::Focus => {
                self.focused = true;
                proof {
                    assert(self@ =~~= (AddressModel { focused: true, ..m0 }));
                }
                Some(Action::TimedStatusLine(String::from_str("[ENTER -> request]"), 3))
            },
            Action::UnFocus => {
                self.focused = false;
                proof {
                    assert(self@ =~~= (AddressModel { focused: false, ..m0 }));
                }
                None
            },
            Action::Up => {
                self.rotate_up();
                None
            },
            Action::Down => {
                self.rotate_down();
                None
            },
            _ => {
                proof {
                    assert(self@ =~~= m0);
                }
                None
            },
        }
    }
}

} // verus!

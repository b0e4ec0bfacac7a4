//! The place where a platform puts its mailbox.
use vstd::prelude::*;

use crate::rpmi::mailbox::{Mailbox, RpmiMailbox};

verus! {

/// The mailbox that the extensions share, once the platform has provided one. Until then they
/// answer as without a mailbox.
pub struct Backend {
    mailbox: Option<RpmiMailbox>,
}

impl View for Backend {
    type V = Option<Mailbox>;

    closed spec fn view(&self) -> Option<Mailbox> {
        match self.mailbox {
            Some(m) => Some(m@),
            None => None,
        }
    }
}

impl Backend {
    /// Creates a place without a mailbox.
    pub fn new() -> (b: Backend)
        ensures
            b@ is None,
    {
        Backend { mailbox: None }
    }

    /// Provides the mailbox.
    pub fn set_mailbox(&mut self, mailbox: RpmiMailbox)
        ensures
            final(self)@ == Some(mailbox@),
    {
        self.mailbox = Some(mailbox);
    }

    /// The mailbox, if there is one.
    pub fn mailbox(&mut self) -> (m: Option<&mut RpmiMailbox>)
        ensures
            match old(self)@ {
                Some(held) => {
                    &&& m is Some
                    &&& m->0@ == held
                    &&& final(self)@ == Some(final(m->0)@)
                },
                None => m is None && final(self)@ is None,
            },
    {
        match &mut self.mailbox {
            Some(m) => Some(m),
            None => None,
        }
    }

    /// Takes the mailbox out.
    pub fn take_mailbox(&mut self) -> (m: Option<RpmiMailbox>)
        ensures
            final(self)@ is None,
            match m {
                Some(m) => old(self)@ == Some(m@),
                None => old(self)@ is None,
            },
    {
        self.mailbox.take()
    }
}

} // verus!

//! Which connection generation is current.
//!
//! Both ends replace their TCP connection over time, while readers and
//! writers of an earlier connection may still be finishing. Each installed
//! connection gets a fresh token; only the holder of the current token may
//! clear it, so a stale reader or writer can never tear down its
//! replacement. The sockets themselves stay with the caller.
use vstd::prelude::*;

verus! {

/// The identity of one installed connection.
#[derive(Clone, Copy, Debug, PartialEq, Eq, Structural)]
pub struct ConnectionToken {
    generation: u64,
}

impl ConnectionToken {
    pub closed spec fn spec_generation(self) -> u64 {
        self.generation
    }
}

/// The current connection, if any, among all the connections installed so
/// far.
#[derive(Debug)]
pub struct ConnectionSlot {
    current: Option<u64>,
    issued: u64,
}

impl ConnectionSlot {
    /// The generation of the current connection.
    pub closed spec fn spec_current(&self) -> Option<u64> {
        self.current
    }

    /// How many connections were installed.
    pub closed spec fn spec_issued(&self) -> u64 {
        self.issued
    }

    /// The current connection, if any, is one of those installed.
    pub open spec fn well_formed(&self) -> bool {
        self.spec_current() matches Some(generation) ==> 1 <= generation <= self.spec_issued()
    }

    /// A slot with no connection.
    pub fn disconnected() -> (slot: Self)
        ensures
            slot.spec_current() is None,
            slot.spec_issued() == 0,
            slot.well_formed(),
    {
        ConnectionSlot { current: None, issued: 0 }
    }

    /// Whether another connection can be installed; false only after
    /// `u64::MAX` installations.
    pub fn can_install(&self) -> (can: bool)
        ensures
            can == (self.spec_issued() < u64::MAX),
    {
        self.issued < u64::MAX
    }

    /// Make a new connection current, replacing any other, and return its
    /// token, which no earlier connection had.
    pub fn install(&mut self) -> (token: ConnectionToken)
        requires
            old(self).spec_issued() < u64::MAX,
        ensures
            token.spec_generation() == old(self).spec_issued() + 1,
            final(self).spec_issued() == old(self).spec_issued() + 1,
            final(self).spec_current() == Some(token.spec_generation()),
            final(self).well_formed(),
    {
        self.issued = self.issued + 1;
        self.current = Some(self.issued);
        ConnectionToken { generation: self.issued }
    }

    /// The token of the current connection.
    pub fn current_token(&self) -> (token: Option<ConnectionToken>)
        ensures
            match token {
                Some(token) => self.spec_current() == Some(token.spec_generation()),
                None => self.spec_current() is None,
            },
    {
        match self.current {
            Some(generation) => Some(ConnectionToken { generation }),
            None => None,
        }
    }

    /// Whether `token` is the current connection's.
    pub fn is_current(&self, token: ConnectionToken) -> (current: bool)
        ensures
            current == (self.spec_current() == Some(token.spec_generation())),
    {
        match self.current {
            Some(generation) => generation == token.generation,
            None => false,
        }
    }

    /// Clear the current connection if it is `token`'s; report whether it
    /// was.
    pub fn clear_if_current(&mut self, token: ConnectionToken) -> (cleared: bool)
        ensures
            cleared == (old(self).spec_current() == Some(token.spec_generation())),
            final(self).spec_current() == (if cleared {
                None
            } else {
                old(self).spec_current()
            }),
            final(self).spec_issued() == old(self).spec_issued(),
            old(self).well_formed() ==> final(self).well_formed(),
    {
        let cleared = self.is_current(token);
        if cleared {
            self.current = None;
        }
        cleared
    }

    /// Clear the current connection, if any.
    pub fn disconnect(&mut self)
        ensures
            final(self).spec_current() is None,
            final(self).spec_issued() == old(self).spec_issued(),
            final(self).well_formed(),
    {
        self.current = None;
    }
}

/// A token handed out before a later installation never clears that
/// installation's connection: tokens grow with every installation, and
/// clearing needs the current one.
pub proof fn lemma_stale_token_cannot_clear(
    before: ConnectionSlot,
    after: ConnectionSlot,
    stale: ConnectionToken,
    fresh: ConnectionToken,
)
    requires
        before.well_formed(),
        stale.spec_generation() <= before.spec_issued(),
        fresh.spec_generation() == before.spec_issued() + 1,
        after.spec_current() == Some(fresh.spec_generation()),
    ensures
        after.spec_current() != Some(stale.spec_generation()),
{
}

} // verus!

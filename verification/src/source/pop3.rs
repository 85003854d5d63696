//! POP3 message source – reserved for future implementation.
use vstd::prelude::*;

use super::MessageSource;
use crate::config::AccountConfig;
use crate::message::Message;
use crate::text::concat2;

verus! {

/// POP3 message source – reserved for future implementation.
///
/// POP3 support is scaffolded here so the abstraction layer is complete.
/// The actual protocol implementation can be added without changing any other
/// module.
pub struct Pop3Source {
    name: String,
    config: AccountConfig,
}

impl Pop3Source {
    /// A source named `"pop3:<account name>"`.
    pub fn new(config: AccountConfig) -> (r: Pop3Source)
        ensures
            r.source_name() == "pop3:"@ + config.name@,
            r.account() == config,
    {
        let name = concat2("pop3:", config.name.as_str());
        Pop3Source { name, config }
    }

    pub closed spec fn source_name(&self) -> Seq<char> {
        self.name@
    }

    pub closed spec fn account(&self) -> AccountConfig {
        self.config
    }

    /// The account this source was made for.
    pub fn config(&self) -> (r: &AccountConfig)
        ensures
            *r == self.account(),
    {
        &self.config
    }
}

impl MessageSource for Pop3Source {
    fn name(&self) -> (r: &str)
        ensures
            r@ == self.source_name(),
    {
        self.name.as_str()
    }

    /// Not implemented yet: yields no messages.
    fn poll(&self) -> (r: Result<Vec<Message>, String>)
        ensures
            r matches Ok(v) && v@.len() == 0,
    {
        Ok(Vec::new())
    }

    fn is_connected(&self) -> (r: bool)
        ensures
            !r,
    {
        false
    }
}

} // verus!

//! Telegram bot message source – reserved for future implementation.
use vstd::prelude::*;

use super::MessageSource;
use crate::config::AccountConfig;
use crate::message::Message;
use crate::text::concat2;

verus! {

/// Telegram bot message source – reserved for future implementation.
///
/// The abstraction layer is in place so a Telegram integration can be added
/// without touching any other module: call `getUpdates` (long-polling) or set
/// a webhook, and convert each update to a `Message` returned from `poll`.
pub struct TelegramSource {
    name: String,
    config: AccountConfig,
}

impl TelegramSource {
    /// A source named `"telegram:<account name>"`.
    pub fn new(config: AccountConfig) -> (r: TelegramSource)
        ensures
            r.source_name() == "telegram:"@ + config.name@,
            r.account() == config,
    {
        let name = concat2("telegram:", config.name.as_str());
        TelegramSource { name, config }
    }

    pub closed spec fn source_name(&self) -> Seq<char> {
        self.name@
    }

    pub closed spec fn account(&self) -> AccountConfig {
        self.config
    }

    /// The account this source was made for.
    pub fn config(&self) -> (r: &AccountConfig)
        ensures
            *r == self.account(),
    {
        &self.config
    }
}

impl MessageSource for TelegramSource {
    fn name(&self) -> (r: &str)
        ensures
            r@ == self.source_name(),
    {
        self.name.as_str()
    }

    /// Not implemented yet: yields no messages.
    fn poll(&self) -> (r: Result<Vec<Message>, String>)
        ensures
            r matches Ok(v) && v@.len() == 0,
    {
        Ok(Vec::new())
    }

    fn is_connected(&self) -> (r: bool)
        ensures
            !r,
    {
        false
    }
}

} // verus!

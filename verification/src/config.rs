//! The guild and channel settings of the service.

use crate::decimal::{parse_u64, parsed};
use vstd::prelude::*;

verus! {

/// The guilds the service works with.
#[derive(Clone, Debug, PartialEq, Eq)]
pub struct Servers {
    /// The main guild, whose roles grant attributes.
    pub main: u64,
}

/// The channels the service writes to.
#[derive(Clone, Debug, PartialEq, Eq)]
pub struct Channels {
    /// The channel that internal errors are reported to, in decimal.
    pub site_errors_channel: String,
}

/// The guild and channel settings.
#[derive(Clone, Debug, PartialEq, Eq)]
pub struct Discord {
    pub servers: Servers,
    pub channels: Channels,
}

impl Channels {
    /// The channel that errors are reported to, where the setting names one.
    pub open spec fn error_channel(&self) -> Option<u64> {
        parsed(self.site_errors_channel@)
    }

    /// Reads the error channel setting. A setting that is no channel id
    /// gives `None`: errors are then not reported.
    pub fn errors_channel(&self) -> (r: Option<u64>)
        ensures
            r == self.error_channel(),
    {
        parse_u64(self.site_errors_channel.as_str())
    }
}

} // verus!

//! The durations that can be configured.

use crate::time::Nanos;
use vstd::prelude::*;

verus! {

#[derive(Clone, Copy, Debug, PartialEq, Eq)]
pub struct Config {
    /// How long to wait after an error that is not expected to go away by
    /// itself.
    pub error_timeout_interval: Nanos,
    /// How long a device is told to stay awake.
    pub gotosleep_duration: Nanos,
    /// How long a device is told to stay awake during an upload.
    pub gotosleep_duration_fota: Nanos,
    /// The shortest pause between two chunks of an upload.
    pub fota_min_wait: Nanos,
    /// How long to wait for the confirmation of a message.
    pub send_message_timeout: Nanos,
    /// How long to wait for the answer to a request.
    pub request_default_timeout: Nanos,
}

/// What holds as long as nothing else is configured.
pub open spec fn default_config() -> Config {
    Config {
        error_timeout_interval: 900_000_000_000,
        gotosleep_duration: 20_000_000_000,
        gotosleep_duration_fota: 100_000_000_000,
        fota_min_wait: 1_000_000_000,
        send_message_timeout: 2_000_000_000,
        request_default_timeout: 2_500_000_000,
    }
}

impl Default for Config {
    fn default() -> (res: Self)
        ensures
            res == default_config(),
    {
        Config {
            error_timeout_interval: 900_000_000_000,
            gotosleep_duration: 20_000_000_000,
            gotosleep_duration_fota: 100_000_000_000,
            fota_min_wait: 1_000_000_000,
            send_message_timeout: 2_000_000_000,
            request_default_timeout: 2_500_000_000,
        }
    }
}

/// The configuration in force.
#[derive(Clone, Copy, Debug, PartialEq, Eq)]
pub struct ConfigStore {
    config: Config,
}

impl View for ConfigStore {
    type V = Config;

    closed spec fn view(&self) -> Config {
        self.config
    }
}

impl ConfigStore {
    /// The defaults are in force.
    pub fn new() -> (res: Self)
        ensures
            res@ == default_config(),
    {
        Self { config: Config::default() }
    }
}

pub fn current_config(store: &ConfigStore) -> (res: Config)
    ensures
        res == store@,
{
    store.config
}

pub fn set_config(store: &mut ConfigStore, config: Config)
    ensures
        final(store)@ == config,
{
    store.config = config;
}

/// By default a device that failed is left alone for a quarter of an hour and is
/// kept awake for 20 seconds, or 100 during an upload, whose chunks are at least a
/// second apart. A message may take 2 seconds and a request two and a half.
pub proof fn law_default_times()
    ensures
        default_config().error_timeout_interval == 15 * 60 * 1_000_000_000,
        default_config().gotosleep_duration == 20 * 1_000_000_000,
        default_config().gotosleep_duration_fota == 100 * 1_000_000_000,
        default_config().fota_min_wait == 1_000_000_000,
        default_config().send_message_timeout == 2 * 1_000_000_000,
        2 * default_config().request_default_timeout == 5 * 1_000_000_000,
{
}

} // verus!

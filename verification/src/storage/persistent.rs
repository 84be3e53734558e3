//! The state of a device that outlives a restart.

use crate::error::Error;
use crate::lsdl::RawStatus;
use crate::lwm2m::FirmwareUpdateResult;
use crate::lwm2m::FirmwareUpdateState;
use crate::storage::description::ConnectionStatus;
use crate::time::Nanos;
use vstd::prelude::*;

verus! {

#[derive(Debug)]
pub struct PersistentState {
    /// The offset of the device's time zone from UTC, in minutes.
    pub time_offset: Option<i32>,
    pub connection_status: ConnectionStatus,
    /// When the device last went on- or offline.
    pub connection_status_last_transition: Nanos,
    pub firmware_update_state: FirmwareUpdateState,
    pub firmware_update_result: FirmwareUpdateResult,
    pub firmware_update_pkg_version: String,
    /// The last status message.
    pub status: Option<RawStatus>,
    pub modified: Nanos,
}

/// A number below a hundred in two digits.
pub open spec fn two_digits(number: int) -> Seq<char> {
    seq![(48 + number / 10) as char, (48 + number % 10) as char]
}

/// An offset in seconds as a sign, hours and minutes, and seconds if there are
/// any.
pub open spec fn offset_text(seconds: int) -> Seq<char> {
    let size = if seconds < 0 {
        -seconds
    } else {
        seconds
    };
    let minutes = size / 60;
    seq![if seconds < 0 { '-' } else { '+' }] + two_digits(minutes / 60) + seq![':'] + two_digits(
        minutes % 60,
    ) + (if size % 60 == 0 {
        Seq::empty()
    } else {
        seq![':'] + two_digits(size % 60)
    })
}

/// `chrono::FixedOffset::east_opt` and the `Display` of what it gives: a sign,
/// two digits each for hours and minutes, and seconds only if there are any. It
/// is only defined for less than a day.
#[verifier::external_body]
fn fixed_offset_text(seconds: i32) -> (res: String)
    requires
        -86400 < seconds < 86400,
    ensures
        res@ == offset_text(seconds as int),
{
    chrono::FixedOffset::east_opt(seconds).expect("offset below a day").to_string()
}

impl PersistentState {
    /// Nothing has happened to the device since the clock on the wall showed
    /// `wall_clock`.
    pub open spec fn is_fresh(
        self,
        connection_status: ConnectionStatus,
        wall_clock: Nanos,
    ) -> bool {
        &&& self.time_offset is None
        &&& self.connection_status == connection_status
        &&& self.connection_status_last_transition == wall_clock
        &&& self.firmware_update_state == FirmwareUpdateState::Idle
        &&& self.firmware_update_result == FirmwareUpdateResult::Initial
        &&& self.firmware_update_pkg_version@ == Seq::<char>::empty()
        &&& self.status is None
        &&& self.modified == wall_clock
    }

    pub fn new(connection_status: ConnectionStatus, wall_clock: Nanos) -> (res: Self)
        ensures
            res.is_fresh(connection_status, wall_clock),
    {
        Self {
            time_offset: None,
            connection_status,
            connection_status_last_transition: wall_clock,
            firmware_update_state: FirmwareUpdateState::Idle,
            firmware_update_result: FirmwareUpdateResult::Initial,
            firmware_update_pkg_version: String::new(),
            status: None,
            modified: wall_clock,
        }
    }

    /// The same state but for the firmware update.
    pub open spec fn same_but_update(self, other: PersistentState) -> bool {
        &&& self.time_offset == other.time_offset
        &&& self.connection_status == other.connection_status
        &&& self.connection_status_last_transition == other.connection_status_last_transition
        &&& self.status == other.status
        &&& self.modified == other.modified
    }

    /// Mends the state that an end in the middle of an upload leaves behind: the
    /// upload is gone, so nothing is being downloaded.
    pub fn mend(&mut self)
        ensures
            old(self).firmware_update_state != FirmwareUpdateState::Downloading ==> *final(self)
                == *old(self),
            old(self).firmware_update_state == FirmwareUpdateState::Downloading ==> {
                &&& final(self).same_but_update(*old(self))
                &&& final(self).firmware_update_state == FirmwareUpdateState::Idle
                &&& final(self).firmware_update_result == FirmwareUpdateResult::Success
                &&& final(self).firmware_update_pkg_version@ == Seq::<char>::empty()
            },
    {
        if self.firmware_update_state == FirmwareUpdateState::Downloading {
            self.firmware_update_state = FirmwareUpdateState::Idle;
            self.firmware_update_result = FirmwareUpdateResult::Success;
            self.firmware_update_pkg_version = String::new();
        }
    }

    /// Whether a firmware update cannot be under way, though the state says so:
    /// an upload does not outlive a restart, and a device that is still included
    /// did not take the update.
    pub open spec fn is_stale(self, included: bool) -> bool {
        ||| self.firmware_update_state == FirmwareUpdateState::Downloading
        ||| self.firmware_update_state == FirmwareUpdateState::Updating && included
    }

    /// Gives up a firmware update that cannot be under way.
    pub fn reset_stale_update(&mut self, included: bool)
        ensures
            *final(self) == (if old(self).is_stale(included) {
                PersistentState {
                    firmware_update_state: FirmwareUpdateState::Idle,
                    ..*old(self)
                }
            } else {
                *old(self)
            }),
    {
        let stale: bool = match self.firmware_update_state {
            FirmwareUpdateState::Downloading => true,
            FirmwareUpdateState::Updating => included,
            _ => false,
        };
        if stale {
            self.firmware_update_state = FirmwareUpdateState::Idle;
        }
    }

    /// Sets the state and the result of the firmware update. Returns whether
    /// anything has changed and is to be saved and published.
    ///
    /// The package version is dropped on the way to `Idle` or `Updating`: the
    /// package itself is gone by then.
    pub fn set_firmware_update_status(
        &mut self,
        included: bool,
        state: FirmwareUpdateState,
        result: FirmwareUpdateResult,
    ) -> (res: Result<bool, Error>)
        ensures
            match res {
                Err(e) => !included && e == Error::NotIncluded && *final(self) == *old(self),
                Ok(false) => {
                    &&& included
                    &&& old(self).firmware_update_state == state
                    &&& old(self).firmware_update_result == result
                    &&& *final(self) == *old(self)
                },
                Ok(true) => {
                    &&& included
                    &&& old(self).firmware_update_state != state
                        || old(self).firmware_update_result != result
                    &&& final(self).same_but_update(*old(self))
                    &&& final(self).firmware_update_state == state
                    &&& final(self).firmware_update_result == result
                    &&& final(self).firmware_update_pkg_version@ == (if old(
                        self).firmware_update_state != state && (state == FirmwareUpdateState::Idle
                        || state == FirmwareUpdateState::Updating) {
                        Seq::empty()
                    } else {
                        old(self).firmware_update_pkg_version@
                    })
                },
            },
    {
        if !included {
            return Err(Error::NotIncluded);
        }
        if self.firmware_update_state == state && self.firmware_update_result == result {
            return Ok(false);
        }
        if self.firmware_update_state != state {
            match state {
                FirmwareUpdateState::Idle | FirmwareUpdateState::Updating => {
                    self.firmware_update_pkg_version = String::new();
                },
                _ => {},
            }
        }
        self.firmware_update_state = state;
        self.firmware_update_result = result;
        Ok(true)
    }

    /// The offset from UTC as text; nothing as long as it is not known.
    pub fn utc_offset(&self) -> (res: String)
        requires
            self.time_offset matches Some(minutes) ==> -1440 < minutes < 1440,
        ensures
            res@ == (match self.time_offset {
                None => Seq::empty(),
                Some(minutes) => "UTC"@ + offset_text(60 * minutes),
            }),
    {
        match self.time_offset {
            None => String::new(),
            Some(minutes) => {
                let prefix: String = "UTC".to_owned();
                prefix.concat(fixed_offset_text(60 * minutes).as_str())
            },
        }
    }
}

/// A device starts without a word on its time zone, its status or an update,
/// and with the times of when it was noted.
pub proof fn law_fresh_state(state: PersistentState, status: ConnectionStatus, wall_clock: Nanos)
    requires
        state.is_fresh(status, wall_clock),
    ensures
        state.time_offset is None,
        state.connection_status == status,
        state.connection_status_last_transition == wall_clock,
        state.modified == wall_clock,
        state.firmware_update_state == FirmwareUpdateState::Idle,
        state.firmware_update_result == FirmwareUpdateResult::Initial,
        state.firmware_update_pkg_version@.len() == 0,
        state.status is None,
        !state.is_stale(true),
        !state.is_stale(false),
{
}

/// An update that is being uploaded does not outlive a restart, and one that is
/// being installed is over once the device is there as an included one. What is
/// complete or idle stays as it is.
pub proof fn law_stale_updates(state: PersistentState, included: bool)
    ensures
        state.firmware_update_state == FirmwareUpdateState::Downloading ==> state.is_stale(
            included,
        ),
        state.firmware_update_state == FirmwareUpdateState::Updating ==> state.is_stale(included)
            == included,
        state.firmware_update_state == FirmwareUpdateState::Idle ==> !state.is_stale(included),
        state.firmware_update_state == FirmwareUpdateState::DownloadComplete ==> !state.is_stale(
            included,
        ),
{
}

/// A state that is the same but for the update differs in nothing else.
pub proof fn law_same_but_update(a: PersistentState, b: PersistentState)
    requires
        a.same_but_update(b),
    ensures
        a == (PersistentState {
            firmware_update_state: a.firmware_update_state,
            firmware_update_result: a.firmware_update_result,
            firmware_update_pkg_version: a.firmware_update_pkg_version,
            ..b
        }),
{
}

/// An offset of `hours`, `minutes` and `seconds` is written as just these, with
/// two digits each and its sign in front. Seconds are left out where there are
/// none.
pub proof fn law_offsets(hours: int, minutes: int, seconds: int)
    requires
        0 <= hours < 100,
        0 <= minutes < 60,
        0 <= seconds < 60,
    ensures
        ({
            let size = 3600 * hours + 60 * minutes + seconds;
            let clock = seq![
                ('0' as int + hours / 10) as char,
                ('0' as int + hours % 10) as char,
                ':',
                ('0' as int + minutes / 10) as char,
                ('0' as int + minutes % 10) as char,
            ];
            let rest = if seconds == 0 {
                Seq::<char>::empty()
            } else {
                seq![
                    ':',
                    ('0' as int + seconds / 10) as char,
                    ('0' as int + seconds % 10) as char,
                ]
            };
            &&& offset_text(size) == seq!['+'] + clock + rest
            &&& size > 0 ==> offset_text(-size) == seq!['-'] + clock + rest
        }),
{
    let size = 3600 * hours + 60 * minutes + seconds;
    assert(size / 60 == 60 * hours + minutes);
    assert(size % 60 == seconds);
    assert((60 * hours + minutes) / 60 == hours);
    assert((60 * hours + minutes) % 60 == minutes);
    let clock = seq![
        ('0' as int + hours / 10) as char,
        ('0' as int + hours % 10) as char,
        ':',
        ('0' as int + minutes / 10) as char,
        ('0' as int + minutes % 10) as char,
    ];
    let rest = if seconds == 0 {
        Seq::<char>::empty()
    } else {
        seq![':', ('0' as int + seconds / 10) as char, ('0' as int + seconds % 10) as char]
    };
    assert(offset_text(size) =~= seq!['+'] + clock + rest);
    if size > 0 {
        assert(offset_text(-size) =~= seq!['-'] + clock + rest);
    }
}

} // verus!

//! Reaching a device: whether it is online, whether it is awake, and how often
//! it is tried.

use crate::bigint;
use crate::comm::RequestError;
use crate::config::Config;
use crate::device;
use crate::device::Device;
use crate::device::make_flowinfo;
use crate::error::Error;
use crate::lsdl::RadioMode;
use crate::lsdl::StatusCode;
use crate::net::IpAddr;
use crate::net::SocketAddr;
use crate::net::SocketAddrV6;
use crate::random::random_below;
use crate::storage::description::ConnectionStatus;
use crate::storage::persistent::PersistentState;
use crate::time::Nanos;
use crate::traits;
use crate::traits::ByteOrder;
use vstd::arithmetic::power2::*;
use vstd::prelude::*;

verus! {

/// How long a device is woken up for.
pub const WAKE_DURATION: u128 = 20_000_000_000;

/// A device counts as asleep this much earlier, since clocks differ.
pub const AWAKE_MARGIN: u128 = 1_000_000_000;

/// How often a device is tried by default.
pub const DEFAULT_ATTEMPTS: usize = 3;

/// How long to wait for a network error where no answer is expected.
pub const NO_ANSWER_TIMEOUT: u128 = 4_000_000_000;

/// How long to wait for a device to wake up.
pub const WAKEUP_TIMEOUT: u128 = 4_000_000_000;

/// What a change of the online state leads to.
#[derive(Clone, Copy, Debug, PartialEq, Eq, Structural)]
pub struct OnlineChange {
    /// The state has changed.
    pub changed: bool,
    /// The UTC offset can be set now.
    pub set_utc_offset: bool,
    /// The change is to be published.
    pub publish: bool,
    /// The change is to be saved.
    pub save: bool,
}

impl Device {
    pub open spec fn spec_online(self) -> bool {
        self.persistent.connection_status == ConnectionStatus::Online
    }

    pub fn online(&self) -> (res: bool)
        ensures
            res == self.spec_online(),
    {
        self.persistent.connection_status == ConnectionStatus::Online
    }

    /// Notes that the device was talked to, and whether it answered.
    pub fn set_online(&mut self, online: bool, now: Nanos, wall_clock: Nanos) -> (res: OnlineChange)
        ensures
            ({
                let changed = online != old(self).spec_online();
                &&& res == (OnlineChange {
                    changed,
                    set_utc_offset: changed && online,
                    publish: changed && old(self).spec_is_published(),
                    save: changed && old(self).description.spec_loadsave_enabled(),
                })
                &&& final(self).spec_online() == online
                &&& *final(self) == (if changed {
                    Device {
                        last_communication_attempt: Some(now),
                        online_changed_at: now,
                        persistent: PersistentState {
                            connection_status: if online {
                                ConnectionStatus::Online
                            } else {
                                ConnectionStatus::Offline
                            },
                            connection_status_last_transition: wall_clock,
                            ..old(self).persistent
                        },
                        ..*old(self)
                    }
                } else {
                    Device { last_communication_attempt: Some(now), ..*old(self) }
                })
            }),
    {
        let changed: bool = online != self.online();
        self.last_communication_attempt = Some(now);
        if !changed {
            return OnlineChange {
                changed: false,
                set_utc_offset: false,
                publish: false,
                save: false,
            };
        }
        self.online_changed_at = now;
        self.persistent.connection_status_last_transition = wall_clock;
        self.persistent.connection_status = if online {
            ConnectionStatus::Online
        } else {
            ConnectionStatus::Offline
        };
        OnlineChange {
            changed: true,
            set_utc_offset: online,
            publish: self.is_published(),
            save: self.description.loadsave_enabled(),
        }
    }

    /// Whether the device hears what is sent to it. One that is not included
    /// does not sleep yet, and could not be woken up either.
    pub open spec fn spec_is_awake(self, now: Nanos) -> bool {
        ||| self.description.radio_mode != RadioMode::WakeOnRadio
        ||| !self.description.included
        ||| (self.awake_until matches Some(until) && now + AWAKE_MARGIN < until)
    }

    pub fn is_awake(&self, now: Nanos) -> (res: bool)
        ensures
            res == self.spec_is_awake(now),
    {
        if self.description.radio_mode != RadioMode::WakeOnRadio {
            return true;
        }
        if !self.description.included {
            return true;
        }
        match self.awake_until {
            Some(until) => until > AWAKE_MARGIN && now < until - AWAKE_MARGIN,
            None => false,
        }
    }

    /// Notes that the device has heard a message that was sent at `sendtime`
    /// and told it when to go to sleep.
    pub fn device_received_message(&mut self, sendtime: Nanos, go_to_sleep: Option<Nanos>) -> (res:
        Result<(), Error>)
        ensures
            match go_to_sleep {
                None => res is Ok && *final(self) == *old(self),
                Some(duration) => if sendtime + duration > u128::MAX {
                    res == Err::<(), Error>(Error::TimeOverflow) && *final(self) == *old(self)
                } else {
                    &&& res is Ok
                    &&& *final(self) == (Device {
                        awake_until: Some((sendtime + duration) as u128),
                        ..*old(self)
                    })
                },
            },
    {
        if let Some(duration) = go_to_sleep {
            match sendtime.checked_add(duration) {
                Some(until) => {
                    self.awake_until = Some(until);
                },
                None => {
                    return Err(Error::TimeOverflow);
                },
            }
        }
        Ok(())
    }

    /// When the device goes to sleep, if it may or may not have heard that it is
    /// to do so at `until`: the earlier of the two.
    pub open spec fn awake_at_most(self, until: Nanos) -> Option<Nanos> {
        match self.awake_until {
            Some(current) => Some(
                if until < current {
                    until
                } else {
                    current
                },
            ),
            None => Some(until),
        }
    }

    /// Notes that the device may or may not have heard a message. The worst is
    /// assumed: that it goes to sleep as early as it can.
    pub fn device_received_message_maybe(
        &mut self,
        sendtime: Nanos,
        go_to_sleep: Option<Nanos>,
    ) -> (res: Result<(), Error>)
        ensures
            match go_to_sleep {
                None => res is Ok && *final(self) == *old(self),
                Some(duration) => if sendtime + duration > u128::MAX {
                    res == Err::<(), Error>(Error::TimeOverflow) && *final(self) == *old(self)
                } else {
                    &&& res is Ok
                    &&& *final(self) == (Device {
                        awake_until: old(self).awake_at_most((sendtime + duration) as u128),
                        ..*old(self)
                    })
                },
            },
    {
        if let Some(duration) = go_to_sleep {
            let until: u128 = match sendtime.checked_add(duration) {
                Some(until) => until,
                None => {
                    return Err(Error::TimeOverflow);
                },
            };
            match self.awake_until {
                Some(current) => {
                    if until < current {
                        self.awake_until = Some(until);
                    }
                },
                None => {
                    self.awake_until = Some(until);
                },
            }
        }
        Ok(())
    }

    /// Where a message to the device goes, with the encryption flag in the flow
    /// information. There is no flow information for IPv4.
    pub fn message_address(&self, encrypt: bool) -> (res: Result<SocketAddr, Error>)
        ensures
            match self.spec_address() {
                SocketAddr::V4(_) => res == Err::<SocketAddr, Error>(Error::NoFlowinfo),
                SocketAddr::V6(addr) => exists|order: ByteOrder|
                    res == Ok::<SocketAddr, Error>(
                        SocketAddr::V6(
                            (SocketAddrV6 {
                                flowinfo: #[trigger] traits::flowinfo_of(
                                    (4 * device::message_ds(encrypt)) as u8,
                                    order,
                                ) as u32,
                                ..addr
                            }),
                        ),
                    ),
            },
    {
        let mut address = self.address();
        let flowinfo = make_flowinfo(encrypt).raw();
        match address.set_flowinfo(flowinfo) {
            Ok(()) => Ok(address),
            Err(e) => Err(e),
        }
    }
}

/// The pause before another attempt, in milliseconds, by chance.
pub fn random_retry_pause() -> (res: u64)
    ensures
        1500 <= res < 2000,
{
    1500 + random_below(500)
}

/// What became of an attempt at a request.
#[derive(Clone, Copy, Debug, PartialEq, Eq, Structural)]
pub enum RequestOutcome {
    Answered,
    Failed(RequestError),
}

/// How far a request has come.
#[derive(Clone, Copy, Debug, PartialEq, Eq, Structural)]
pub struct RequestRun {
    pub num_attempts: usize,
    /// The attempts that are left.
    pub left: usize,
    /// A pause is due before the next attempt.
    pub pause: bool,
    /// What became of the last attempt.
    pub last: RequestError,
}

/// What has happened to a request.
#[derive(Clone, Copy, Debug, PartialEq, Eq, Structural)]
pub enum RequestEvent {
    /// It has just begun, or a pause is over.
    Continue,
    /// The device is awake.
    WokenUp,
    WakeupFailed(Error),
    /// It was sent at this time.
    Attempted(Nanos, RequestOutcome),
}

/// Why a request failed.
#[derive(Clone, Copy, Debug, PartialEq, Eq, Structural)]
pub enum RequestFailure {
    Wakeup(Error),
    NoAnswer(RequestError),
    Internal(Error),
}

/// How a request ends.
#[derive(Clone, Copy, Debug, PartialEq, Eq)]
pub struct RequestEnd {
    /// The device counts as on- or offline from now on; nothing if that is left
    /// as it is.
    pub set_online: Option<bool>,
    pub result: Result<(), RequestFailure>,
}

/// What to do for a request.
#[derive(Clone, Copy, Debug, PartialEq, Eq)]
pub enum RequestAction {
    /// Wait a little.
    Pause,
    /// Wake up the device.
    Wakeup,
    /// Send the request and wait for the answer.
    Send,
    Finish(RequestEnd),
}

impl RequestRun {
    pub fn new(num_attempts: usize) -> (res: Self)
        ensures
            res == (RequestRun {
                num_attempts,
                left: num_attempts,
                pause: false,
                last: RequestError::Timeout,
            }),
    {
        RequestRun { num_attempts, left: num_attempts, pause: false, last: RequestError::Timeout }
    }

    /// How the request ends if there is no further attempt. An internal error
    /// says nothing about the device, and neither does a single attempt.
    pub open spec fn end(self, online: bool) -> RequestEnd {
        let still_online = match self.last {
            RequestError::Internal(_) => online,
            _ => false,
        };
        RequestEnd {
            set_online: if self.num_attempts > 1 || still_online {
                Some(still_online)
            } else {
                None
            },
            result: Err(RequestFailure::NoAnswer(self.last)),
        }
    }

    /// What to do next.
    pub open spec fn next_action(self, awake: bool, online: bool) -> RequestAction {
        if self.left == 0 {
            RequestAction::Finish(self.end(online))
        } else if self.pause {
            RequestAction::Pause
        } else if !awake {
            RequestAction::Wakeup
        } else {
            RequestAction::Send
        }
    }

    /// How far the request has come after that.
    pub open spec fn after_action(self, awake: bool) -> RequestRun {
        if self.left == 0 {
            self
        } else if self.pause {
            RequestRun { pause: false, ..self }
        } else if !awake {
            self
        } else {
            RequestRun { left: (self.left - 1) as usize, ..self }
        }
    }

    fn proceed(&mut self, awake: bool, online: bool) -> (res: RequestAction)
        ensures
            res == old(self).next_action(awake, online),
            *final(self) == old(self).after_action(awake),
    {
        if self.left == 0 {
            let still_online: bool = match self.last {
                RequestError::Internal(_) => online,
                _ => false,
            };
            return RequestAction::Finish(
                RequestEnd {
                    set_online: if self.num_attempts > 1 || still_online {
                        Some(still_online)
                    } else {
                        None
                    },
                    result: Err(RequestFailure::NoAnswer(self.last)),
                },
            );
        }
        if self.pause {
            self.pause = false;
            return RequestAction::Pause;
        }
        if !awake {
            return RequestAction::Wakeup;
        }
        self.left = self.left - 1;
        RequestAction::Send
    }
}

/// The end of a request that fails for a reason of our own.
pub open spec fn internal_end(e: Error) -> RequestAction {
    RequestAction::Finish(
        RequestEnd { set_online: None, result: Err(RequestFailure::Internal(e)) },
    )
}

/// How far a request has come after an attempt without an answer: a pause is due
/// unless it was a timeout.
pub open spec fn after_failed_attempt(run: RequestRun, error: RequestError) -> RequestRun {
    RequestRun {
        pause: match error {
            RequestError::Timeout => false,
            _ => true,
        },
        last: error,
        ..run
    }
}

impl Device {
    /// Goes on with a request that tells the device to stay awake for
    /// `go_to_sleep`.
    pub fn request_step(
        &mut self,
        run: &mut RequestRun,
        event: RequestEvent,
        go_to_sleep: Option<Nanos>,
        now: Nanos,
    ) -> (res: RequestAction)
        ensures
            match event {
                RequestEvent::Continue => {
                    &&& *final(self) == *old(self)
                    &&& res == old(run).next_action(
                        old(self).spec_is_awake(now),
                        old(self).spec_online(),
                    )
                    &&& *final(run) == old(run).after_action(old(self).spec_is_awake(now))
                },
                RequestEvent::WokenUp => {
                    &&& *final(self) == *old(self)
                    &&& res == old(run).next_action(true, old(self).spec_online())
                    &&& *final(run) == old(run).after_action(true)
                },
                RequestEvent::WakeupFailed(e) => {
                    &&& *final(self) == *old(self)
                    &&& *final(run) == *old(run)
                    &&& res == RequestAction::Finish(
                        RequestEnd {
                            set_online: Some(false),
                            result: Err(RequestFailure::Wakeup(e)),
                        },
                    )
                },
                RequestEvent::Attempted(sent_at, outcome) => {
                    let overflow = go_to_sleep matches Some(duration) && sent_at + duration
                        > u128::MAX;
                    if overflow {
                        &&& *final(self) == *old(self)
                        &&& *final(run) == *old(run)
                        &&& res == internal_end(Error::TimeOverflow)
                    } else {
                        match outcome {
                            RequestOutcome::Answered => {
                                &&& *final(run) == *old(run)
                                &&& res == RequestAction::Finish(
                                    RequestEnd { set_online: Some(true), result: Ok(()) },
                                )
                                &&& *final(self) == (Device {
                                    awake_until: match go_to_sleep {
                                        Some(duration) => Some((sent_at + duration) as u128),
                                        None => old(self).awake_until,
                                    },
                                    ..*old(self)
                                })
                            },
                            RequestOutcome::Failed(error) => {
                                let awake_until = match go_to_sleep {
                                    Some(duration) => old(self).awake_at_most(
                                        (sent_at + duration) as u128,
                                    ),
                                    None => old(self).awake_until,
                                };
                                let failed = after_failed_attempt(*old(run), error);
                                &&& *final(self) == (Device { awake_until, ..*old(self) })
                                &&& res == failed.next_action(
                                    final(self).spec_is_awake(now),
                                    old(self).spec_online(),
                                )
                                &&& *final(run) == failed.after_action(
                                    final(self).spec_is_awake(now),
                                )
                            },
                        }
                    }
                },
            },
    {
        match event {
            RequestEvent::Continue => {
                let awake: bool = self.is_awake(now);
                run.proceed(awake, self.online())
            },
            RequestEvent::WokenUp => run.proceed(true, self.online()),
            RequestEvent::WakeupFailed(e) => RequestAction::Finish(
                RequestEnd { set_online: Some(false), result: Err(RequestFailure::Wakeup(e)) },
            ),
            RequestEvent::Attempted(sent_at, outcome) => match outcome {
                RequestOutcome::Answered => {
                    match self.device_received_message(sent_at, go_to_sleep) {
                        Err(e) => RequestAction::Finish(
                            RequestEnd {
                                set_online: None,
                                result: Err(RequestFailure::Internal(e)),
                            },
                        ),
                        Ok(()) => RequestAction::Finish(
                            RequestEnd { set_online: Some(true), result: Ok(()) },
                        ),
                    }
                },
                RequestOutcome::Failed(error) => {
                    match self.device_received_message_maybe(sent_at, go_to_sleep) {
                        Err(e) => {
                            return RequestAction::Finish(
                                RequestEnd {
                                    set_online: None,
                                    result: Err(RequestFailure::Internal(e)),
                                },
                            );
                        },
                        Ok(()) => {},
                    }
                    run.pause = match error {
                        RequestError::Timeout => false,
                        _ => true,
                    };
                    run.last = error;
                    let awake: bool = self.is_awake(now);
                    run.proceed(awake, self.online())
                },
            },
        }
    }
}

/// Every time a request is sent uses up an attempt, and nothing ever gives one
/// back: it is sent at most as often as allowed.
pub proof fn law_request_attempts_are_bounded(run: RequestRun, awake: bool, online: bool)
    ensures
        run.next_action(awake, online) == RequestAction::Send ==> run.left > 0 && run.after_action(
            awake,
        ).left == run.left - 1,
        run.next_action(awake, online) != RequestAction::Send ==> run.after_action(awake).left
            == run.left,
        run.left == 0 ==> run.next_action(awake, online) is Finish,
        run.after_action(awake).num_attempts == run.num_attempts,
{
}

/// A device is not called offline because of a single attempt, nor because of
/// an error on our side.
pub proof fn law_offline_needs_evidence(run: RequestRun, online: bool)
    ensures
        run.end(online).set_online == Some(false) ==> run.num_attempts > 1,
        run.last is Internal && online ==> run.end(online).set_online != Some(false),
{
}

/// What became of an attempt at a message.
#[derive(Clone, Copy, Debug, PartialEq, Eq, Structural)]
pub enum MessageOutcome {
    /// The device answered, though it should not have.
    Response,
    /// The network reports that the message did not get through.
    Undelivered,
    /// Waiting failed in another way.
    Failed(RequestError),
    /// The device did what the message asks for.
    Confirmed,
    TimedOut,
}

/// How far a message has come.
#[derive(Clone, Copy, Debug, PartialEq, Eq, Structural)]
pub struct MessageRun {
    /// The attempts that are left.
    pub left: usize,
    /// A pause is due before the next attempt.
    pub pause: bool,
    /// Without a confirmation the message has to be sent again.
    pub answer_required: bool,
}

/// What has happened to a message.
#[derive(Clone, Copy, Debug, PartialEq, Eq, Structural)]
pub enum MessageEvent {
    /// It has just begun, or a pause is over.
    Continue,
    /// The device is awake.
    WokenUp,
    WakeupFailed(Error),
    SendFailed(Error),
    /// It was sent at this time.
    Attempted(Nanos, MessageOutcome),
}

/// Why a message failed.
#[derive(Clone, Copy, Debug, PartialEq, Eq, Structural)]
pub enum MessageFailure {
    Wakeup(Error),
    Send(Error),
    UnexpectedResponse,
    Read(RequestError),
    OutOfAttempts,
    Internal(Error),
}

/// How a message ends.
#[derive(Clone, Copy, Debug, PartialEq, Eq)]
pub struct MessageEnd {
    /// The device counts as on- or offline from now on; nothing if that is left
    /// as it is.
    pub set_online: Option<bool>,
    /// Whether the message was confirmed, or why it failed.
    pub result: Result<bool, MessageFailure>,
}

/// What to do for a message.
#[derive(Clone, Copy, Debug, PartialEq, Eq)]
pub enum MessageAction {
    /// Wait a little.
    Pause,
    /// Wake up the device.
    Wakeup,
    /// Send the message, from another port than before, and wait.
    Send,
    Finish(MessageEnd),
}

impl MessageRun {
    pub fn new(answer_required: bool) -> (res: Self)
        ensures
            res == (MessageRun { left: DEFAULT_ATTEMPTS, pause: false, answer_required }),
    {
        MessageRun { left: DEFAULT_ATTEMPTS, pause: false, answer_required }
    }

    /// How long to wait for the confirmation, or else for a network error.
    pub fn timeout(&self, config: &Config) -> (res: Nanos)
        ensures
            res == (if self.answer_required {
                config.send_message_timeout
            } else {
                NO_ANSWER_TIMEOUT
            }),
    {
        if self.answer_required {
            config.send_message_timeout
        } else {
            NO_ANSWER_TIMEOUT
        }
    }

    pub open spec fn next_action(self, awake: bool) -> MessageAction {
        if self.left == 0 {
            MessageAction::Finish(
                MessageEnd { set_online: Some(false), result: Err(MessageFailure::OutOfAttempts) },
            )
        } else if self.pause {
            MessageAction::Pause
        } else if !awake {
            MessageAction::Wakeup
        } else {
            MessageAction::Send
        }
    }

    pub open spec fn after_action(self, awake: bool) -> MessageRun {
        if self.left == 0 {
            self
        } else if self.pause {
            MessageRun { pause: false, ..self }
        } else if !awake {
            self
        } else {
            MessageRun { left: (self.left - 1) as usize, ..self }
        }
    }

    fn proceed(&mut self, awake: bool) -> (res: MessageAction)
        ensures
            res == old(self).next_action(awake),
            *final(self) == old(self).after_action(awake),
    {
        if self.left == 0 {
            return MessageAction::Finish(
                MessageEnd { set_online: Some(false), result: Err(MessageFailure::OutOfAttempts) },
            );
        }
        if self.pause {
            self.pause = false;
            return MessageAction::Pause;
        }
        if !awake {
            return MessageAction::Wakeup;
        }
        self.left = self.left - 1;
        MessageAction::Send
    }
}

/// The end of a message without a word on whether the device is online.
pub open spec fn message_end(result: Result<bool, MessageFailure>) -> MessageAction {
    MessageAction::Finish(MessageEnd { set_online: None, result })
}

/// What an attempt at a message leads to, with so many attempts left; nothing if
/// there is to be another one, or would be if an attempt was left. A message
/// that nothing confirmed until its attempts were used up has not failed: it is
/// just not confirmed.
pub open spec fn attempt_end(outcome: MessageOutcome, answer_required: bool, left: usize) -> Option<
    MessageAction,
> {
    match outcome {
        MessageOutcome::Response => Some(message_end(Err(MessageFailure::UnexpectedResponse))),
        MessageOutcome::Undelivered => None,
        MessageOutcome::Failed(e) => Some(message_end(Err(MessageFailure::Read(e)))),
        MessageOutcome::Confirmed => Some(
            MessageAction::Finish(MessageEnd { set_online: Some(true), result: Ok(true) }),
        ),
        MessageOutcome::TimedOut => if !answer_required {
            Some(message_end(Ok(false)))
        } else if left == 0 {
            Some(MessageAction::Finish(MessageEnd { set_online: Some(false), result: Ok(false) }))
        } else {
            None
        },
    }
}

impl Device {
    /// Goes on with a message that tells the device to stay awake for
    /// `go_to_sleep`.
    pub fn message_step(
        &mut self,
        run: &mut MessageRun,
        event: MessageEvent,
        go_to_sleep: Option<Nanos>,
        now: Nanos,
    ) -> (res: MessageAction)
        ensures
            match event {
                MessageEvent::Continue => {
                    &&& *final(self) == *old(self)
                    &&& res == old(run).next_action(old(self).spec_is_awake(now))
                    &&& *final(run) == old(run).after_action(old(self).spec_is_awake(now))
                },
                MessageEvent::WokenUp => {
                    &&& *final(self) == *old(self)
                    &&& res == old(run).next_action(true)
                    &&& *final(run) == old(run).after_action(true)
                },
                MessageEvent::WakeupFailed(e) => {
                    &&& *final(self) == *old(self)
                    &&& *final(run) == *old(run)
                    &&& res == MessageAction::Finish(
                        MessageEnd {
                            set_online: Some(false),
                            result: Err(MessageFailure::Wakeup(e)),
                        },
                    )
                },
                MessageEvent::SendFailed(e) => {
                    &&& *final(self) == *old(self)
                    &&& *final(run) == *old(run)
                    &&& res == message_end(Err(MessageFailure::Send(e)))
                },
                MessageEvent::Attempted(sent_at, outcome) => {
                    let overflow = go_to_sleep matches Some(duration) && sent_at + duration
                        > u128::MAX;
                    if overflow {
                        &&& *final(self) == *old(self)
                        &&& *final(run) == *old(run)
                        &&& res == message_end(Err(MessageFailure::Internal(Error::TimeOverflow)))
                    } else {
                        let awake_until = match go_to_sleep {
                            Some(duration) => if outcome == MessageOutcome::Confirmed {
                                Some((sent_at + duration) as u128)
                            } else {
                                old(self).awake_at_most((sent_at + duration) as u128)
                            },
                            None => old(self).awake_until,
                        };
                        &&& *final(self) == (Device { awake_until, ..*old(self) })
                        &&& match attempt_end(outcome, old(run).answer_required, old(run).left) {
                            Some(end) => res == end && *final(run) == *old(run),
                            None => {
                                let again = MessageRun {
                                    pause: outcome == MessageOutcome::Undelivered,
                                    ..*old(run)
                                };
                                let awake = final(self).spec_is_awake(now);
                                &&& res == again.next_action(awake)
                                &&& *final(run) == again.after_action(awake)
                            },
                        }
                    }
                },
            },
    {
        match event {
            MessageEvent::Continue => {
                let awake: bool = self.is_awake(now);
                run.proceed(awake)
            },
            MessageEvent::WokenUp => run.proceed(true),
            MessageEvent::WakeupFailed(e) => MessageAction::Finish(
                MessageEnd { set_online: Some(false), result: Err(MessageFailure::Wakeup(e)) },
            ),
            MessageEvent::SendFailed(e) => MessageAction::Finish(
                MessageEnd { set_online: None, result: Err(MessageFailure::Send(e)) },
            ),
            MessageEvent::Attempted(sent_at, outcome) => {
                let noted = match outcome {
                    MessageOutcome::Confirmed => self.device_received_message(sent_at, go_to_sleep),
                    _ => self.device_received_message_maybe(sent_at, go_to_sleep),
                };
                match noted {
                    Err(e) => {
                        return MessageAction::Finish(
                            MessageEnd {
                                set_online: None,
                                result: Err(MessageFailure::Internal(e)),
                            },
                        );
                    },
                    Ok(()) => {},
                }
                match outcome {
                    MessageOutcome::Response => {
                        return MessageAction::Finish(
                            MessageEnd {
                                set_online: None,
                                result: Err(MessageFailure::UnexpectedResponse),
                            },
                        );
                    },
                    MessageOutcome::Failed(e) => {
                        return MessageAction::Finish(
                            MessageEnd { set_online: None, result: Err(MessageFailure::Read(e)) },
                        );
                    },
                    MessageOutcome::Confirmed => {
                        return MessageAction::Finish(
                            MessageEnd { set_online: Some(true), result: Ok(true) },
                        );
                    },
                    MessageOutcome::TimedOut => {
                        if !run.answer_required {
                            return MessageAction::Finish(
                                MessageEnd { set_online: None, result: Ok(false) },
                            );
                        }
                        if run.left == 0 {
                            return MessageAction::Finish(
                                MessageEnd { set_online: Some(false), result: Ok(false) },
                            );
                        }
                        run.pause = false;
                    },
                    MessageOutcome::Undelivered => {
                        run.pause = true;
                    },
                }
                let awake: bool = self.is_awake(now);
                run.proceed(awake)
            },
        }
    }
}

/// A message is sent at most as often as attempts are left. Once none is left,
/// it is over: without a confirmation if the last attempt was not answered in
/// time, and with an error if the last attempt did not even get through.
pub proof fn law_message_attempts_are_bounded(run: MessageRun, awake: bool)
    ensures
        run.next_action(awake) == MessageAction::Send ==> run.left > 0 && run.after_action(
            awake,
        ).left == run.left - 1,
        run.next_action(awake) != MessageAction::Send ==> run.after_action(awake).left == run.left,
        run.left == 0 ==> (run.next_action(awake) matches MessageAction::Finish(end) && end.result
            is Err),
        run.left == 0 && run.answer_required ==> attempt_end(
            MessageOutcome::TimedOut,
            run.answer_required,
            run.left,
        ) == Some(
            MessageAction::Finish(MessageEnd { set_online: Some(false), result: Ok(false) }),
        ),
{
}

/// Nothing is sent to a device that is asleep: it is woken up first.
pub proof fn law_sleeping_device_is_woken_up(request: RequestRun, message: MessageRun, online: bool)
    ensures
        request.next_action(false, online) != RequestAction::Send,
        message.next_action(false) != MessageAction::Send,
{
}

/// How a device is woken up.
#[derive(Clone, Copy, Debug, PartialEq, Eq)]
pub struct WakeupPlan {
    pub mac_address: [u8; 6],
    pub channel: u8,
}

/// What has happened while a device is woken up.
#[derive(Clone, Copy, Debug, PartialEq, Eq, Structural)]
pub enum WakeupEvent {
    /// It has just begun.
    Started,
    /// The radio module could not do it.
    Failed(Error),
    /// The device did not confirm in time.
    TimedOut,
    /// The queue was closed while waiting for the confirmation.
    QueueClosed,
    /// The device confirmed an attempt that was made at this time.
    Confirmed(Nanos),
}

/// How far waking up a device has come.
#[derive(Clone, Copy, Debug, PartialEq, Eq, Structural)]
pub struct WakeupRun {
    /// The attempts that are left.
    pub left: usize,
}

/// What to do to wake up a device.
#[derive(Clone, Copy, Debug, PartialEq, Eq)]
pub enum WakeupAction {
    /// Have the radio module try it, and wait for the confirmation.
    Try,
    Finish(Result<(), Error>),
}

impl WakeupRun {
    pub fn new() -> (res: Self)
        ensures
            res == (WakeupRun { left: DEFAULT_ATTEMPTS }),
    {
        WakeupRun { left: DEFAULT_ATTEMPTS }
    }

    pub open spec fn next_action(self) -> WakeupAction {
        if self.left == 0 {
            WakeupAction::Finish(Err(Error::OutOfAttempts))
        } else {
            WakeupAction::Try
        }
    }

    pub open spec fn after_action(self) -> WakeupRun {
        if self.left == 0 {
            self
        } else {
            WakeupRun { left: (self.left - 1) as usize }
        }
    }
}

/// Whether a status message confirms an attempt to wake up a device that was
/// made at `tried`.
pub fn confirms_wakeup(code: StatusCode, received: Nanos, tried: Nanos) -> (res: bool)
    ensures
        res == (received >= tried && code == StatusCode::Awake),
{
    received >= tried && code == StatusCode::Awake
}

impl Device {
    /// How to wake up the device. Only the address of an IPv6 device tells how
    /// to reach it by radio.
    pub fn plan_wakeup(&self) -> (res: Result<WakeupPlan, Error>)
        ensures
            match (self.description.address, res) {
                (IpAddr::V6(address), Ok(plan)) => bigint::be_value(plan.mac_address@) == address as nat
                    % pow2(48) && plan.channel == self.description.wakeup_channel.spec_channel(),
                (IpAddr::V4(_), Err(e)) => e == Error::Ipv6Required,
                _ => false,
            },
    {
        match self.description.mac_address() {
            None => Err(Error::Ipv6Required),
            Some(mac_address) => {
                let channel: u64 = self.description.wakeup_channel.channel();
                Ok(WakeupPlan { mac_address, channel: channel as u8 })
            },
        }
    }

    /// Goes on with waking up the device. Once it has confirmed an attempt it is
    /// awake for `duration` from that attempt on.
    pub fn wakeup_step(&mut self, run: &mut WakeupRun, event: WakeupEvent, duration: Nanos) -> (res:
        WakeupAction)
        ensures
            match event {
                WakeupEvent::Started | WakeupEvent::TimedOut => {
                    &&& res == old(run).next_action()
                    &&& *final(run) == old(run).after_action()
                },
                WakeupEvent::Failed(e) => {
                    &&& res == WakeupAction::Finish(Err(e))
                    &&& *final(run) == *old(run)
                },
                WakeupEvent::QueueClosed => {
                    &&& res == WakeupAction::Finish(Err(Error::QueueClosed))
                    &&& *final(run) == *old(run)
                },
                WakeupEvent::Confirmed(at) => {
                    &&& res == WakeupAction::Finish(
                        if at + duration > u128::MAX {
                            Err(Error::TimeOverflow)
                        } else {
                            Ok(())
                        },
                    )
                    &&& *final(run) == *old(run)
                },
            },
            *final(self) == (match event {
                WakeupEvent::Confirmed(at) => if at + duration > u128::MAX {
                    *old(self)
                } else {
                    Device { awake_until: Some((at + duration) as u128), ..*old(self) }
                },
                _ => *old(self),
            }),
    {
        match event {
            WakeupEvent::Started | WakeupEvent::TimedOut => if run.left == 0 {
                WakeupAction::Finish(Err(Error::OutOfAttempts))
            } else {
                run.left = run.left - 1;
                WakeupAction::Try
            },
            WakeupEvent::Failed(e) => WakeupAction::Finish(Err(e)),
            WakeupEvent::QueueClosed => WakeupAction::Finish(Err(Error::QueueClosed)),
            WakeupEvent::Confirmed(at) => match at.checked_add(duration) {
                Some(until) => {
                    self.awake_until = Some(until);
                    WakeupAction::Finish(Ok(()))
                },
                None => WakeupAction::Finish(Err(Error::TimeOverflow)),
            },
        }
    }
}

/// A device is tried to be woken up at most as often as attempts are left, and
/// it is an error once none is left.
pub proof fn law_wakeup_attempts_are_bounded(run: WakeupRun)
    ensures
        run.next_action() == WakeupAction::Try ==> run.left > 0 && run.after_action().left
            == run.left - 1,
        run.left == 0 ==> (run.next_action() matches WakeupAction::Finish(result) && result is Err),
{
}

/// A device that has confirmed is awake for as long as it was woken up, but for
/// the margin.
pub proof fn law_woken_device_is_awake(device: Device, at: Nanos, duration: Nanos, now: Nanos)
    requires
        at + duration <= u128::MAX,
        now + AWAKE_MARGIN < at + duration,
    ensures
        (Device { awake_until: Some((at + duration) as u128), ..device }).spec_is_awake(now),
{
}

/// A message that may have been missed never makes a device count as awake for
/// longer than before.
pub proof fn law_missed_message_shortens(device: Device, until: Nanos, now: Nanos)
    requires
        device.awake_until is Some,
        (Device { awake_until: device.awake_at_most(until), ..device }).spec_is_awake(now),
    ensures
        device.spec_is_awake(now),
{
}

/// An attempt that fails, for whatever reason, costs nothing but itself: the
/// attempts that are left are still there, and as long as there are any the
/// request goes on. It pauses first unless it has waited long enough already.
pub proof fn law_failed_attempt_is_followed_by_another(
    run: RequestRun,
    error: RequestError,
    awake: bool,
    online: bool,
)
    ensures
        ({
            let failed = after_failed_attempt(run, error);
            let action = failed.next_action(awake, online);
            let paused = failed.after_action(awake);
            &&& failed.left == run.left
            &&& failed.num_attempts == run.num_attempts
            &&& failed.last == error
            &&& run.left > 0 ==> {
                &&& error != RequestError::Timeout ==> action == RequestAction::Pause && paused.left
                    == run.left && !paused.pause && paused.last == error
                &&& error == RequestError::Timeout && awake ==> action == RequestAction::Send
                &&& error == RequestError::Timeout && !awake ==> action == RequestAction::Wakeup
            }
            &&& run.left == 0 ==> (action matches RequestAction::Finish(end) && end.result == Err::<
                (),
                RequestFailure,
            >(RequestFailure::NoAnswer(error)))
        }),
{
}

/// As long as an attempt is left and no pause is due, a request is sent to a
/// device that is awake, and a device that is not is woken up. Only sending uses
/// up an attempt, and only one.
pub proof fn law_request_goes_on(run: RequestRun, awake: bool, online: bool)
    requires
        run.left > 0,
    ensures
        run.pause ==> run.next_action(awake, online) == RequestAction::Pause && run.after_action(
            awake,
        ) == (RequestRun { pause: false, ..run }),
        !run.pause && awake ==> run.next_action(awake, online) == RequestAction::Send
            && run.after_action(awake) == (RequestRun { left: (run.left - 1) as usize, ..run }),
        !run.pause && !awake ==> run.next_action(awake, online) == RequestAction::Wakeup
            && run.after_action(awake) == run,
{
}

/// How often a request is sent to a device that is awake if the attempts fail
/// with these errors one after the other.
pub open spec fn unanswered_sends(run: RequestRun, errors: Seq<RequestError>, online: bool) -> nat
    decreases errors.len(),
{
    let ready = if run.next_action(true, online) == RequestAction::Pause {
        run.after_action(true)
    } else {
        run
    };
    if ready.next_action(true, online) != RequestAction::Send {
        0
    } else if errors.len() == 0 {
        1
    } else {
        1 + unanswered_sends(
            after_failed_attempt(ready.after_action(true), errors[0]),
            errors.drop_first(),
            online,
        )
    }
}

/// A request that is never answered is sent exactly as often as it has attempts,
/// whatever the attempts fail with.
pub proof fn law_unanswered_request_uses_all_attempts(
    run: RequestRun,
    errors: Seq<RequestError>,
    online: bool,
)
    requires
        run.left <= errors.len(),
    ensures
        unanswered_sends(run, errors, online) == run.left,
    decreases errors.len(),
{
    if run.left > 0 {
        let ready = if run.pause {
            run.after_action(true)
        } else {
            run
        };
        assert(ready.next_action(true, online) == RequestAction::Send);
        law_unanswered_request_uses_all_attempts(
            after_failed_attempt(ready.after_action(true), errors[0]),
            errors.drop_first(),
            online,
        );
    }
}

/// A request without an answer fails with the reason of its last attempt. The
/// device is offline then if it was tried more than once. If the last attempt
/// failed on our side, a device that was online stays so.
pub proof fn law_unanswered_request_ends(run: RequestRun, awake: bool, online: bool)
    requires
        run.left == 0,
    ensures
        run.next_action(awake, online) == RequestAction::Finish(run.end(online)),
        run.after_action(awake) == run,
        run.end(online).result == Err::<(), RequestFailure>(RequestFailure::NoAnswer(run.last)),
        run.last is Internal && online ==> run.end(online).set_online == Some(true),
        !(run.last is Internal && online) && run.num_attempts > 1 ==> run.end(online).set_online
            == Some(false),
        !(run.last is Internal && online) && run.num_attempts <= 1 ==> run.end(online).set_online
            is None,
{
}

/// A failure on our side says why, and nothing about the device.
pub proof fn law_own_failures_do_not_change_the_device(
    e: Error,
    result: Result<bool, MessageFailure>,
)
    ensures
        internal_end(e) matches RequestAction::Finish(end) && end.set_online is None && end.result
            == Err::<(), RequestFailure>(RequestFailure::Internal(e)),
        message_end(result) matches MessageAction::Finish(end) && end.set_online is None
            && end.result == result,
{
}

/// As long as an attempt is left and no pause is due, a message is sent to a
/// device that is awake, and a device that is not is woken up. Only sending uses
/// up an attempt, and only one.
pub proof fn law_message_goes_on(run: MessageRun, awake: bool)
    requires
        run.left > 0,
    ensures
        run.pause ==> run.next_action(awake) == MessageAction::Pause && run.after_action(awake)
            == (MessageRun { pause: false, ..run }),
        !run.pause && awake ==> run.next_action(awake) == MessageAction::Send && run.after_action(
            awake,
        ) == (MessageRun { left: (run.left - 1) as usize, ..run }),
        !run.pause && !awake ==> run.next_action(awake) == MessageAction::Wakeup
            && run.after_action(awake) == run,
{
}

/// A message is over as soon as it is confirmed, with a device that is online
/// then. It fails on an answer that it should not get and on errors other than
/// that it did not get through, none of which says whether the device is online.
/// One that does not get through is sent again if an attempt is left, whether it
/// has to be confirmed or not.
pub proof fn law_message_attempts(outcome: MessageOutcome, answer_required: bool, left: usize)
    ensures
        match outcome {
            MessageOutcome::Confirmed => attempt_end(outcome, answer_required, left) == Some(
                MessageAction::Finish(MessageEnd { set_online: Some(true), result: Ok(true) }),
            ),
            MessageOutcome::Response => attempt_end(outcome, answer_required, left) == Some(
                MessageAction::Finish(
                    MessageEnd {
                        set_online: None,
                        result: Err(MessageFailure::UnexpectedResponse),
                    },
                ),
            ),
            MessageOutcome::Failed(e) => attempt_end(outcome, answer_required, left) == Some(
                MessageAction::Finish(
                    MessageEnd { set_online: None, result: Err(MessageFailure::Read(e)) },
                ),
            ),
            MessageOutcome::Undelivered => attempt_end(outcome, answer_required, left) is None,
            MessageOutcome::TimedOut => true,
        },
{
}

/// A message that has to be confirmed is sent again on a timeout until no
/// attempt is left; then the device is offline. One that does not have to be
/// confirmed is sent once, and a timeout is all right.
pub proof fn law_message_timeouts(left: usize)
    ensures
        left > 0 ==> attempt_end(MessageOutcome::TimedOut, true, left) is None,
        left == 0 ==> attempt_end(MessageOutcome::TimedOut, true, left) == Some(
            MessageAction::Finish(MessageEnd { set_online: Some(false), result: Ok(false) }),
        ),
        attempt_end(MessageOutcome::TimedOut, false, left) == Some(
            MessageAction::Finish(MessageEnd { set_online: None, result: Ok(false) }),
        ),
{
}

/// A message that does not even get through with its last attempt fails, and the
/// device is offline.
pub proof fn law_undelivered_message_fails(run: MessageRun, awake: bool)
    requires
        run.left == 0,
    ensures
        run.next_action(awake) == MessageAction::Finish(
            MessageEnd { set_online: Some(false), result: Err(MessageFailure::OutOfAttempts) },
        ),
        run.after_action(awake) == run,
{
}

/// A device is tried to be woken up until no attempt is left, which is an error;
/// each try uses up one.
pub proof fn law_wakeup_goes_on(run: WakeupRun)
    ensures
        run.left > 0 ==> run.next_action() == WakeupAction::Try && run.after_action().left
            == run.left - 1,
        run.left == 0 ==> run.next_action() == WakeupAction::Finish(
            Err::<(), Error>(Error::OutOfAttempts),
        ) && run.after_action() == run,
{
}

/// Only included devices that wait for a wakeup frame ever sleep. Such a device
/// counts as awake until a second before it is due to sleep, and as asleep if
/// nothing is known.
pub proof fn law_who_sleeps(device: Device, now: Nanos)
    ensures
        device.description.radio_mode != RadioMode::WakeOnRadio ==> device.spec_is_awake(now),
        !device.description.included ==> device.spec_is_awake(now),
        device.description.radio_mode == RadioMode::WakeOnRadio && device.description.included ==> {
            &&& device.awake_until is None ==> !device.spec_is_awake(now)
            &&& device.awake_until matches Some(until) ==> (device.spec_is_awake(now) <==> until
                - now > 1_000_000_000)
        },
{
}

/// A device that may have missed a message goes to sleep at the earlier of the
/// two times, and at the only one that is known if there was none before.
pub proof fn law_earlier_sleep_counts(device: Device, until: Nanos)
    ensures
        device.awake_until is None ==> device.awake_at_most(until) == Some(until),
        device.awake_until matches Some(before) ==> (device.awake_at_most(until) matches Some(
            after,
        ) && after <= until && after <= before && (after == until || after == before)),
{
}

/// A device is online just if the last that was heard of it says so.
pub proof fn law_online_is_what_was_noted(device: Device)
    ensures
        device.persistent.connection_status == ConnectionStatus::Online ==> device.spec_online(),
        device.persistent.connection_status == ConnectionStatus::Offline ==> !device.spec_online(),
{
}

} // verus!

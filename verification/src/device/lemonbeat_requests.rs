//! The requests and messages that a device understands: what goes into them,
//! what counts as an answer, and what the answer means.

use crate::device::Device;
use crate::device::lemonbeat_communication::MessageFailure;
use crate::error::Error;
use crate::hexcode;
use crate::hexcode::encode;
use crate::lsdl::StatusCode;
use crate::lsdl::ValueDescriptionReport;
use crate::lsdl::ValueResponse;
use crate::storage::description::DeviceDescription;
use crate::storage::value;
use crate::storage::value::Value;
use crate::storage::value::ValueDescription;
use crate::time::Nanos;
use crate::utils;
use crate::utils::VersionOrder;
use crate::utils::create_version;
use vstd::prelude::*;

verus! {

/// What became of a message that is confirmed in some other way than by an
/// answer.
#[derive(Clone, Copy, Debug, PartialEq, Eq)]
pub enum Confirmation {
    Confirmed,
    TimedOut,
    /// The queue that the confirmation would have come from is gone.
    QueueClosed,
    Failed(MessageFailure),
}

/// Whether a device description confirms an inclusion that was sent at `sent`.
pub fn confirms_inclusion(description: &DeviceDescription, received: Nanos, sent: Nanos) -> (res:
    bool)
    ensures
        res == (received >= sent && description.included),
{
    received >= sent && description.included
}

/// Whether a status message confirms an exclusion that was sent at `sent`.
pub fn confirms_exclusion(code: StatusCode, received: Nanos, sent: Nanos) -> (res: bool)
    ensures
        res == (received >= sent && code == StatusCode::FactoryResetPending),
{
    received >= sent && code == StatusCode::FactoryResetPending
}

/// Whether a status message confirms a new time zone that was sent at `sent`.
pub fn confirms_timezone(code: StatusCode, received: Nanos, sent: Nanos) -> (res: bool)
    ensures
        res == (received >= sent && code == StatusCode::ConfigurationStarted),
{
    received >= sent && code == StatusCode::ConfigurationStarted
}

/// What follows an inclusion message.
#[derive(Clone, Copy, Debug, PartialEq, Eq, Structural)]
pub enum InclusionNext {
    /// The device has sent its description.
    Included,
    /// The confirmation may just have been lost: ask for the description.
    AskForDescription,
}

/// What follows an inclusion message. Whatever went wrong, the device gets
/// another chance to show that it was included.
pub fn after_inclusion_message(confirmation: Confirmation) -> (res: Result<InclusionNext, Error>)
    ensures
        res == (match confirmation {
            Confirmation::Confirmed => Ok::<InclusionNext, Error>(InclusionNext::Included),
            Confirmation::QueueClosed => Err::<InclusionNext, Error>(Error::QueueClosed),
            _ => Ok::<InclusionNext, Error>(InclusionNext::AskForDescription),
        }),
{
    match confirmation {
        Confirmation::Confirmed => Ok(InclusionNext::Included),
        Confirmation::QueueClosed => Err(Error::QueueClosed),
        _ => Ok(InclusionNext::AskForDescription),
    }
}

/// Whether a message that has to be confirmed, such as an exclusion, was.
pub fn confirmed_result(confirmation: Confirmation) -> (res: Result<(), Error>)
    ensures
        res == (match confirmation {
            Confirmation::Confirmed => Ok::<(), Error>(()),
            Confirmation::TimedOut => Err::<(), Error>(Error::NotConfirmed),
            Confirmation::QueueClosed => Err::<(), Error>(Error::QueueClosed),
            Confirmation::Failed(_) => Err::<(), Error>(Error::RequestFailed),
        }),
{
    match confirmation {
        Confirmation::Confirmed => Ok(()),
        Confirmation::TimedOut => Err(Error::NotConfirmed),
        Confirmation::QueueClosed => Err(Error::QueueClosed),
        Confirmation::Failed(_) => Err(Error::RequestFailed),
    }
}

/// Whether waiting for the confirmation of a new time zone timed out. That is
/// no failure: a device that already has that time zone does not confirm it.
pub fn timezone_result(confirmation: Confirmation) -> (res: Result<bool, Error>)
    ensures
        res == (match confirmation {
            Confirmation::Confirmed => Ok::<bool, Error>(false),
            Confirmation::TimedOut => Ok::<bool, Error>(true),
            Confirmation::QueueClosed => Err::<bool, Error>(Error::QueueClosed),
            Confirmation::Failed(_) => Err::<bool, Error>(Error::RequestFailed),
        }),
{
    match confirmation {
        Confirmation::Confirmed => Ok(false),
        Confirmation::TimedOut => Ok(true),
        Confirmation::QueueClosed => Err(Error::QueueClosed),
        Confirmation::Failed(_) => Err(Error::RequestFailed),
    }
}

/// Whether a message that is never confirmed was sent: all that can be waited
/// for is a network error, so running out of time is good news.
pub fn unconfirmed_result(confirmation: Confirmation) -> (res: Result<(), Error>)
    ensures
        res == (match confirmation {
            Confirmation::TimedOut => Ok::<(), Error>(()),
            Confirmation::Confirmed => Err::<(), Error>(Error::UnexpectedResponse),
            Confirmation::QueueClosed => Err::<(), Error>(Error::QueueClosed),
            Confirmation::Failed(_) => Err::<(), Error>(Error::RequestFailed),
        }),
{
    match confirmation {
        Confirmation::TimedOut => Ok(()),
        Confirmation::Confirmed => Err(Error::UnexpectedResponse),
        Confirmation::QueueClosed => Err(Error::QueueClosed),
        Confirmation::Failed(_) => Err(Error::RequestFailed),
    }
}

/// The messages that are not answered.
#[derive(Clone, Copy, Debug, PartialEq, Eq, Structural)]
pub enum MessageKind {
    Include,
    Exclude,
    SetTimezone,
    SetConfigMode,
    SetWakeupChannel,
    WriteValues,
}

/// How a message is sent.
#[derive(Clone, Copy, Debug, PartialEq, Eq, Structural)]
pub struct MessagePlan {
    pub encrypt: bool,
    /// Whether the message is sent again if nothing confirms it.
    pub answer_required: bool,
}

/// How a message is sent. A device that is not included yet does not know the
/// key, and only an inclusion and an exclusion are always confirmed.
pub fn plan_message(kind: MessageKind) -> (res: MessagePlan)
    ensures
        res.encrypt == (kind != MessageKind::Include),
        res.answer_required == (kind == MessageKind::Include || kind == MessageKind::Exclude),
{
    match kind {
        MessageKind::Include => MessagePlan { encrypt: false, answer_required: true },
        MessageKind::Exclude => MessagePlan { encrypt: true, answer_required: true },
        MessageKind::SetTimezone
        | MessageKind::SetConfigMode
        | MessageKind::SetWakeupChannel
        | MessageKind::WriteValues => MessagePlan { encrypt: true, answer_required: false },
    }
}

/// How a request is sent.
#[derive(Clone, Copy, Debug, PartialEq, Eq, Structural)]
pub struct RequestPlan {
    /// How long to wait for the answer; nothing for as long as usual.
    pub timeout: Option<Nanos>,
    pub num_attempts: usize,
    /// How long to wait after the answer.
    pub pause: Nanos,
}

/// How most requests are sent.
pub open spec fn default_plan() -> RequestPlan {
    RequestPlan { timeout: None, num_attempts: 3, pause: 0 }
}

/// How firmware data is sent. The last chunk takes a device some seconds; if it
/// is sent again meanwhile, the device refuses it.
pub fn plan_firmware_data() -> (res: RequestPlan)
    ensures
        res == (RequestPlan { timeout: Some(10_000_000_000u128), num_attempts: 1, pause: 0 }),
{
    RequestPlan { timeout: Some(10_000_000_000), num_attempts: 1, pause: 0 }
}

/// How the start of an update is sent. Older devices confirm it only after ten
/// seconds, and wait for ten more after each further request.
pub fn plan_update_start(long_timeout: bool) -> (res: RequestPlan)
    ensures
        res == (if long_timeout {
            RequestPlan { timeout: Some(15_000_000_000u128), num_attempts: 1, pause: 0 }
        } else {
            default_plan()
        }),
{
    if long_timeout {
        RequestPlan { timeout: Some(15_000_000_000), num_attempts: 1, pause: 0 }
    } else {
        RequestPlan { timeout: None, num_attempts: 3, pause: 0 }
    }
}

/// How the announcement of an upload is sent. Newer devices answer once they are
/// ready, which takes a while; others answer at once and need some time after
/// that.
pub open spec fn init_plan(confirms_late: bool) -> RequestPlan {
    if confirms_late {
        RequestPlan { timeout: Some(10_000_000_000u128), num_attempts: 3, pause: 0 }
    } else {
        RequestPlan { timeout: None, num_attempts: 3, pause: 6_000_000_000 }
    }
}

/// How the announcement of an upload is sent.
pub fn plan_firmware_init(confirms_late: bool) -> (res: RequestPlan)
    ensures
        res == init_plan(confirms_late),
{
    if confirms_late {
        RequestPlan { timeout: Some(10_000_000_000), num_attempts: 3, pause: 0 }
    } else {
        RequestPlan { timeout: None, num_attempts: 3, pause: 6_000_000_000 }
    }
}

/// The announcement of a firmware upload.
#[derive(Debug)]
pub struct FirmwareInit {
    pub size: u32,
    pub firmware_id: u32,
    pub checksum: String,
    pub plan: RequestPlan,
}

impl Device {
    /// Whether the stack of the device is newer than 1.5.0.
    pub open spec fn confirms_late(self) -> bool {
        utils::version_order(self.description.spec_version_stack(), utils::three_numbers(1, 5, 0))
            == VersionOrder::Newer
    }

    /// The announcement of an upload, and how it is sent.
    pub fn request_firmware_init(&self, size: usize, checksum: u16, firmware_id: u32) -> (res:
        Result<FirmwareInit, Error>)
        ensures
            match res {
                Ok(init) => {
                    &&& size <= u32::MAX
                    &&& init.size == size
                    &&& init.firmware_id == firmware_id
                    &&& init.checksum@ == hexcode::hex_text(
                        seq![(checksum / 256) as u8, (checksum % 256) as u8],
                        false,
                    )
                    &&& init.plan == init_plan(self.confirms_late())
                },
                Err(e) => size > u32::MAX && e == Error::OutOfRange,
            },
    {
        if size > 0xffff_ffff {
            return Err(Error::OutOfRange);
        }
        let bytes: [u8; 2] = [(checksum / 256) as u8, (checksum % 256) as u8];
        assert(bytes@ =~= seq![(checksum / 256) as u8, (checksum % 256) as u8]);
        let newer: bool = match self.description.version_stack_parsed().compare(
            &create_version(1, 5, 0),
        ) {
            VersionOrder::Newer => true,
            _ => false,
        };
        let plan = plan_firmware_init(newer);
        Ok(FirmwareInit { size: size as u32, firmware_id, checksum: encode(&bytes), plan })
    }
}

/// The ids of the value descriptions in a range.
pub fn ids_in_range(start: u32, end: u32) -> (res: Vec<u32>)
    ensures
        res@ == Seq::new(
            (if start <= end {
                end - start
            } else {
                0
            }) as nat,
            |i: int| (start + i) as u32,
        ),
{
    let mut res: Vec<u32> = Vec::new();
    let mut id: u32 = start;
    while id < end
        invariant
            start <= id,
            start <= end ==> id <= end,
            start > end ==> id == start,
            res@ == Seq::new((id - start) as nat, |i: int| (start + i) as u32),
        decreases end - id,
    {
        res.push(id);
        id += 1;
        assert(res@ =~= Seq::new((id - start) as nat, |i: int| (start + i) as u32));
    }
    res
}

/// Why the first of some reported value descriptions that cannot be used cannot
/// be used.
pub open spec fn first_description_error(reports: Seq<ValueDescriptionReport>, count: int) -> Option<
    Error,
>
    decreases count,
{
    if count <= 0 {
        None
    } else {
        match first_description_error(reports, count - 1) {
            Some(e) => Some(e),
            None => value::report_error(reports[count - 1]),
        }
    }
}

proof fn lemma_first_description_error(reports: Seq<ValueDescriptionReport>, i: int)
    requires
        0 <= i <= reports.len(),
        first_description_error(reports, i) is Some,
    ensures
        first_description_error(reports, reports.len() as int) == first_description_error(
            reports,
            i,
        ),
    decreases reports.len() - i,
{
    if i < reports.len() {
        lemma_first_description_error(reports, i + 1);
    }
}

/// The value descriptions that a device reports. All of them have to be usable.
pub fn value_descriptions(reports: &[ValueDescriptionReport]) -> (res: Result<
    Vec<ValueDescription>,
    Error,
>)
    ensures
        match res {
            Ok(descriptions) => {
                &&& first_description_error(reports@, reports@.len() as int) is None
                &&& descriptions@.len() == reports@.len()
                &&& forall|i: int|
                    0 <= i < reports@.len() ==> (#[trigger] descriptions@[i]).is_reported_by(
                        reports@[i],
                    )
            },
            Err(e) => first_description_error(reports@, reports@.len() as int) == Some(e),
        },
{
    let mut res: Vec<ValueDescription> = Vec::new();
    let mut i: usize = 0;
    while i < reports.len()
        invariant
            i <= reports@.len(),
            first_description_error(reports@, i as int) is None,
            res@.len() == i,
            forall|k: int| 0 <= k < i ==> (#[trigger] res@[k]).is_reported_by(reports@[k]),
        decreases reports@.len() - i,
    {
        match ValueDescription::new(&reports[i]) {
            Ok(description) => {
                res.push(description);
            },
            Err(e) => {
                proof {
                    lemma_first_description_error(reports@, i + 1);
                }
                return Err(e);
            },
        }
        i += 1;
    }
    Ok(res)
}

/// Why a part of an answer is not a value that can be used.
pub open spec fn response_error(response: ValueResponse) -> Option<Error> {
    match response {
        ValueResponse::Report(report) => value::value_error(report),
        ValueResponse::Other => Some(Error::UnsupportedData),
    }
}

/// Whether a value is what a part of an answer reports.
pub open spec fn is_response(value: Value, response: ValueResponse) -> bool {
    response matches ValueResponse::Report(report) && value.is_reported_by(report)
}

/// The value that a part of an answer reports.
pub fn response_value(response: &ValueResponse) -> (res: Result<Value, Error>)
    ensures
        match res {
            Ok(value) => response_error(*response) is None && is_response(value, *response),
            Err(e) => response_error(*response) == Some(e),
        },
{
    match response {
        ValueResponse::Report(report) => Value::new(report),
        ValueResponse::Other => Err(Error::UnsupportedData),
    }
}

/// Why the first part of an answer that is not a usable value is not.
pub open spec fn first_response_error(responses: Seq<ValueResponse>, count: int) -> Option<Error>
    decreases count,
{
    if count <= 0 {
        None
    } else {
        match first_response_error(responses, count - 1) {
            Some(e) => Some(e),
            None => response_error(responses[count - 1]),
        }
    }
}

proof fn lemma_first_response_error(responses: Seq<ValueResponse>, i: int)
    requires
        0 <= i <= responses.len(),
        first_response_error(responses, i) is Some,
    ensures
        first_response_error(responses, responses.len() as int) == first_response_error(
            responses,
            i,
        ),
    decreases responses.len() - i,
{
    if i < responses.len() {
        lemma_first_response_error(responses, i + 1);
    }
}

/// All values of a device. Every part of the answer has to be a usable value.
pub fn all_values(responses: &[ValueResponse]) -> (res: Result<Vec<Value>, Error>)
    ensures
        match res {
            Ok(values) => {
                &&& first_response_error(responses@, responses@.len() as int) is None
                &&& values@.len() == responses@.len()
                &&& forall|i: int|
                    0 <= i < responses@.len() ==> is_response(
                        #[trigger] values@[i],
                        responses@[i],
                    )
            },
            Err(e) => first_response_error(responses@, responses@.len() as int) == Some(e),
        },
{
    let mut res: Vec<Value> = Vec::new();
    let mut i: usize = 0;
    while i < responses.len()
        invariant
            i <= responses@.len(),
            first_response_error(responses@, i as int) is None,
            res@.len() == i,
            forall|k: int| 0 <= k < i ==> is_response(#[trigger] res@[k], responses@[k]),
        decreases responses@.len() - i,
    {
        match response_value(&responses[i]) {
            Ok(value) => {
                res.push(value);
            },
            Err(e) => {
                proof {
                    lemma_first_response_error(responses@, i + 1);
                }
                return Err(e);
            },
        }
        i += 1;
    }
    Ok(res)
}

/// A part of an answer can be used if it is a report of a value that can be
/// used; the value is then what is reported.
pub proof fn law_usable_responses(response: ValueResponse, value: Value)
    ensures
        response is Other ==> response_error(response) == Some(Error::UnsupportedData)
            && !is_response(value, response),
        response matches ValueResponse::Report(report) ==> response_error(response)
            == value::value_error(report) && is_response(value, response)
            == value.is_reported_by(report),
{
}

/// An answer fails with the first part that cannot be used, and only if there is
/// one.
pub proof fn law_first_bad_response(responses: Seq<ValueResponse>, i: int)
    requires
        0 <= i <= responses.len(),
        forall|k: int| 0 <= k < i ==> response_error(#[trigger] responses[k]) is None,
    ensures
        i == responses.len() ==> first_response_error(responses, i) is None,
        i < responses.len() && response_error(responses[i]) is Some ==> first_response_error(
            responses,
            responses.len() as int,
        ) == response_error(responses[i]),
{
    lemma_good_responses(responses, i);
    if i < responses.len() && response_error(responses[i]) is Some {
        lemma_first_response_error(responses, i + 1);
    }
}

proof fn lemma_good_responses(responses: Seq<ValueResponse>, i: int)
    requires
        0 <= i <= responses.len(),
        forall|k: int| 0 <= k < i ==> response_error(#[trigger] responses[k]) is None,
    ensures
        first_response_error(responses, i) is None,
    decreases i,
{
    if i > 0 {
        lemma_good_responses(responses, i - 1);
        assert(response_error(responses[i - 1]) is None);
    }
}

/// Descriptions fail with the first report that cannot be used, and only if
/// there is one.
pub proof fn law_first_bad_description(reports: Seq<ValueDescriptionReport>, i: int)
    requires
        0 <= i <= reports.len(),
        forall|k: int| 0 <= k < i ==> value::report_error(#[trigger] reports[k]) is None,
    ensures
        i == reports.len() ==> first_description_error(reports, i) is None,
        i < reports.len() && value::report_error(reports[i]) is Some ==> first_description_error(
            reports,
            reports.len() as int,
        ) == value::report_error(reports[i]),
{
    lemma_good_descriptions(reports, i);
    if i < reports.len() && value::report_error(reports[i]) is Some {
        lemma_first_description_error(reports, i + 1);
    }
}

proof fn lemma_good_descriptions(reports: Seq<ValueDescriptionReport>, i: int)
    requires
        0 <= i <= reports.len(),
        forall|k: int| 0 <= k < i ==> value::report_error(#[trigger] reports[k]) is None,
    ensures
        first_description_error(reports, i) is None,
    decreases i,
{
    if i > 0 {
        lemma_good_descriptions(reports, i - 1);
        assert(value::report_error(reports[i - 1]) is None);
    }
}

/// A device that answers late is waited for longer, and one that answers at once
/// is left alone for a while after that; either way it is tried three times, and
/// it is never both.
pub proof fn law_announcements_take_their_time(confirms_late: bool)
    ensures
        init_plan(confirms_late).num_attempts == 3,
        default_plan().num_attempts == 3,
        default_plan().timeout is None,
        default_plan().pause == 0,
        confirms_late ==> init_plan(confirms_late).timeout == Some(10_000_000_000u128) && init_plan(
            confirms_late,
        ).pause == 0,
        !confirms_late ==> init_plan(confirms_late).timeout is None && init_plan(
            confirms_late,
        ).pause == 6_000_000_000,
{
}

/// Only devices whose stack is newer than 1.5.0 answer late.
pub proof fn law_who_answers_late(device: Device)
    ensures
        device.confirms_late() <==> utils::version_order(
            device.description.spec_version_stack(),
            seq![
                utils::PartView::Number(1),
                utils::PartView::Number(5),
                utils::PartView::Number(0),
            ],
        ) == VersionOrder::Newer,
{
}

} // verus!
